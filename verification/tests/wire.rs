use cand::proto::descriptor::{
    ChannelDescriptor, ChannelFlags, ChannelKind, DeviceDescriptor, EnumValue, ErrorCode,
    RoomDescriptor, ValueType,
};
use cand::proto::error::Error;
use cand::proto::helper::{check_varlen, ReadExt, ReadWindow, WriteExt, WriteWindow, MAX_VARLEN};
use cand::proto::list::{read_list, write_list};
use cand::proto::message::{Message, ToClientPayload, ToServerPayload};
use cand::proto::net::{
    read_decoded, write_encoded, Deserialize, DeserializeId, Serialize, SerializeId,
};
use ciborium::value::Value;

fn written<T: Serialize>(value: &T) -> Vec<u8> {
    let mut out = Vec::new();
    value.serialize(&mut out).unwrap();
    out
}

fn read_back<T: Deserialize>(bytes: &[u8]) -> Result<T, Error> {
    let mut read = ReadWindow::new(bytes);
    let value = T::deserialize(&mut read)?;
    assert_eq!(read.remaining_bytes(), 0);
    Ok(value)
}

#[test]
fn hello_is_ten_bytes() {
    let hello = Message { request_id: 1, payload: ToServerPayload::Hello };
    assert_eq!(written(&hello), vec![0, 0, 0, 0, 0, 0, 0, 0, 1, 0]);
}

#[test]
fn welcome_is_ten_bytes_and_reads_back() {
    let welcome = Message { request_id: 1, payload: ToClientPayload::Welcome };
    let bytes = written(&welcome);
    assert_eq!(bytes, vec![0, 0, 0, 0, 0, 0, 0, 0, 1, 0]);
    assert_eq!(read_back::<Message<ToClientPayload>>(&bytes), Ok(welcome));
}

#[test]
fn request_number_is_big_endian() {
    let message = Message { request_id: 0x0102_0304_0506_0708, payload: ToServerPayload::GetDevices };
    assert_eq!(written(&message), vec![1, 1, 2, 3, 4, 5, 6, 7, 8, 0]);
    assert_eq!(read_back::<Message<ToServerPayload>>(&written(&message)), Ok(message));
}

#[test]
fn varlen_takes_one_byte_up_to_0x7f() {
    let mut out: Vec<u8> = Vec::new();
    assert_eq!(out.write_varlen(0), Ok(1));
    assert_eq!(out.write_varlen(0x7f), Ok(1));
    assert_eq!(out, vec![0x00, 0x7f]);
}

#[test]
fn varlen_takes_two_bytes_above_0x7f() {
    let mut out: Vec<u8> = Vec::new();
    assert_eq!(out.write_varlen(0x80), Ok(2));
    assert_eq!(out.write_varlen(0x1234), Ok(2));
    assert_eq!(out.write_varlen(0x3fff), Ok(2));
    assert_eq!(out, vec![0x81, 0x00, 0xa4, 0x34, 0xff, 0x7f]);
}

#[test]
fn varlen_above_the_limit_is_too_large() {
    let mut out: Vec<u8> = vec![9];
    assert_eq!(out.write_varlen(0x4000), Err(Error::ObjectTooLarge));
    assert_eq!(out, vec![9]);
    assert_eq!(check_varlen(MAX_VARLEN), Ok(()));
    assert_eq!(check_varlen(MAX_VARLEN + 1), Err(Error::ObjectTooLarge));
}

#[test]
fn varlen_reads_back_every_length() {
    for len in 0..=MAX_VARLEN {
        let mut out: Vec<u8> = Vec::new();
        out.write_varlen(len).unwrap();
        out.push(0xee);
        let mut read = ReadWindow::new(&out);
        assert_eq!(read.read_varlen(), Ok(len));
        assert_eq!(read.remaining_bytes(), 1);
    }
}

#[test]
fn varlen_reads_the_formula_of_two_bytes() {
    let bytes = [0x80u8, 0x05, 0x80, 0xff, 0xff, 0xff];
    let mut read = ReadWindow::new(&bytes);
    assert_eq!(read.read_varlen(), Ok(5));
    assert_eq!(read.read_varlen(), Ok(0xff));
    assert_eq!(read.read_varlen(), Ok(0x3fff));
}

#[test]
fn varlen_cut_short_is_an_io_error() {
    let mut read = ReadWindow::new(&[]);
    assert_eq!(read.read_varlen(), Err(Error::IOError));
    let bytes = [0x81u8];
    let mut read = ReadWindow::new(&bytes);
    assert_eq!(read.read_varlen(), Err(Error::IOError));
    assert_eq!(read.remaining_bytes(), 1);
}

#[test]
fn identifier_of_the_greatest_length_reads_back() {
    let id = vec![0xabu8; 0x3fff];
    let mut out: Vec<u8> = Vec::new();
    assert_eq!(out.write_id(&id), Ok(2 + 0x3fff));
    assert_eq!(out.len(), 2 + 0x3fff);
    let mut read = ReadWindow::new(&out);
    assert_eq!(read.read_id(), Ok(id));
    assert_eq!(read.remaining_bytes(), 0);
}

#[test]
fn identifier_above_the_greatest_length_is_too_large() {
    let id = vec![0u8; 0x4000];
    let mut out: Vec<u8> = Vec::new();
    assert_eq!(out.write_id(&id), Err(Error::ObjectTooLarge));
    assert_eq!(out.write_bytes(&id), Err(Error::ObjectTooLarge));
    assert!(out.is_empty());
}

#[test]
fn text_is_length_and_utf8() {
    let mut out: Vec<u8> = Vec::new();
    assert_eq!(out.write_string("häh"), Ok(5));
    assert_eq!(out, vec![4, b'h', 0xc3, 0xa4, b'h']);
    let mut read = ReadWindow::new(&out);
    assert_eq!(read.read_string(), Ok("häh".to_string()));
}

#[test]
fn text_that_is_not_utf8_is_refused() {
    let bytes = [2u8, 0x41, 0xff];
    let mut read = ReadWindow::new(&bytes);
    assert_eq!(read.read_string(), Err(Error::UTF8Error));
    assert_eq!(read.remaining_bytes(), 3);
}

#[test]
fn bytes_cut_short_are_an_io_error() {
    let bytes = [3u8, 1, 2];
    let mut read = ReadWindow::new(&bytes);
    assert_eq!(read.read_bytes(), Err(Error::IOError));
    assert_eq!(read.remaining_bytes(), 3);
}

#[test]
fn numbers_are_read_from_the_front() {
    let bytes = [7u8, 0, 0, 0, 0, 0, 0, 1, 2, 9];
    let mut read = ReadWindow::new(&bytes);
    assert_eq!(read.read_u8(), Ok(7));
    assert_eq!(read.read_u64(), Ok(0x0102));
    assert_eq!(read.rest(), &[9u8][..]);
    assert_eq!(read.read_u64(), Err(Error::IOError));
    assert_eq!(read.read_u8(), Ok(9));
    assert_eq!(read.read_u8(), Err(Error::IOError));
}

#[test]
fn window_is_finished_behind_its_length() {
    let mut out: Vec<u8> = vec![0xaa];
    let mut window: WriteWindow = out.write_window();
    window.write_u8(1);
    window.write_u64(2);
    assert_eq!(window.write_varlen(3), Ok(1));
    assert_eq!(window.finish(&mut out), Ok(()));
    assert_eq!(out, vec![0xaa, 10, 1, 0, 0, 0, 0, 0, 0, 0, 2, 3]);
}

#[test]
fn window_that_is_too_long_cannot_be_finished() {
    let mut out: Vec<u8> = vec![0xaa];
    let mut window = out.write_window();
    window.buffer = vec![0u8; 0x4000];
    assert_eq!(window.finish(&mut out), Err(Error::ObjectTooLarge));
    assert_eq!(out, vec![0xaa]);
}

#[test]
fn window_is_skipped_to_its_end() {
    let bytes = [3u8, 1, 2, 3, 9];
    let mut read = ReadWindow::new(&bytes);
    let mut window = read.read_window().unwrap();
    assert_eq!(read.remaining_bytes(), 1);
    assert_eq!(window.read_u8(), Ok(1));
    assert_eq!(window.remaining_bytes(), 2);
    assert_eq!(window.skip_to_end(), Ok(()));
    assert_eq!(window.remaining_bytes(), 0);
    assert_eq!(window.read_u8(), Err(Error::IOError));
    assert_eq!(read.read_u8(), Ok(9));
}

#[test]
fn window_longer_than_the_input_cannot_be_closed() {
    let bytes = [5u8, 1, 2];
    let mut read = ReadWindow::new(&bytes);
    let mut window = read.read_window().unwrap();
    assert_eq!(window.read_u8(), Ok(1));
    assert_eq!(window.read_u8(), Ok(2));
    assert_eq!(window.read_u8(), Err(Error::IOError));
    assert_eq!(window.skip_to_end(), Err(Error::IOError));
}

#[test]
fn window_of_a_given_length_takes_no_more_than_there_is() {
    let bytes = [1u8, 2, 3];
    let mut read = ReadWindow::new(&bytes);
    let mut inner = read.read_window_with_length(2);
    assert_eq!(inner.rest(), &[1u8, 2][..]);
    assert_eq!(inner.skip_to_end(), Ok(()));
    let mut beyond = read.read_window_with_length(4);
    assert_eq!(beyond.rest(), &[3u8][..]);
    assert_eq!(beyond.skip_to_end(), Err(Error::IOError));
}

fn living() -> RoomDescriptor {
    RoomDescriptor { id: b"living".to_vec(), display_name: "Living Room".to_string() }
}

#[test]
fn room_is_a_window_of_identifier_and_name() {
    let mut expected = vec![19u8, 6];
    expected.extend_from_slice(b"living");
    expected.push(11);
    expected.extend_from_slice(b"Living Room");
    assert_eq!(written(&living()), expected);
    assert_eq!(read_back::<RoomDescriptor>(&expected), Ok(living()));
}

#[test]
fn room_with_more_in_its_window_is_read_and_the_rest_skipped() {
    let mut bytes = vec![21u8, 6];
    bytes.extend_from_slice(b"living");
    bytes.push(11);
    bytes.extend_from_slice(b"Living Room");
    bytes.extend_from_slice(&[0xde, 0xad]);
    bytes.push(0x77);
    let mut read = ReadWindow::new(&bytes);
    assert_eq!(RoomDescriptor::deserialize(&mut read), Ok(living()));
    assert_eq!(read.rest(), &[0x77u8][..]);
}

#[test]
fn room_in_a_window_cut_short_is_an_io_error() {
    let mut bytes = vec![25u8, 6];
    bytes.extend_from_slice(b"living");
    bytes.push(11);
    bytes.extend_from_slice(b"Living Room");
    let mut read = ReadWindow::new(&bytes);
    assert_eq!(RoomDescriptor::deserialize(&mut read), Err(Error::IOError));
    assert_eq!(read.remaining_bytes(), bytes.len());
}

#[test]
fn devices_response_reads_back() {
    let response = Message {
        request_id: 7,
        payload: ToClientPayload::Devices { rooms: vec![living()], devices: vec![] },
    };
    let mut expected = vec![1u8, 0, 0, 0, 0, 0, 0, 0, 7, 22, 1, 19, 6];
    expected.extend_from_slice(b"living");
    expected.push(11);
    expected.extend_from_slice(b"Living Room");
    expected.push(0);
    assert_eq!(written(&response), expected);
    assert_eq!(read_back::<Message<ToClientPayload>>(&expected), Ok(response));
}

#[test]
fn refusal_reads_back() {
    let text = "Could not find Device, Room or Channel";
    let response = Message {
        request_id: 9,
        payload: ToClientPayload::Failed {
            code: ErrorCode::NoSuchChannel,
            message: text.to_string(),
        },
    };
    let mut expected = vec![4u8, 0, 0, 0, 0, 0, 0, 0, 9, 40, 2, 38];
    expected.extend_from_slice(text.as_bytes());
    assert_eq!(written(&response), expected);
    assert_eq!(read_back::<Message<ToClientPayload>>(&expected), Ok(response));
}

#[test]
fn set_channel_carries_its_value_as_cbor() {
    let request = Message {
        request_id: 3,
        payload: ToServerPayload::SetChannel {
            device: b"nope".to_vec(),
            room: b"living".to_vec(),
            channel: b"x".to_vec(),
            value: Value::Bool(true),
        },
    };
    let mut expected = vec![2u8, 0, 0, 0, 0, 0, 0, 0, 3, 16, 4];
    expected.extend_from_slice(b"nope");
    expected.push(6);
    expected.extend_from_slice(b"living");
    expected.extend_from_slice(&[1, b'x', 1, 0xf5]);
    assert_eq!(written(&request), expected);
    assert_eq!(read_back::<Message<ToServerPayload>>(&expected), Ok(request));
}

#[test]
fn get_and_subscribe_carry_the_path() {
    let get = Message {
        request_id: 4,
        payload: ToServerPayload::GetChannel {
            device: vec![1],
            room: vec![2, 3],
            channel: vec![],
        },
    };
    assert_eq!(written(&get), vec![3, 0, 0, 0, 0, 0, 0, 0, 4, 6, 1, 1, 2, 2, 3, 0]);
    assert_eq!(read_back::<Message<ToServerPayload>>(&written(&get)), Ok(get));
    let subscribe = Message {
        request_id: 5,
        payload: ToServerPayload::SubscribeChannel {
            device: vec![1],
            room: vec![2, 3],
            channel: vec![],
        },
    };
    assert_eq!(written(&subscribe), vec![4, 0, 0, 0, 0, 0, 0, 0, 5, 6, 1, 1, 2, 2, 3, 0]);
    assert_eq!(read_back::<Message<ToServerPayload>>(&written(&subscribe)), Ok(subscribe));
}

#[test]
fn channel_value_and_ok_read_back() {
    let value = Message {
        request_id: 6,
        payload: ToClientPayload::ChannelValue {
            flags: 0,
            value: Value::Text("on".to_string()),
        },
    };
    assert_eq!(
        written(&value),
        vec![2, 0, 0, 0, 0, 0, 0, 0, 6, 5, 0, 3, 0x62, b'o', b'n']
    );
    assert_eq!(read_back::<Message<ToClientPayload>>(&written(&value)), Ok(value));
    let done = Message { request_id: 6, payload: ToClientPayload::Okay };
    assert_eq!(written(&done), vec![3, 0, 0, 0, 0, 0, 0, 0, 6, 0]);
    assert_eq!(read_back::<Message<ToClientPayload>>(&written(&done)), Ok(done));
}

#[test]
fn opcodes_are_zero_to_four() {
    assert_eq!(ToServerPayload::Hello.id(), 0);
    assert_eq!(ToServerPayload::GetDevices.id(), 1);
    assert_eq!(
        ToServerPayload::GetChannel { device: vec![], room: vec![], channel: vec![] }.id(),
        3
    );
    assert_eq!(ToClientPayload::Welcome.id(), 0);
    assert_eq!(ToClientPayload::Devices { rooms: vec![], devices: vec![] }.id(), 1);
    assert_eq!(ToClientPayload::ChannelValue { flags: 0, value: Value::Null }.id(), 2);
    assert_eq!(ToClientPayload::Okay.id(), 3);
    assert_eq!(
        ToClientPayload::Failed { code: ErrorCode::NoSuchRoom, message: String::new() }.id(),
        4
    );
}

#[test]
fn unknown_opcode_is_an_invalid_id() {
    for opcode in 5..=255u8 {
        let bytes = [opcode, 0, 0, 0, 0, 0, 0, 0, 1, 0];
        assert_eq!(read_back::<Message<ToServerPayload>>(&bytes), Err(Error::InvalidId));
        assert_eq!(read_back::<Message<ToClientPayload>>(&bytes), Err(Error::InvalidId));
        let mut read = ReadWindow::new(&[]);
        assert_eq!(ToServerPayload::deserialize(opcode, &mut read), Err(Error::InvalidId));
        assert_eq!(ToClientPayload::deserialize(opcode, &mut read), Err(Error::InvalidId));
    }
}

#[test]
fn message_cut_short_is_an_io_error() {
    let bytes = [0u8, 0, 0, 0, 0, 0, 0, 0, 1];
    assert_eq!(read_back::<Message<ToServerPayload>>(&bytes), Err(Error::IOError));
    assert_eq!(read_back::<Message<ToServerPayload>>(&bytes[..4]), Err(Error::IOError));
    assert_eq!(read_back::<Message<ToServerPayload>>(&[]), Err(Error::IOError));
}

#[test]
fn value_that_is_no_cbor_is_refused() {
    let bytes = [2u8, 0, 0, 0, 0, 0, 0, 0, 1, 3, 0, 1, 0xff];
    assert_eq!(read_back::<Message<ToClientPayload>>(&bytes), Err(Error::CBORDeError));
    let empty = [0u8];
    assert_eq!(read_back::<Value>(&empty), Err(Error::CBORDeError));
}

#[test]
fn value_is_cbor_in_a_window() {
    let value = Value::Array(vec![Value::Integer(1.into()), Value::Bytes(vec![7, 8])]);
    assert_eq!(written(&value), vec![5, 0x82, 0x01, 0x42, 7, 8]);
    assert_eq!(read_back::<Value>(&written(&value)), Ok(value));
}

#[test]
fn value_too_long_for_a_window_is_too_large() {
    let value = Value::Bytes(vec![0u8; 0x4000]);
    let mut out = vec![1u8];
    assert_eq!(value.serialize(&mut out), Err(Error::ObjectTooLarge));
    assert_eq!(out, vec![1]);
}

#[test]
fn error_codes_are_bytes() {
    assert_eq!(written(&ErrorCode::NoSuchDevice), vec![0]);
    assert_eq!(written(&ErrorCode::NoSuchRoom), vec![1]);
    assert_eq!(written(&ErrorCode::NoSuchChannel), vec![2]);
    assert_eq!(written(&ErrorCode::InvalidRequestForChannel), vec![3]);
    assert_eq!(written(&ErrorCode::UnknownError(200)), vec![200]);
    assert_eq!(read_back::<ErrorCode>(&[3]), Ok(ErrorCode::InvalidRequestForChannel));
    assert_eq!(read_back::<ErrorCode>(&[4]), Ok(ErrorCode::UnknownError(4)));
    assert_eq!(read_back::<ErrorCode>(&[]), Err(Error::IOError));
}

#[test]
fn unknown_code_with_a_known_byte_reads_back_as_the_known_code() {
    assert_eq!(written(&ErrorCode::UnknownError(2)), vec![2]);
    assert_eq!(read_back::<ErrorCode>(&[2]), Ok(ErrorCode::NoSuchChannel));
    assert_eq!(read_back::<ChannelKind>(&written(&ChannelKind::Unknown(1))), Ok(ChannelKind::ActorLamp));
}

#[test]
fn channel_kinds_are_bytes() {
    let kinds = [
        ChannelKind::Other,
        ChannelKind::ActorLamp,
        ChannelKind::ActorWallSocket,
        ChannelKind::ActorRelay,
        ChannelKind::SensorTemperature,
        ChannelKind::SensorButton,
        ChannelKind::Volume,
        ChannelKind::DeviceBorg,
    ];
    for (tag, kind) in kinds.iter().enumerate() {
        assert_eq!(written(kind), vec![tag as u8]);
        assert_eq!(read_back::<ChannelKind>(&[tag as u8]), Ok(*kind));
    }
    assert_eq!(read_back::<ChannelKind>(&[8]), Ok(ChannelKind::Unknown(8)));
    assert_eq!(written(&ChannelKind::Unknown(0xfe)), vec![0xfe]);
    assert_eq!(written(&ChannelFlags(0x7)), vec![7]);
    assert_eq!(read_back::<ChannelFlags>(&[0x83]), Ok(ChannelFlags(0x83)));
}

#[test]
fn value_types_are_tags() {
    let plain = [
        (0u8, ValueType::Boolean),
        (1, ValueType::U8),
        (2, ValueType::U32),
        (3, ValueType::F32),
        (4, ValueType::RGB),
        (5, ValueType::Event),
        (7, ValueType::String),
        (8, ValueType::Binary),
        (9, ValueType::Object),
    ];
    for (tag, value_type) in plain {
        assert_eq!(written(&value_type), vec![tag]);
        assert_eq!(read_back::<ValueType>(&[tag]), Ok(value_type));
    }
    assert_eq!(read_back::<ValueType>(&[10]), Err(Error::InvalidId));
    assert_eq!(read_back::<ValueType>(&[0x86]), Err(Error::InvalidId));
}

fn colours() -> ValueType {
    ValueType::Enum(vec![
        EnumValue { id: vec![1], display_name: "red".to_string() },
        EnumValue { id: vec![2, 2], display_name: "green".to_string() },
    ])
}

#[test]
fn enumerated_type_lists_its_values() {
    let mut expected = vec![6u8, 2, 1, 1, 3];
    expected.extend_from_slice(b"red");
    expected.extend_from_slice(&[2, 2, 2, 5]);
    expected.extend_from_slice(b"green");
    assert_eq!(written(&colours()), expected);
    assert_eq!(read_back::<ValueType>(&expected), Ok(colours()));
    assert_eq!(read_back::<ValueType>(&expected[..7]), Err(Error::IOError));
}

fn lamp_channel() -> ChannelDescriptor {
    ChannelDescriptor {
        flags: ChannelFlags(7),
        room: b"living".to_vec(),
        display_name: "Lamp".to_string(),
        value_type: colours(),
        channel_kind: ChannelKind::ActorLamp,
    }
}

#[test]
fn channel_reads_back() {
    let bytes = written(&lamp_channel());
    assert_eq!(bytes[0] as usize, bytes.len() - 1);
    assert_eq!(&bytes[1..9], &[7, 6, b'l', b'i', b'v', b'i', b'n', b'g'][..]);
    assert_eq!(*bytes.last().unwrap(), 1);
    assert_eq!(read_back::<ChannelDescriptor>(&bytes), Ok(lamp_channel()));
}

#[test]
fn device_with_channels_reads_back() {
    let device = DeviceDescriptor {
        id: b"lamp-1".to_vec(),
        display_name: "Big Lamp".to_string(),
        wiki_url: "https://wiki.example/lamp".to_string(),
        channels: vec![lamp_channel(), lamp_channel()],
    };
    let bytes = written(&device);
    assert_eq!(bytes[0] as usize, bytes.len() - 1);
    assert_eq!(read_back::<DeviceDescriptor>(&bytes), Ok(device.clone()));
    let response = Message {
        request_id: u64::MAX,
        payload: ToClientPayload::Devices { rooms: vec![living(), living()], devices: vec![device] },
    };
    assert_eq!(read_back::<Message<ToClientPayload>>(&written(&response)), Ok(response));
}

#[test]
fn message_too_long_for_its_window_is_too_large() {
    let request = Message {
        request_id: 1,
        payload: ToServerPayload::GetChannel {
            device: vec![0u8; 0x3fff],
            room: vec![],
            channel: vec![],
        },
    };
    let mut out = vec![5u8];
    assert_eq!(request.serialize(&mut out), Err(Error::ObjectTooLarge));
    assert_eq!(out, vec![5]);
}

#[test]
fn response_takes_the_number_of_its_request() {
    let request = Message { request_id: 77, payload: ToServerPayload::Hello };
    let response = request.new_response(ToClientPayload::Welcome);
    assert_eq!(response, Message { request_id: 77, payload: ToClientPayload::Welcome });
}

#[test]
fn errors_have_messages() {
    assert_eq!(Error::ObjectTooLarge.message(), "Object too large for protocol");
    assert_eq!(Error::InvalidId.message(), "Invalid ID in protocol");
    assert_eq!(Error::UTF8Error.message(), "Invalid UTF-8");
    assert_eq!(Error::CBORSerError.message(), "CBOR Serialization Error");
    assert_eq!(Error::CBORDeError.message(), "CBOR Deserialization Error");
    assert_eq!(Error::IOError.message(), "IO Error: unexpected end of input");
}

#[test]
fn outcome_of_the_encoder_is_written_as_a_window() {
    let mut out = vec![9u8];
    assert_eq!(write_encoded(Some(vec![0xf5]), &mut out), Ok(()));
    assert_eq!(out, vec![9, 1, 0xf5]);
    assert_eq!(write_encoded(None, &mut out), Err(Error::CBORSerError));
    assert_eq!(write_encoded(Some(vec![0; 0x4000]), &mut out), Err(Error::ObjectTooLarge));
    assert_eq!(out, vec![9, 1, 0xf5]);
}

#[test]
fn outcome_of_the_decoder_is_read_from_a_window() {
    let bytes = [2u8, 0xf5, 0x00, 7];
    let mut read = ReadWindow::new(&bytes);
    let mut window = read.read_window().unwrap();
    assert_eq!(read_decoded(None, &mut window), Err(Error::CBORDeError));
    assert_eq!(window.remaining_bytes(), 2);
    assert_eq!(read_decoded(Some(Value::Bool(true)), &mut window), Ok(Value::Bool(true)));
    assert_eq!(window.remaining_bytes(), 0);
    let mut short = read.read_window_with_length(3);
    assert_eq!(read_decoded(Some(Value::Null), &mut short), Err(Error::IOError));
}

#[test]
fn lists_are_written_and_read_item_by_item() {
    let rooms = vec![living(), living()];
    let mut out = Vec::new();
    assert_eq!(write_list(&rooms, &mut out), Ok(()));
    assert_eq!(out.len(), 40);
    let mut read = ReadWindow::new(&out);
    assert_eq!(read_list::<RoomDescriptor>(2, &mut read), Ok(rooms));
    assert_eq!(read.remaining_bytes(), 0);
    let mut again = ReadWindow::new(&out);
    assert_eq!(read_list::<RoomDescriptor>(3, &mut again), Err(Error::IOError));
    assert_eq!(again.remaining_bytes(), 40);
    assert_eq!(read_list::<RoomDescriptor>(0, &mut again), Ok(vec![]));
}
