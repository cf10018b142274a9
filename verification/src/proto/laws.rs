//! What is written can be read back.

use vstd::prelude::*;
use vstd::utf8::encode_utf8;
use ciborium::value::Value;
use crate::proto::cbor::{cbor_decoding, cbor_encoding};
use crate::proto::descriptor::{
    parse_channel, parse_device, parse_enum_value, parse_room, parse_value_type, ChannelDescriptor,
    ChannelFlags, ChannelKind, DeviceDescriptor, EnumValue, ErrorCode, RoomDescriptor, ValueType,
};
use crate::proto::error::Error;
use crate::proto::helper::{
    bytes_encoding, lemma_varlen_round_trip, open_window, parse_bytes, parse_string, parse_u64,
    string_encoding, u64_be_bytes, varlen_bytes, windowed, Opened, MAX_VARLEN,
};
use crate::proto::list::{list_encoding, models, parse_list};
use crate::proto::message::{
    channel_value_encoding, devices_encoding, failure_encoding, message_encoding,
    parse_channel_value, parse_devices, parse_failure, parse_message, parse_path, path_encoding,
    Message, MessageModel, ToClientPayload, ToServerPayload,
};
use crate::proto::net::{value_encoding, Deserialize, DeserializeId, Serialize, SerializeId};

verus! {

/// A value reads back from its encoding, whatever follows the encoding.
pub open spec fn round_trips<T: Serialize + Deserialize>(x: T, rest: Seq<u8>) -> bool {
    x.encoding() matches Ok(w) ==> T::parse(w + rest) == Ok::<(T::Model, nat), Error>(
        (x.model(), w.len()),
    )
}

/// A payload reads back from its encoding under its own opcode, whatever
/// follows the encoding.
pub open spec fn payload_round_trips<T: SerializeId + DeserializeId>(x: T, rest: Seq<u8>) -> bool {
    x.encoding() matches Ok(w) ==> T::parse(x.opcode(), w + rest) == Ok::<(T::Model, nat), Error>(
        (x.model(), w.len()),
    )
}

/// The CBOR decoder gives the value back from the bytes that the CBOR
/// encoder made of it.
pub open spec fn value_survives(value: Value) -> bool {
    cbor_encoding(value) matches Some(bytes) ==> cbor_decoding(bytes) == Some(value)
}

/// A big-endian number reads back.
pub proof fn lemma_u64_round_trip(n: u64, rest: Seq<u8>)
    ensures
        parse_u64(u64_be_bytes(n) + rest) == Ok::<(u64, nat), Error>((n, 8)),
        u64_be_bytes(n).len() == 8,
{
    let s = u64_be_bytes(n) + rest;
    let b0: u8 = (n >> 56) as u8;
    let b1: u8 = (n >> 48) as u8;
    let b2: u8 = (n >> 40) as u8;
    let b3: u8 = (n >> 32) as u8;
    let b4: u8 = (n >> 24) as u8;
    let b5: u8 = (n >> 16) as u8;
    let b6: u8 = (n >> 8) as u8;
    let b7: u8 = n as u8;
    assert(s[0] == b0 && s[1] == b1 && s[2] == b2 && s[3] == b3);
    assert(s[4] == b4 && s[5] == b5 && s[6] == b6 && s[7] == b7);
    assert(((b0 as u64) << 56) | ((b1 as u64) << 48) | ((b2 as u64) << 40) | ((b3 as u64) << 32) | (
    (b4 as u64) << 24) | ((b5 as u64) << 16) | ((b6 as u64) << 8) | (b7 as u64) == n)
        by (bit_vector)
        requires
            b0 == (n >> 56) as u8,
            b1 == (n >> 48) as u8,
            b2 == (n >> 40) as u8,
            b3 == (n >> 32) as u8,
            b4 == (n >> 24) as u8,
            b5 == (n >> 16) as u8,
            b6 == (n >> 8) as u8,
            b7 == n as u8,
    ;
}

/// A window opens to what was written into it.
pub proof fn lemma_window_round_trip(content: Seq<u8>, rest: Seq<u8>)
    requires
        content.len() <= MAX_VARLEN,
    ensures
        windowed(Ok(content)) matches Ok(w) && open_window(w + rest) == Ok::<Opened, Error>(
            Opened { body: content, missing: 0, taken: w.len() },
        ),
{
    let len = content.len() as usize;
    let prefix = varlen_bytes(len);
    let w = prefix + content;
    lemma_varlen_round_trip(len, content + rest);
    assert(w + rest == prefix + (content + rest));
    let k = prefix.len();
    assert((w + rest).skip(k as int) == content + rest);
    assert((content + rest).subrange(0, content.len() as int) == content);
}

/// A byte string reads back.
pub proof fn lemma_bytes_round_trip(b: Seq<u8>, rest: Seq<u8>)
    ensures
        bytes_encoding(b) matches Ok(w) ==> parse_bytes(w + rest) == Ok::<(Seq<u8>, nat), Error>(
            (b, w.len()),
        ),
{
    if b.len() <= MAX_VARLEN {
        let len = b.len() as usize;
        let prefix = varlen_bytes(len);
        let w = prefix + b;
        lemma_varlen_round_trip(len, b + rest);
        assert(w + rest == prefix + (b + rest));
        let k = prefix.len();
        assert((w + rest).subrange(k as int, k + len) == b);
    }
}

/// A text reads back.
pub proof fn lemma_string_round_trip(t: Seq<char>, rest: Seq<u8>)
    ensures
        string_encoding(t) matches Ok(w) ==> parse_string(w + rest) == Ok::<
            (Seq<char>, nat),
            Error,
        >((t, w.len())),
{
    lemma_bytes_round_trip(encode_utf8(t), rest);
    vstd::utf8::encode_utf8_valid_utf8(t);
    vstd::utf8::encode_utf8_decode_utf8(t);
}

/// A list reads back where each of its items does.
pub proof fn lemma_list_round_trip<T: Serialize + Deserialize>(items: Seq<T>, rest: Seq<u8>)
    requires
        forall|i: int, r: Seq<u8>| 0 <= i < items.len() ==> #[trigger] round_trips(items[i], r),
    ensures
        list_encoding(items) matches Ok(w) ==> parse_list::<T>(items.len(), w + rest) == Ok::<
            (Seq<T::Model>, nat),
            Error,
        >((models(items), w.len())),
    decreases items.len(),
{
    reveal(list_encoding);
    reveal(parse_list);
    if items.len() == 0 {
        assert(models(items) == Seq::<T::Model>::empty());
    } else if list_encoding(items) is Ok {
        let first = items[0];
        let others = items.skip(1);
        let a = first.encoding()->Ok_0;
        let b = list_encoding(others)->Ok_0;
        assert forall|i: int, r: Seq<u8>| 0 <= i < others.len() implies #[trigger] round_trips(
            others[i],
            r,
        ) by {
            assert(others[i] == items[i + 1]);
            assert(round_trips(items[i + 1], r));
        }
        lemma_list_round_trip(others, rest);
        assert(round_trips(items[0], b + rest));
        assert((a + b) + rest == a + (b + rest));
        assert((a + (b + rest)).skip(a.len() as int) == b + rest);
        assert(seq![first.model()] + models(others) == models(items));
    }
}

/// A room descriptor reads back.
pub proof fn lemma_room_round_trip(x: RoomDescriptor, rest: Seq<u8>)
    ensures
        round_trips(x, rest),
{
    reveal(parse_room);
    if x.encoding() is Ok {
        let a = bytes_encoding(x.id@)->Ok_0;
        let b = string_encoding(x.display_name@)->Ok_0;
        lemma_window_round_trip(a + b, rest);
        lemma_bytes_round_trip(x.id@, b);
        assert((a + b).skip(a.len() as int) == b);
        lemma_string_round_trip(x.display_name@, Seq::empty());
        assert(b + Seq::<u8>::empty() == b);
    }
}

/// An error code reads back, unless it is an unknown code with the byte
/// of a known one.
pub proof fn lemma_error_code_round_trip(x: ErrorCode, rest: Seq<u8>)
    requires
        x.canonical(),
    ensures
        round_trips(x, rest),
{
    let w = seq![x.tag()];
    assert((w + rest)[0] == x.tag());
}

/// A channel kind reads back, unless it is an unknown kind with the byte
/// of a known one.
pub proof fn lemma_channel_kind_round_trip(x: ChannelKind, rest: Seq<u8>)
    requires
        x.canonical(),
    ensures
        round_trips(x, rest),
{
    let w = seq![x.tag()];
    assert((w + rest)[0] == x.tag());
}

/// Channel flags read back.
pub proof fn lemma_channel_flags_round_trip(x: ChannelFlags, rest: Seq<u8>)
    ensures
        round_trips(x, rest),
{
    let w = seq![x.0];
    assert((w + rest)[0] == x.0);
}

/// An enumerated value reads back.
pub proof fn lemma_enum_value_round_trip(x: EnumValue, rest: Seq<u8>)
    ensures
        round_trips(x, rest),
{
    reveal(parse_enum_value);
    if x.encoding() is Ok {
        let a = bytes_encoding(x.id@)->Ok_0;
        let b = string_encoding(x.display_name@)->Ok_0;
        lemma_bytes_round_trip(x.id@, b + rest);
        assert((a + b) + rest == a + (b + rest));
        assert((a + (b + rest)).skip(a.len() as int) == b + rest);
        lemma_string_round_trip(x.display_name@, rest);
    }
}

/// A value type reads back.
pub proof fn lemma_value_type_round_trip(x: ValueType, rest: Seq<u8>)
    ensures
        round_trips(x, rest),
{
    reveal(parse_value_type);
    if x.encoding() is Ok {
        match x {
            ValueType::Enum(values) => {
                let count = values@.len() as usize;
                let a = seq![6u8];
                let b = varlen_bytes(count);
                let c = list_encoding(values@)->Ok_0;
                let s = (a + (b + c)) + rest;
                assert(s[0] == 6u8);
                assert(s.skip(1) == b + (c + rest));
                lemma_varlen_round_trip(count, c + rest);
                assert((b + (c + rest)).skip(b.len() as int) == c + rest);
                assert forall|i: int, r: Seq<u8>| 0 <= i < values@.len() implies #[trigger] round_trips(
                    values@[i],
                    r,
                ) by {
                    lemma_enum_value_round_trip(values@[i], r);
                }
                lemma_list_round_trip(values@, rest);
            },
            _ => {
                let w = seq![x.tag()];
                assert((w + rest)[0] == x.tag());
            },
        }
    }
}

/// A channel descriptor reads back where its kind does.
#[verifier::rlimit(80)]
pub proof fn lemma_channel_round_trip(x: ChannelDescriptor, rest: Seq<u8>)
    requires
        x.channel_kind.canonical(),
    ensures
        round_trips(x, rest),
{
    reveal(parse_channel);
    if x.encoding() is Ok {
        let a = x.flags.encoding()->Ok_0;
        let b = bytes_encoding(x.room@)->Ok_0;
        let c = string_encoding(x.display_name@)->Ok_0;
        let d = x.value_type.encoding()->Ok_0;
        let e = x.channel_kind.encoding()->Ok_0;
        let content = (((a + b) + c) + d) + e;
        lemma_window_round_trip(content, rest);
        let rest1 = b + (c + (d + e));
        let rest2 = c + (d + e);
        let rest3 = d + e;
        assert(content == a + rest1);
        lemma_channel_flags_round_trip(x.flags, rest1);
        assert((a + rest1).skip(1) == rest1);
        lemma_bytes_round_trip(x.room@, rest2);
        assert(rest1.skip(b.len() as int) == rest2);
        lemma_string_round_trip(x.display_name@, rest3);
        assert(rest2.skip(c.len() as int) == rest3);
        lemma_value_type_round_trip(x.value_type, e);
        assert(rest3.skip(d.len() as int) == e);
        lemma_channel_kind_round_trip(x.channel_kind, Seq::empty());
        assert(e + Seq::<u8>::empty() == e);
    }
}

/// A list of channels reads back where the kind of each does.
pub proof fn lemma_channels_round_trip(channels: Seq<ChannelDescriptor>, rest: Seq<u8>)
    requires
        forall|i: int| 0 <= i < channels.len() ==> (#[trigger] channels[i]).channel_kind.canonical(),
    ensures
        list_encoding(channels) matches Ok(w) ==> parse_list::<ChannelDescriptor>(
            channels.len(),
            w + rest,
        ) == Ok::<(Seq<crate::proto::descriptor::ChannelModel>, nat), Error>(
            (models(channels), w.len()),
        ),
{
    assert forall|i: int, r: Seq<u8>| 0 <= i < channels.len() implies #[trigger] round_trips(
        channels[i],
        r,
    ) by {
        lemma_channel_round_trip(channels[i], r);
    }
    lemma_list_round_trip(channels, rest);
}

/// A device descriptor reads back where the kinds of its channels do.
#[verifier::rlimit(80)]
pub proof fn lemma_device_round_trip(x: DeviceDescriptor, rest: Seq<u8>)
    requires
        x.canonical(),
    ensures
        round_trips(x, rest),
{
    reveal(parse_device);
    if x.encoding() is Ok {
        let count = x.channels@.len() as usize;
        let a = bytes_encoding(x.id@)->Ok_0;
        let b = string_encoding(x.display_name@)->Ok_0;
        let c = string_encoding(x.wiki_url@)->Ok_0;
        let d = varlen_bytes(count);
        let e = list_encoding(x.channels@)->Ok_0;
        let content = (((a + b) + c) + d) + e;
        lemma_window_round_trip(content, rest);
        let rest1 = b + (c + (d + e));
        let rest2 = c + (d + e);
        let rest3 = d + e;
        assert(content == a + rest1);
        lemma_bytes_round_trip(x.id@, rest1);
        assert((a + rest1).skip(a.len() as int) == rest1);
        lemma_string_round_trip(x.display_name@, rest2);
        assert(rest1.skip(b.len() as int) == rest2);
        lemma_string_round_trip(x.wiki_url@, rest3);
        assert(rest2.skip(c.len() as int) == rest3);
        lemma_varlen_round_trip(count, e);
        assert(rest3.skip(d.len() as int) == e);
        lemma_channels_round_trip(x.channels@, Seq::empty());
        assert(e + Seq::<u8>::empty() == e);
    }
}

/// A value reads back where the CBOR decoder gives it back.
pub proof fn lemma_value_round_trip(x: Value, rest: Seq<u8>)
    requires
        value_survives(x),
    ensures
        round_trips(x, rest),
{
    if x.encoding() is Ok {
        let bytes = cbor_encoding(x)->Some_0;
        lemma_window_round_trip(bytes, rest);
    }
}

/// Whether the value that a request carries, if any, comes back from the
/// CBOR decoder.
pub open spec fn request_survives(x: ToServerPayload) -> bool {
    x matches ToServerPayload::SetChannel { value, .. } ==> value_survives(value)
}

/// Whether what a response carries comes back: a value from the CBOR
/// decoder, and a code or a kind as the one that its byte stands for.
pub open spec fn response_survives(x: ToClientPayload) -> bool {
    match x {
        ToClientPayload::Devices { devices, .. } => forall|i: int|
            0 <= i < devices@.len() ==> (#[trigger] devices@[i]).canonical(),
        ToClientPayload::ChannelValue { value, .. } => value_survives(value),
        ToClientPayload::Failed { code, .. } => code.canonical(),
        _ => true,
    }
}

/// The path to a channel reads back.
pub proof fn lemma_path_round_trip(
    device: Seq<u8>,
    room: Seq<u8>,
    channel: Seq<u8>,
    rest: Seq<u8>,
)
    ensures
        path_encoding(device, room, channel) matches Ok(w) ==> parse_path(w + rest) == Ok::<
            ((Seq<u8>, Seq<u8>, Seq<u8>), nat),
            Error,
        >(((device, room, channel), w.len())),
{
    reveal(path_encoding);
    reveal(parse_path);
    if path_encoding(device, room, channel) is Ok {
        let a = bytes_encoding(device)->Ok_0;
        let b = bytes_encoding(room)->Ok_0;
        let c = bytes_encoding(channel)->Ok_0;
        let rest1 = b + (c + rest);
        let rest2 = c + rest;
        assert(((a + b) + c) + rest == a + rest1);
        lemma_bytes_round_trip(device, rest1);
        assert((a + rest1).skip(a.len() as int) == rest1);
        lemma_bytes_round_trip(room, rest2);
        assert(rest1.skip(b.len() as int) == rest2);
        lemma_bytes_round_trip(channel, rest);
    }
}

/// A request's payload reads back under its opcode.
pub proof fn lemma_to_server_round_trip(x: ToServerPayload, rest: Seq<u8>)
    requires
        request_survives(x),
    ensures
        payload_round_trips(x, rest),
{
    if x.encoding() is Ok {
        match x {
            ToServerPayload::Hello => {
                assert(Seq::<u8>::empty() + rest == rest);
            },
            ToServerPayload::GetDevices => {
                assert(Seq::<u8>::empty() + rest == rest);
            },
            ToServerPayload::SetChannel { device, room, channel, value } => {
                let a = path_encoding(device@, room@, channel@)->Ok_0;
                let b = value_encoding(value)->Ok_0;
                lemma_path_round_trip(device@, room@, channel@, b + rest);
                assert((a + b) + rest == a + (b + rest));
                assert((a + (b + rest)).skip(a.len() as int) == b + rest);
                lemma_value_round_trip(value, rest);
            },
            ToServerPayload::GetChannel { device, room, channel } => {
                lemma_path_round_trip(device@, room@, channel@, rest);
            },
            ToServerPayload::SubscribeChannel { device, room, channel } => {
                lemma_path_round_trip(device@, room@, channel@, rest);
            },
        }
    }
}

/// The rooms and devices of the building read back.
pub proof fn lemma_devices_round_trip(
    rooms: Seq<RoomDescriptor>,
    devices: Seq<DeviceDescriptor>,
    rest: Seq<u8>,
)
    requires
        forall|i: int| 0 <= i < devices.len() ==> (#[trigger] devices[i]).canonical(),
    ensures
        devices_encoding(rooms, devices) matches Ok(w) ==> parse_devices(w + rest) == Ok::<
            (
                (
                    Seq<crate::proto::descriptor::RoomModel>,
                    Seq<crate::proto::descriptor::DeviceModel>,
                ),
                nat,
            ),
            Error,
        >(((models(rooms), models(devices)), w.len())),
{
    if devices_encoding(rooms, devices) is Ok {
        let room_count = rooms.len() as usize;
        let device_count = devices.len() as usize;
        let a = varlen_bytes(room_count);
        let b = list_encoding(rooms)->Ok_0;
        let c = varlen_bytes(device_count);
        let d = list_encoding(devices)->Ok_0;
        let rest1 = b + (c + (d + rest));
        let rest2 = c + (d + rest);
        let rest3 = d + rest;
        assert((((a + b) + c) + d) + rest == a + rest1);
        lemma_varlen_round_trip(room_count, rest1);
        assert((a + rest1).skip(a.len() as int) == rest1);
        assert forall|i: int, r: Seq<u8>| 0 <= i < rooms.len() implies #[trigger] round_trips(
            rooms[i],
            r,
        ) by {
            lemma_room_round_trip(rooms[i], r);
        }
        lemma_list_round_trip(rooms, rest2);
        assert(rest1.skip(b.len() as int) == rest2);
        lemma_varlen_round_trip(device_count, rest3);
        assert(rest2.skip(c.len() as int) == rest3);
        assert forall|i: int, r: Seq<u8>| 0 <= i < devices.len() implies #[trigger] round_trips(
            devices[i],
            r,
        ) by {
            lemma_device_round_trip(devices[i], r);
        }
        lemma_list_round_trip(devices, rest);
    }
}

/// The value of a channel reads back where the CBOR decoder gives it back.
pub proof fn lemma_channel_value_round_trip(flags: u8, value: Value, rest: Seq<u8>)
    requires
        value_survives(value),
    ensures
        channel_value_encoding(flags, value) matches Ok(w) ==> parse_channel_value(w + rest)
            == Ok::<((u8, Value), nat), Error>(((flags, value), w.len())),
{
    if channel_value_encoding(flags, value) is Ok {
        let a = seq![flags];
        let b = value_encoding(value)->Ok_0;
        assert((a + b) + rest == a + (b + rest));
        assert((a + (b + rest))[0] == flags);
        assert((a + (b + rest)).skip(1) == b + rest);
        lemma_value_round_trip(value, rest);
    }
}

/// A refusal reads back where its code does.
pub proof fn lemma_failure_round_trip(code: ErrorCode, message: Seq<char>, rest: Seq<u8>)
    requires
        code.canonical(),
    ensures
        failure_encoding(code, message) matches Ok(w) ==> parse_failure(w + rest) == Ok::<
            ((ErrorCode, Seq<char>), nat),
            Error,
        >(((code, message), w.len())),
{
    if failure_encoding(code, message) is Ok {
        let a = seq![code.tag()];
        let b = string_encoding(message)->Ok_0;
        assert((a + b) + rest == a + (b + rest));
        lemma_error_code_round_trip(code, b + rest);
        assert((a + (b + rest)).skip(1) == b + rest);
        lemma_string_round_trip(message, rest);
    }
}

/// A response's payload reads back under its opcode.
pub proof fn lemma_to_client_round_trip(x: ToClientPayload, rest: Seq<u8>)
    requires
        response_survives(x),
    ensures
        payload_round_trips(x, rest),
{
    if x.encoding() is Ok {
        match x {
            ToClientPayload::Welcome => {
                assert(Seq::<u8>::empty() + rest == rest);
            },
            ToClientPayload::Devices { rooms, devices } => {
                lemma_devices_round_trip(rooms@, devices@, rest);
            },
            ToClientPayload::ChannelValue { flags, value } => {
                lemma_channel_value_round_trip(flags, value, rest);
            },
            ToClientPayload::Okay => {
                assert(Seq::<u8>::empty() + rest == rest);
            },
            ToClientPayload::Failed { code, message } => {
                lemma_failure_round_trip(code, message@, rest);
            },
        }
    }
}

/// A message reads back where its payload does.
pub proof fn lemma_message_round_trip<T: SerializeId + DeserializeId>(
    m: Message<T>,
    rest: Seq<u8>,
)
    requires
        payload_round_trips(m.payload, Seq::empty()),
    ensures
        round_trips(m, rest),
{
    if m.encoding() is Ok {
        let opcode = m.payload.opcode();
        let body = m.payload.encoding()->Ok_0;
        let head = seq![opcode] + u64_be_bytes(m.request_id);
        let framed = windowed(Ok(body))->Ok_0;
        let s = (head + framed) + rest;
        lemma_u64_round_trip(m.request_id, framed + rest);
        lemma_window_round_trip(body, rest);
        assert(s[0] == opcode);
        assert(s.skip(1) == u64_be_bytes(m.request_id) + (framed + rest));
        assert(s.skip(1).skip(8) == framed + rest);
        assert(body + Seq::<u8>::empty() == body);
    }
}

/// Every request reads back from the bytes written for it, whatever
/// follows them: the same opcode, the same request number, the same
/// payload. The one condition is on the CBOR codec: that it gives back the
/// value that a `SetChannel` carries.
pub proof fn request_round_trip(m: Message<ToServerPayload>, rest: Seq<u8>)
    requires
        request_survives(m.payload),
    ensures
        round_trips(m, rest),
{
    lemma_to_server_round_trip(m.payload, Seq::empty());
    lemma_message_round_trip(m, rest);
}

/// Every response reads back from the bytes written for it, whatever
/// follows them. The conditions are that the CBOR codec gives back the
/// value that a `ChannelValue` carries, and that an error code or a channel
/// kind is not an unknown one with the byte of a known one.
pub proof fn response_round_trip(m: Message<ToClientPayload>, rest: Seq<u8>)
    requires
        response_survives(m.payload),
    ensures
        round_trips(m, rest),
{
    lemma_to_client_round_trip(m.payload, Seq::empty());
    lemma_message_round_trip(m, rest);
}

/// A well-formed envelope with an opcode above 4 is refused as an unknown
/// opcode, as a request and as a response, whatever its window holds.
pub proof fn unknown_opcode_is_rejected(
    opcode: u8,
    request_id: u64,
    body: Seq<u8>,
    rest: Seq<u8>,
)
    requires
        opcode > 4,
        body.len() <= MAX_VARLEN,
    ensures
        message_encoding(opcode, request_id, Ok(body)) matches Ok(w) && parse_message::<
            ToServerPayload,
        >(w + rest) == Err::<(MessageModel<crate::proto::message::ToServerModel>, nat), Error>(
            Error::InvalidId,
        ) && parse_message::<ToClientPayload>(w + rest) == Err::<
            (MessageModel<crate::proto::message::ToClientModel>, nat),
            Error,
        >(Error::InvalidId),
{
    let head = seq![opcode] + u64_be_bytes(request_id);
    let framed = windowed(Ok(body))->Ok_0;
    let s = (head + framed) + rest;
    lemma_u64_round_trip(request_id, framed + rest);
    lemma_window_round_trip(body, rest);
    assert(s[0] == opcode);
    assert(s.skip(1) == u64_be_bytes(request_id) + (framed + rest));
    assert(s.skip(1).skip(8) == framed + rest);
}

} // verus!
