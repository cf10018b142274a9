use cand::client::{
    check_welcome, devices_response, hello, set_response, Correlator, Delivery, Error as ClientError,
    FIRST_REQUEST_ID, HANDSHAKE_ID, HANDSHAKE_TIMEOUT_SECS,
};
use cand::proto::descriptor::{DeviceDescriptor, ErrorCode, RoomDescriptor};
use cand::proto::error::Error;
use cand::proto::helper::ReadWindow;
use cand::proto::message::{Message, ToClientPayload, ToServerPayload};
use cand::proto::net::{Deserialize, Serialize};
use cand::server::{acknowledged, channel_value, Core, Dispatch, DriverCommand, LoadedDriver};
use ciborium::value::Value;

fn living() -> RoomDescriptor {
    RoomDescriptor { id: b"living".to_vec(), display_name: "Living Room".to_string() }
}

fn device(id: &[u8]) -> DeviceDescriptor {
    DeviceDescriptor {
        id: id.to_vec(),
        display_name: "Device".to_string(),
        wiki_url: String::new(),
        channels: vec![],
    }
}

fn driver(device: &[u8], room: &[u8], channel: &[u8]) -> LoadedDriver {
    LoadedDriver {
        device: device.to_vec(),
        room: room.to_vec(),
        channel: channel.to_vec(),
        driver: "lamp".to_string(),
    }
}

fn building() -> Core {
    Core {
        rooms: vec![living()],
        devices: vec![],
        drivers: vec![
            driver(b"lamp", b"living", b"power"),
            driver(b"lamp", b"living", b"colour"),
            driver(b"lamp", b"living", b"power"),
        ],
    }
}

fn not_found(request_id: u64) -> Dispatch {
    Dispatch::Reply(Message {
        request_id,
        payload: ToClientPayload::Failed {
            code: ErrorCode::NoSuchChannel,
            message: "Could not find Device, Room or Channel".to_string(),
        },
    })
}

fn over_the_wire(message: &Message<ToServerPayload>) -> Message<ToServerPayload> {
    let mut bytes = Vec::new();
    message.serialize(&mut bytes).unwrap();
    <Message<ToServerPayload> as Deserialize>::deserialize(&mut ReadWindow::new(&bytes)).unwrap()
}

#[test]
fn hello_is_answered_by_welcome() {
    let request = over_the_wire(&hello());
    assert_eq!(
        building().dispatch(request),
        Dispatch::Reply(Message { request_id: 1, payload: ToClientPayload::Welcome })
    );
}

#[test]
fn get_devices_is_answered_by_rooms_and_devices() {
    let request = Message { request_id: 12, payload: ToServerPayload::GetDevices };
    assert_eq!(
        building().dispatch(request),
        Dispatch::Reply(Message {
            request_id: 12,
            payload: ToClientPayload::Devices { rooms: vec![living()], devices: vec![] },
        })
    );
    let full = Core { rooms: vec![], devices: vec![device(b"a"), device(b"b")], drivers: vec![] };
    assert_eq!(
        full.dispatch(Message { request_id: 0, payload: ToServerPayload::GetDevices }),
        Dispatch::Reply(Message {
            request_id: 0,
            payload: ToClientPayload::Devices {
                rooms: vec![],
                devices: vec![device(b"a"), device(b"b")],
            },
        })
    );
}

#[test]
fn set_channel_of_an_unknown_path_is_refused() {
    let request = Message {
        request_id: 5,
        payload: ToServerPayload::SetChannel {
            device: b"nope".to_vec(),
            room: b"living".to_vec(),
            channel: b"x".to_vec(),
            value: Value::Bool(true),
        },
    };
    assert_eq!(building().dispatch(over_the_wire(&request)), not_found(5));
}

#[test]
fn requests_for_a_channel_go_to_its_driver() {
    let path = |channel: &[u8]| (b"lamp".to_vec(), b"living".to_vec(), channel.to_vec());
    let (device, room, channel) = path(b"colour");
    let set = Message {
        request_id: 5,
        payload: ToServerPayload::SetChannel {
            device,
            room,
            channel,
            value: Value::Integer(3.into()),
        },
    };
    assert_eq!(
        building().dispatch(set),
        Dispatch::Forward {
            driver: 1,
            command: DriverCommand::SetValue(Value::Integer(3.into())),
            request_id: 5,
        }
    );
    let (device, room, channel) = path(b"power");
    let get = Message { request_id: 6, payload: ToServerPayload::GetChannel { device, room, channel } };
    assert_eq!(
        building().dispatch(get),
        Dispatch::Forward { driver: 0, command: DriverCommand::GetValue, request_id: 6 }
    );
    let (device, room, channel) = path(b"colour");
    let subscribe =
        Message { request_id: 7, payload: ToServerPayload::SubscribeChannel { device, room, channel } };
    assert_eq!(
        building().dispatch(subscribe),
        Dispatch::Forward { driver: 1, command: DriverCommand::Subscribe, request_id: 7 }
    );
}

#[test]
fn every_part_of_the_path_counts() {
    for (device, room, channel) in [
        (&b"lamp"[..], &b"living"[..], &b"volume"[..]),
        (b"lamp", b"kitchen", b"power"),
        (b"lamps", b"living", b"power"),
        (b"", b"", b""),
    ] {
        assert_eq!(building().find_driver(device, room, channel), None);
        let get = Message {
            request_id: 8,
            payload: ToServerPayload::GetChannel {
                device: device.to_vec(),
                room: room.to_vec(),
                channel: channel.to_vec(),
            },
        };
        assert_eq!(building().dispatch(get), not_found(8));
        assert_eq!(
            building().route(9, device, room, channel, DriverCommand::Subscribe),
            not_found(9)
        );
    }
    assert_eq!(building().find_driver(b"lamp", b"living", b"power"), Some(0));
    assert_eq!(building().find_driver(b"lamp", b"living", b"colour"), Some(1));
    assert_eq!(Core::not_found(3), match not_found(3) {
        Dispatch::Reply(m) => m,
        other => panic!("no reply: {:?}", other),
    });
}

#[test]
fn first_device_of_an_identifier_is_found() {
    let mut second = device(b"b");
    second.display_name = "Second".to_string();
    let core = Core {
        rooms: vec![],
        devices: vec![device(b"a"), device(b"b"), second],
        drivers: vec![],
    };
    assert_eq!(core.find_device(b"b"), Some(&device(b"b")));
    assert_eq!(core.find_device(b"a"), Some(&device(b"a")));
    assert_eq!(core.find_device(b"c"), None);
}

#[test]
fn answers_of_a_driver_carry_the_number_of_the_request() {
    assert_eq!(acknowledged(4), Message { request_id: 4, payload: ToClientPayload::Okay });
    assert_eq!(
        channel_value(4, Value::Bool(false)),
        Message {
            request_id: 4,
            payload: ToClientPayload::ChannelValue { flags: 0, value: Value::Bool(false) },
        }
    );
}

#[test]
fn handshake_is_hello_and_welcome_under_one() {
    assert_eq!(hello(), Message { request_id: 1, payload: ToServerPayload::Hello });
    assert_eq!(HANDSHAKE_ID, 1);
    assert_eq!(FIRST_REQUEST_ID, 2);
    assert_eq!(HANDSHAKE_TIMEOUT_SECS, 5);
    let welcome = Message { request_id: 1, payload: ToClientPayload::Welcome };
    assert_eq!(check_welcome(&welcome), Ok(()));
    let other_number = Message { request_id: 2, payload: ToClientPayload::Welcome };
    assert_eq!(check_welcome(&other_number), Err(ClientError::InvalidResponseId));
    let other_payload = Message { request_id: 1, payload: ToClientPayload::Okay };
    assert_eq!(check_welcome(&other_payload), Err(ClientError::UnexpectedResponseType));
    let both = Message { request_id: 3, payload: ToClientPayload::Okay };
    assert_eq!(check_welcome(&both), Err(ClientError::InvalidResponseId));
}

#[test]
fn responses_are_told_apart() {
    let refusal = || ToClientPayload::Failed {
        code: ErrorCode::NoSuchRoom,
        message: "no".to_string(),
    };
    let server_error =
        || ClientError::ServerError { code: ErrorCode::NoSuchRoom, message: "no".to_string() };
    assert_eq!(
        devices_response(ToClientPayload::Devices { rooms: vec![living()], devices: vec![] }),
        Ok((vec![living()], vec![]))
    );
    assert_eq!(devices_response(refusal()), Err(server_error()));
    assert_eq!(devices_response(ToClientPayload::Okay), Err(ClientError::UnexpectedResponseType));
    assert_eq!(set_response(ToClientPayload::Okay), Ok(()));
    assert_eq!(set_response(refusal()), Err(server_error()));
    assert_eq!(set_response(ToClientPayload::Welcome), Err(ClientError::UnexpectedResponseType));
    assert_ne!(ClientError::ProtocolError(Error::IOError), ClientError::ResponeTimeout);
}

#[test]
fn requests_are_numbered_from_two() {
    let mut correlator = Correlator::new();
    let first = correlator.send_request(ToServerPayload::GetDevices, false).unwrap();
    let second = correlator.send_request(ToServerPayload::Hello, true).unwrap();
    assert_eq!(first, Message { request_id: 2, payload: ToServerPayload::GetDevices });
    assert_eq!(second, Message { request_id: 3, payload: ToServerPayload::Hello });
}

#[test]
fn single_response_ends_its_request() {
    let mut correlator = Correlator::new();
    let id = correlator.send_request(ToServerPayload::GetDevices, false).unwrap().request_id;
    let response = || Message { request_id: id, payload: ToClientPayload::Okay };
    assert_eq!(
        correlator.message_received(response()),
        Delivery::Forward { req_id: id, payload: ToClientPayload::Okay, last: true }
    );
    assert_eq!(correlator.message_received(response()), Delivery::Dropped(response()));
}

#[test]
fn subscription_takes_many_responses_until_it_is_unregistered() {
    let mut correlator = Correlator::new();
    let id = correlator.send_request(ToServerPayload::GetDevices, true).unwrap().request_id;
    let response = || Message { request_id: id, payload: ToClientPayload::Okay };
    for _ in 0..3 {
        assert_eq!(
            correlator.message_received(response()),
            Delivery::Forward { req_id: id, payload: ToClientPayload::Okay, last: false }
        );
    }
    correlator.unregister(id);
    assert_eq!(correlator.message_received(response()), Delivery::Dropped(response()));
    correlator.unregister(id);
}

#[test]
fn response_under_an_unknown_number_is_dropped() {
    let mut correlator = Correlator::new();
    let stray = || Message { request_id: 1, payload: ToClientPayload::Welcome };
    assert_eq!(correlator.message_received(stray()), Delivery::Dropped(stray()));
    let id = correlator.send_request(ToServerPayload::Hello, false).unwrap().request_id;
    let other = || Message { request_id: id + 1, payload: ToClientPayload::Welcome };
    assert_eq!(correlator.message_received(other()), Delivery::Dropped(other()));
    assert_eq!(
        correlator.message_received(Message { request_id: id, payload: ToClientPayload::Welcome }),
        Delivery::Forward { req_id: id, payload: ToClientPayload::Welcome, last: true }
    );
}
