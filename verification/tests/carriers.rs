use cand::can::{CanAddr, CanPacket, Message};
use cand::client::filter_devices;
use cand::gateway::{from_packet, to_packet};
use cand::legacy::{CanTCPPacket, Rs232CanCmd};
use cand::proto::descriptor::{
    ChannelDescriptor, ChannelFlags, ChannelKind, DeviceDescriptor, ValueType,
};
use cand::proto::message::{message_length, Message as Envelope, ToServerPayload};
use cand::proto::net::Serialize;

fn frame() -> Message {
    Message::Frame(
        CanPacket::new(
            CanAddr::new(0x01, 0x02).unwrap(),
            CanAddr::new(0x03, 0x04).unwrap(),
            vec![0xde, 0xad],
        )
        .unwrap(),
    )
}

fn packet(cmd: Rs232CanCmd, data: &[u8]) -> CanTCPPacket {
    CanTCPPacket { cmd, data: data.to_vec() }
}

#[test]
fn frame_is_carried_as_a_packet_of_the_gateway() {
    let carrier = packet(Rs232CanCmd::Pkt, &[0x03, 0x01, 0x04, 0x01, 2, 0xde, 0xad]);
    assert_eq!(to_packet(&frame()), Some(carrier));
    assert_eq!(from_packet(packet(Rs232CanCmd::Pkt, &[0x03, 0x01, 0x04, 0x01, 2, 0xde, 0xad])), frame());
}

#[test]
fn control_messages_are_carried_by_their_commands() {
    let pairs = [
        (Message::Ping, packet(Rs232CanCmd::PingGateway, &[])),
        (Message::Resync, packet(Rs232CanCmd::Resync, &[])),
        (Message::Reset { cause: 3 }, packet(Rs232CanCmd::NotifyReset, &[3])),
        (Message::VersionRequest, packet(Rs232CanCmd::Version, &[])),
        (Message::VersionReply { major: 1, minor: 2 }, packet(Rs232CanCmd::Version, &[1, 2])),
        (Message::FirmwareIdRequest, packet(Rs232CanCmd::IDString, &[])),
        (Message::FirmwareIdResponse("cand".to_string()), packet(Rs232CanCmd::IDString, b"cand")),
        (
            Message::Unknown { command: 0x19, payload: vec![1, 2, 3] },
            packet(Rs232CanCmd::Packetcounters, &[1, 2, 3]),
        ),
    ];
    for (message, carrier) in pairs {
        assert_eq!(to_packet(&message), Some(packet(carrier.cmd, &carrier.data)));
        assert_eq!(from_packet(carrier), message);
    }
}

#[test]
fn what_fits_no_frame_is_not_carried() {
    let long = CanPacket {
        src: CanAddr { addr: 1, port: 2 },
        dest: CanAddr { addr: 3, port: 4 },
        payload: vec![0; 9],
    };
    assert_eq!(to_packet(&Message::Frame(long)), None);
    assert_eq!(to_packet(&Message::FirmwareIdResponse("x".repeat(19))), None);
    assert_eq!(to_packet(&Message::Unknown { command: 0x01, payload: vec![] }), None);
    assert_eq!(to_packet(&Message::Unknown { command: 0x10, payload: vec![0; 19] }), None);
    assert!(to_packet(&Message::FirmwareIdResponse("x".repeat(18))).is_some());
}

#[test]
fn what_carries_no_known_envelope_is_unknown() {
    let unknown = |cmd: Rs232CanCmd, code: u8, data: &[u8]| {
        assert_eq!(
            from_packet(packet(cmd, data)),
            Message::Unknown { command: code, payload: data.to_vec() }
        );
    };
    unknown(Rs232CanCmd::Pkt, 0x11, &[1, 2, 3]);
    unknown(Rs232CanCmd::Pkt, 0x11, &[0x03, 0x01, 0x04, 0x01, 3, 0xde, 0xad]);
    unknown(Rs232CanCmd::Pkt, 0x11, &[0, 0, 0, 0x20, 0]);
    unknown(Rs232CanCmd::Pkt, 0x11, &[0, 0, 0, 0, 9, 1, 2, 3, 4, 5, 6, 7, 8, 9]);
    unknown(Rs232CanCmd::PingGateway, 0x15, &[1]);
    unknown(Rs232CanCmd::Resync, 0x16, &[1]);
    unknown(Rs232CanCmd::NotifyReset, 0x14, &[]);
    unknown(Rs232CanCmd::Version, 0x17, &[1]);
    unknown(Rs232CanCmd::IDString, 0x18, &[0xff]);
    unknown(Rs232CanCmd::SetFilter, 0x10, &[]);
    unknown(Rs232CanCmd::Reset, 0x00, &[]);
}

#[test]
fn length_of_a_message_is_told_from_its_head() {
    assert_eq!(message_length(&[]), None);
    assert_eq!(message_length(&[0; 9]), None);
    assert_eq!(message_length(&[0, 0, 0, 0, 0, 0, 0, 0, 1, 0]), Some(10));
    assert_eq!(message_length(&[0, 0, 0, 0, 0, 0, 0, 0, 1, 5, 9, 9]), Some(15));
    assert_eq!(message_length(&[0, 0, 0, 0, 0, 0, 0, 0, 1, 0x81]), None);
    assert_eq!(message_length(&[0, 0, 0, 0, 0, 0, 0, 0, 1, 0x81, 0x02]), Some(11 + 0x82));
    assert_eq!(message_length(&[0, 0, 0, 0, 0, 0, 0, 0, 1, 0xff, 0xff]), Some(11 + 0x3fff));
    let request = Envelope {
        request_id: 4,
        payload: ToServerPayload::GetChannel {
            device: vec![7; 200],
            room: vec![],
            channel: vec![],
        },
    };
    let mut bytes = Vec::new();
    request.serialize(&mut bytes).unwrap();
    assert_eq!(message_length(&bytes[..11]), Some(bytes.len()));
}

fn channel(room: &[u8], name: &str) -> ChannelDescriptor {
    ChannelDescriptor {
        flags: ChannelFlags(0),
        room: room.to_vec(),
        display_name: name.to_string(),
        value_type: ValueType::Boolean,
        channel_kind: ChannelKind::Other,
    }
}

fn device(id: &[u8], channels: Vec<ChannelDescriptor>) -> DeviceDescriptor {
    DeviceDescriptor {
        id: id.to_vec(),
        display_name: String::from_utf8_lossy(id).to_string(),
        wiki_url: String::new(),
        channels,
    }
}

fn building() -> Vec<DeviceDescriptor> {
    vec![
        device(b"lamp", vec![channel(b"living", "a"), channel(b"hall", "b"), channel(b"living", "c")]),
        device(b"bare", vec![]),
        device(b"plug", vec![channel(b"hall", "d")]),
    ]
}

#[test]
fn without_filters_every_device_with_channels_is_shown() {
    assert_eq!(
        filter_devices(&building(), None, None),
        vec![building().remove(0), building().remove(2)]
    );
}

#[test]
fn filters_keep_the_channels_of_the_device_and_the_room() {
    assert_eq!(
        filter_devices(&building(), None, Some(b"living")),
        vec![device(b"lamp", vec![channel(b"living", "a"), channel(b"living", "c")])]
    );
    assert_eq!(
        filter_devices(&building(), None, Some(b"hall")),
        vec![
            device(b"lamp", vec![channel(b"hall", "b")]),
            device(b"plug", vec![channel(b"hall", "d")]),
        ]
    );
    assert_eq!(filter_devices(&building(), Some(b"plug"), None), vec![building().remove(2)]);
    assert_eq!(filter_devices(&building(), Some(b"plug"), Some(b"living")), vec![]);
    assert_eq!(filter_devices(&building(), Some(b"bare"), None), vec![]);
    assert_eq!(filter_devices(&vec![], None, None), vec![]);
}
