use bytes::BytesMut;
use cand::legacy::{CanTCPCodec, CanTCPPacket, CmdError, CodecError, Rs232CanCmd};
use cand::subscription::{and_buf, CANCommand, CANMessage, CANSubscription, CanCore, CoreAction};
use slotmap::DefaultKey;

const CODES: [(u8, Rs232CanCmd); 17] = [
    (0x00, Rs232CanCmd::Reset),
    (0x10, Rs232CanCmd::SetFilter),
    (0x11, Rs232CanCmd::Pkt),
    (0x12, Rs232CanCmd::SetMode),
    (0x13, Rs232CanCmd::Error),
    (0x14, Rs232CanCmd::NotifyReset),
    (0x15, Rs232CanCmd::PingGateway),
    (0x16, Rs232CanCmd::Resync),
    (0x17, Rs232CanCmd::Version),
    (0x18, Rs232CanCmd::IDString),
    (0x19, Rs232CanCmd::Packetcounters),
    (0x1a, Rs232CanCmd::Errorcounters),
    (0x1b, Rs232CanCmd::Powerdraw),
    (0x1c, Rs232CanCmd::ReadCtrlReg),
    (0x1d, Rs232CanCmd::WriteCtrlReg),
    (0x1e, Rs232CanCmd::GetResetCause),
    (0x1f, Rs232CanCmd::NotifyTXOvf),
];

#[test]
fn commands_have_seventeen_codes() {
    for (code, cmd) in CODES {
        assert_eq!(Rs232CanCmd::try_from(code), Ok(cmd));
        assert_eq!(cmd.code(), code);
    }
    let known: Vec<u8> = CODES.iter().map(|(code, _)| *code).collect();
    for value in 0..=255u8 {
        if !known.contains(&value) {
            assert_eq!(Rs232CanCmd::try_from(value), Err(CmdError));
        }
    }
}

#[test]
fn empty_buffer_holds_no_frame() {
    let mut buf = BytesMut::new();
    assert_eq!(CanTCPCodec.decode(&mut buf), Ok(None));
    assert!(buf.is_empty());
}

#[test]
fn frame_is_awaited_until_it_is_complete() {
    let mut buf = BytesMut::from(&[2u8][..]);
    assert_eq!(CanTCPCodec.decode(&mut buf), Ok(None));
    buf.extend_from_slice(&[0x11, 0xaa]);
    assert_eq!(CanTCPCodec.decode(&mut buf), Ok(None));
    assert_eq!(&buf[..], &[2, 0x11, 0xaa]);
    buf.extend_from_slice(&[0xbb, 0x00]);
    assert_eq!(
        CanTCPCodec.decode(&mut buf),
        Ok(Some(CanTCPPacket { cmd: Rs232CanCmd::Pkt, data: vec![0xaa, 0xbb] }))
    );
    assert_eq!(&buf[..], &[0x00]);
    assert_eq!(CanTCPCodec.decode(&mut buf), Ok(None));
}

#[test]
fn frame_without_payload_is_two_bytes() {
    let mut buf = BytesMut::from(&[0u8, 0x15, 0, 0x00][..]);
    assert_eq!(
        CanTCPCodec.decode(&mut buf),
        Ok(Some(CanTCPPacket { cmd: Rs232CanCmd::PingGateway, data: vec![] }))
    );
    assert_eq!(
        CanTCPCodec.decode(&mut buf),
        Ok(Some(CanTCPPacket { cmd: Rs232CanCmd::Reset, data: vec![] }))
    );
    assert!(buf.is_empty());
}

#[test]
fn length_above_eighteen_is_invalid_once_the_bytes_are_there() {
    let mut bytes = vec![19u8, 0x11];
    bytes.extend_from_slice(&[0; 18]);
    let mut buf = BytesMut::from(&bytes[..]);
    assert_eq!(CanTCPCodec.decode(&mut buf), Ok(None));
    buf.extend_from_slice(&[0]);
    assert_eq!(CanTCPCodec.decode(&mut buf), Err(CodecError::InvalidLength));
    assert_eq!(buf.len(), 21);
    let mut longest = vec![18u8, 0x11];
    longest.extend_from_slice(&[7; 18]);
    let mut buf = BytesMut::from(&longest[..]);
    assert_eq!(
        CanTCPCodec.decode(&mut buf),
        Ok(Some(CanTCPPacket { cmd: Rs232CanCmd::Pkt, data: vec![7; 18] }))
    );
}

#[test]
fn unknown_command_is_invalid_and_its_frame_is_taken() {
    let mut buf = BytesMut::from(&[1u8, 0x01, 0xaa, 0, 0x15][..]);
    assert_eq!(CanTCPCodec.decode(&mut buf), Err(CodecError::InvalidCommand));
    assert_eq!(&buf[..], &[0, 0x15]);
    assert_eq!(
        CanTCPCodec.decode(&mut buf),
        Ok(Some(CanTCPPacket { cmd: Rs232CanCmd::PingGateway, data: vec![] }))
    );
}

#[test]
fn packet_is_written_as_length_command_payload() {
    let mut buf = BytesMut::from(&[0xeeu8][..]);
    let packet = CanTCPPacket { cmd: Rs232CanCmd::Version, data: vec![1, 2, 3] };
    assert_eq!(CanTCPCodec.encode(packet, &mut buf), Ok(()));
    assert_eq!(&buf[..], &[0xee, 3, 0x17, 1, 2, 3]);
    let mut read = buf.split_off(1);
    assert_eq!(
        CanTCPCodec.decode(&mut read),
        Ok(Some(CanTCPPacket { cmd: Rs232CanCmd::Version, data: vec![1, 2, 3] }))
    );
}

#[test]
fn packet_with_too_much_payload_is_not_written() {
    let mut buf = BytesMut::new();
    let packet = CanTCPPacket { cmd: Rs232CanCmd::Pkt, data: vec![0; 19] };
    assert_eq!(CanTCPCodec.encode(packet, &mut buf), Err(CodecError::InvalidLength));
    assert!(buf.is_empty());
    assert_eq!(CanTCPPacket { cmd: Rs232CanCmd::Pkt, data: vec![0; 4] }.data_len(), 4);
}

#[test]
fn masks_are_applied_byte_for_byte() {
    assert_eq!(
        and_buf(&[0xff, 0x0f, 0xaa, 1, 2, 3, 4, 5], &[0x0f, 0xff, 0x55, 0, 0xff, 1, 4, 0xfa]),
        [0x0f, 0x0f, 0x00, 0, 2, 1, 4, 0]
    );
}

#[test]
fn fresh_subscription_admits_messages_of_up_to_eight_bytes() {
    let any = CANSubscription::build().build();
    assert!(any.matches(&CANMessage::new(0x123, [1; 8], 8)));
    assert!(any.matches(&CANMessage::new(0, [0; 8], 0)));
    assert!(!any.matches(&CANMessage::new(0, [0; 8], 9)));
}

#[test]
fn subscription_matches_identifier_payload_and_length() {
    let subscription = CANSubscription::build()
        .match_id(0x7f3, 0x0f0)
        .match_payload([0xab, 0xff, 0, 0, 0, 0, 0, 0], [0xf0, 0, 0, 0, 0, 0, 0, 0])
        .max_len(4)
        .min_len(2)
        .build();
    let message = |id: u16, first: u8, len: usize| CANMessage::new(id, [first, 9, 9, 9, 9, 9, 9, 9], len);
    assert!(subscription.matches(&message(0x0f0, 0xa0, 2)));
    assert!(subscription.matches(&message(0x7ff, 0xaf, 4)));
    assert!(!subscription.matches(&message(0x0e0, 0xa0, 2)));
    assert!(!subscription.matches(&message(0x0f0, 0xb0, 2)));
    assert!(!subscription.matches(&message(0x0f0, 0xa0, 1)));
    assert!(!subscription.matches(&message(0x0f0, 0xa0, 5)));
}

fn subscribed(core: &mut CanCore, subscription: CANSubscription) -> DefaultKey {
    match core.handle(CANCommand::Subscribe { subscription }) {
        CoreAction::Subscribed { key } => key,
        other => panic!("not subscribed: {:?}", other),
    }
}

#[test]
fn core_hands_a_message_to_those_who_want_it() {
    let mut core = CanCore::new();
    let all = subscribed(&mut core, CANSubscription::build().build());
    let odd = subscribed(&mut core, CANSubscription::build().match_id(1, 1).build());
    let even = subscribed(&mut core, CANSubscription::build().match_id(0, 1).build());
    let message = CANMessage::new(0x101, [0; 8], 1);
    match core.handle(CANCommand::ReceiveMessage { message }) {
        CoreAction::Deliver { message: handed, mut subscribers } => {
            assert_eq!(handed, message);
            subscribers.sort();
            let mut expected = vec![all, odd];
            expected.sort();
            assert_eq!(subscribers, expected);
        }
        other => panic!("not delivered: {:?}", other),
    }
    assert!(core.unsubscribe(all));
    assert!(!core.unsubscribe(all));
    assert_eq!(core.wanted_by(&CANMessage::new(0x100, [0; 8], 1)), vec![even]);
    assert_eq!(core.wanted_by(&CANMessage::new(0x100, [0; 8], 9)), vec![]);
    assert_eq!(
        core.handle(CANCommand::SendMessage { message }),
        CoreAction::Transmit { message }
    );
}
