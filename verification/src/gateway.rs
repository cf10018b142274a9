//! Envelopes as frames of the gateway: how what travels on the reactor is
//! carried over a connection that speaks the gateway's framing.

use vstd::prelude::*;
use vstd::string::StringSliceAdditionalSpecFns;
use vstd::utf8::{decode_utf8, encode_utf8, valid_utf8};
use crate::can::{
    can_id_from_tuple, can_id_to_tuple, pack_id, packing_is_a_bijection, unpack_dest, unpack_src,
    CanPacket, CanPacketView, Message, MessageView, MAX_PAYLOAD,
};
use crate::driver::text_bytes;
use crate::encap::le_u32;
use crate::proto::helper::string_from_utf8;
use crate::legacy::{CanTCPPacket, Rs232CanCmd, MAX_PAYLOAD_LENGTH};

verus! {

/// The four bytes of a number, the least significant first.
pub open spec fn u32_le_bytes(n: u32) -> Seq<u8> {
    seq![n as u8, (n >> 8) as u8, (n >> 16) as u8, (n >> 24) as u8]
}

/// The payload that carries a frame: its identifier, the number of its
/// bytes, and the bytes.
pub open spec fn frame_payload(frame: CanPacketView) -> Seq<u8> {
    u32_le_bytes(pack_id(frame.src, frame.dest)) + seq![frame.payload.len() as u8] + frame.payload
}

/// The frame of the gateway that carries an envelope, where there is one:
/// a frame of the bus with up to eight bytes, a text of up to eighteen
/// bytes, an unknown message with the code of a command and up to eighteen
/// bytes.
pub open spec fn carried_by(msg: MessageView) -> Option<(Rs232CanCmd, Seq<u8>)> {
    match msg {
        MessageView::Frame(frame) => if frame.payload.len() <= MAX_PAYLOAD {
            Some((Rs232CanCmd::Pkt, frame_payload(frame)))
        } else {
            None
        },
        MessageView::Ping => Some((Rs232CanCmd::PingGateway, Seq::empty())),
        MessageView::Resync => Some((Rs232CanCmd::Resync, Seq::empty())),
        MessageView::Reset { cause } => Some((Rs232CanCmd::NotifyReset, seq![cause])),
        MessageView::VersionRequest => Some((Rs232CanCmd::Version, Seq::empty())),
        MessageView::VersionReply { major, minor } => Some(
            (Rs232CanCmd::Version, seq![major, minor]),
        ),
        MessageView::FirmwareIdRequest => Some((Rs232CanCmd::IDString, Seq::empty())),
        MessageView::FirmwareIdResponse(text) => if encode_utf8(text).len() <= MAX_PAYLOAD_LENGTH {
            Some((Rs232CanCmd::IDString, encode_utf8(text)))
        } else {
            None
        },
        MessageView::Unknown { command, payload } => match Rs232CanCmd::named_by(command) {
            Some(cmd) => if payload.len() <= MAX_PAYLOAD_LENGTH {
                Some((cmd, payload))
            } else {
                None
            },
            None => None,
        },
    }
}

/// Whether a payload carries a frame of the bus: an identifier of up to
/// 29 bits, a number of up to eight, and that many bytes.
pub open spec fn carries_frame(data: Seq<u8>) -> bool {
    data.len() >= 5 && le_u32(data, 0) <= 0x1fff_ffff && data[4] <= MAX_PAYLOAD && data.len() == 5
        + data[4]
}

/// The envelope that a frame of the gateway carries. What is not the
/// carrier of a known envelope is unknown.
pub open spec fn envelope_of(cmd: Rs232CanCmd, data: Seq<u8>) -> MessageView {
    let unknown = MessageView::Unknown { command: cmd.code_of(), payload: data };
    match cmd {
        Rs232CanCmd::Pkt => if carries_frame(data) {
            MessageView::Frame(
                CanPacketView {
                    src: unpack_src(le_u32(data, 0)),
                    dest: unpack_dest(le_u32(data, 0)),
                    payload: data.skip(5),
                },
            )
        } else {
            unknown
        },
        Rs232CanCmd::PingGateway => if data.len() == 0 {
            MessageView::Ping
        } else {
            unknown
        },
        Rs232CanCmd::Resync => if data.len() == 0 {
            MessageView::Resync
        } else {
            unknown
        },
        Rs232CanCmd::NotifyReset => if data.len() == 1 {
            MessageView::Reset { cause: data[0] }
        } else {
            unknown
        },
        Rs232CanCmd::Version => if data.len() == 0 {
            MessageView::VersionRequest
        } else if data.len() == 2 {
            MessageView::VersionReply { major: data[0], minor: data[1] }
        } else {
            unknown
        },
        Rs232CanCmd::IDString => if data.len() == 0 {
            MessageView::FirmwareIdRequest
        } else if valid_utf8(data) {
            MessageView::FirmwareIdResponse(decode_utf8(data))
        } else {
            unknown
        },
        _ => unknown,
    }
}

/// The frame of the gateway that carries an envelope, where there is one.
pub fn to_packet(msg: &Message) -> (r: Option<CanTCPPacket>)
    ensures
        match carried_by(msg@) {
            Some((cmd, data)) => r matches Some(p) && p.cmd == cmd && p.data@ == data,
            None => r is None,
        },
{
    match msg {
        Message::Frame(frame) => {
            if frame.payload.len() > MAX_PAYLOAD {
                return None;
            }
            let id: u32 = can_id_from_tuple(frame.src, frame.dest);
            let mut data: Vec<u8> = Vec::new();
            data.push(id as u8);
            data.push((id >> 8) as u8);
            data.push((id >> 16) as u8);
            data.push((id >> 24) as u8);
            data.push(frame.payload.len() as u8);
            data.extend_from_slice(frame.payload.as_slice());
            assert(data@ == frame_payload(frame@));
            Some(CanTCPPacket { cmd: Rs232CanCmd::Pkt, data })
        },
        Message::Ping => Some(CanTCPPacket { cmd: Rs232CanCmd::PingGateway, data: Vec::new() }),
        Message::Resync => Some(CanTCPPacket { cmd: Rs232CanCmd::Resync, data: Vec::new() }),
        Message::Reset { cause } => {
            let mut data: Vec<u8> = Vec::new();
            data.push(*cause);
            Some(CanTCPPacket { cmd: Rs232CanCmd::NotifyReset, data })
        },
        Message::VersionRequest => Some(
            CanTCPPacket { cmd: Rs232CanCmd::Version, data: Vec::new() },
        ),
        Message::VersionReply { major, minor } => {
            let mut data: Vec<u8> = Vec::new();
            data.push(*major);
            data.push(*minor);
            Some(CanTCPPacket { cmd: Rs232CanCmd::Version, data })
        },
        Message::FirmwareIdRequest => Some(
            CanTCPPacket { cmd: Rs232CanCmd::IDString, data: Vec::new() },
        ),
        Message::FirmwareIdResponse(text) => {
            let data = text_bytes(text);
            if data.len() <= MAX_PAYLOAD_LENGTH {
                Some(CanTCPPacket { cmd: Rs232CanCmd::IDString, data })
            } else {
                None
            }
        },
        Message::Unknown { command, payload } => match Rs232CanCmd::try_from(*command) {
            Ok(cmd) => {
                if payload.len() <= MAX_PAYLOAD_LENGTH {
                    Some(CanTCPPacket { cmd, data: payload.clone() })
                } else {
                    None
                }
            },
            Err(_) => None,
        },
    }
}

/// The frame of the bus that a payload carries, if it carries one.
fn frame_of(data: &Vec<u8>) -> (r: Option<Message>)
    ensures
        match r {
            Some(m) => carries_frame(data@) && m@ == MessageView::Frame(
                CanPacketView {
                    src: unpack_src(le_u32(data@, 0)),
                    dest: unpack_dest(le_u32(data@, 0)),
                    payload: data@.skip(5),
                },
            ),
            None => !carries_frame(data@),
        },
{
    if data.len() < 5 {
        return None;
    }
    let id: u32 = (data[0] as u32) | ((data[1] as u32) << 8) | ((data[2] as u32) << 16) | ((
    data[3] as u32) << 24);
    let dlc: usize = data[4] as usize;
    if dlc > MAX_PAYLOAD || data.len() != 5 + dlc {
        return None;
    }
    let payload = vstd::slice::slice_to_vec(
        vstd::slice::slice_subrange(data.as_slice(), 5, data.len()),
    );
    assert(payload@ == data@.skip(5));
    match can_id_to_tuple(id) {
        Some((src, dest)) => Some(Message::Frame(CanPacket { src, dest, payload })),
        None => None,
    }
}

/// The envelope that a frame of the gateway carries.
pub fn from_packet(packet: CanTCPPacket) -> (r: Message)
    ensures
        r@ == envelope_of(packet.cmd, packet.data@),
{
    let CanTCPPacket { cmd, data } = packet;
    let known: Option<Message> = match cmd {
        Rs232CanCmd::Pkt => frame_of(&data),
        Rs232CanCmd::PingGateway => if data.len() == 0 {
            Some(Message::Ping)
        } else {
            None
        },
        Rs232CanCmd::Resync => if data.len() == 0 {
            Some(Message::Resync)
        } else {
            None
        },
        Rs232CanCmd::NotifyReset => if data.len() == 1 {
            Some(Message::Reset { cause: data[0] })
        } else {
            None
        },
        Rs232CanCmd::Version => if data.len() == 0 {
            Some(Message::VersionRequest)
        } else if data.len() == 2 {
            Some(Message::VersionReply { major: data[0], minor: data[1] })
        } else {
            None
        },
        Rs232CanCmd::IDString => if data.len() == 0 {
            Some(Message::FirmwareIdRequest)
        } else {
            match string_from_utf8(data.clone()) {
                Some(text) => Some(Message::FirmwareIdResponse(text)),
                None => None,
            }
        },
        _ => None,
    };
    match known {
        Some(msg) => msg,
        None => Message::Unknown { command: cmd.code(), payload: data },
    }
}

/// An envelope comes back from the frame that carries it, if it is a
/// frame of the bus with ports of six bits and up to eight bytes, a
/// control message, or a text that is not empty and has up to eighteen bytes.
pub proof fn envelope_round_trip(msg: MessageView)
    requires
        match msg {
            MessageView::Frame(frame) => frame.src.valid() && frame.dest.valid()
                && frame.payload.len() <= MAX_PAYLOAD,
            MessageView::FirmwareIdResponse(text) => 0 < encode_utf8(text).len()
                <= MAX_PAYLOAD_LENGTH,
            MessageView::Unknown { .. } => false,
            _ => true,
        },
    ensures
        carried_by(msg) matches Some((cmd, data)) && envelope_of(cmd, data) == msg,
{
    match msg {
        MessageView::Frame(frame) => {
            let id = pack_id(frame.src, frame.dest);
            let data = frame_payload(frame);
            packing_is_a_bijection(frame.src, frame.dest, id);
            assert(data[0] == id as u8 && data[1] == (id >> 8) as u8 && data[2] == (id >> 16) as u8
                && data[3] == (id >> 24) as u8);
            assert(((id as u8) as u32) | ((((id >> 8) as u8) as u32) << 8) | ((((id >> 16) as u8)
                as u32) << 16) | ((((id >> 24) as u8) as u32) << 24) == id) by (bit_vector);
            assert(id & 0xe010_0000 == 0 ==> id <= 0x1fff_ffff) by (bit_vector);
            assert(data.skip(5) == frame.payload);
        },
        MessageView::FirmwareIdResponse(text) => {
            vstd::utf8::encode_utf8_valid_utf8(text);
            vstd::utf8::encode_utf8_decode_utf8(text);
        },
        _ => {},
    }
}

} // verus!
