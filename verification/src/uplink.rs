//! The uplink to the bus: how envelopes of the reactor become frames on
//! the bus, which of them the uplink answers itself, and how frames of the
//! bus become envelopes.

use vstd::prelude::*;
use crate::can::{
    can_id_from_tuple, can_id_to_tuple, pack_id, unpack_dest, unpack_src, CanPacket,
    CanPacketView, Message, MessageView, MAX_PAYLOAD,
};

verus! {

/// The major and the minor number of the version that a text names, where
/// it names a version.
pub uninterp spec fn version_numbers(text: Seq<char>) -> Option<(u64, u64)>;

/// `semver::Version::parse`: the major and the minor number of the version
/// that the text names, or nothing where the text names no version. What
/// it finds depends on the text alone.
#[verifier::external_body]
fn parse_version(text: &str) -> (r: Option<(u64, u64)>)
    ensures
        r == version_numbers(text@),
{
    match semver::Version::parse(text) {
        Ok(version) => Some((version.major, version.minor)),
        Err(_) => None,
    }
}

/// What the daemon says of itself when a gateway asks.
#[derive(Debug, PartialEq, Eq)]
pub struct Identity {
    pub major: u8,
    pub minor: u8,
    pub name: String,
}

impl Identity {
    /// The low eight bits of a number.
    pub open spec fn low_byte(n: u64) -> u8 {
        (n % 256) as u8
    }

    /// The identity of a daemon with the name and the numbers of its
    /// version, of each number the low eight bits; none without numbers.
    pub fn of_numbers(numbers: Option<(u64, u64)>, name: String) -> (r: Option<Identity>)
        ensures
            match numbers {
                Some((major, minor)) => r matches Some(id) && id.major == Identity::low_byte(major)
                    && id.minor == Identity::low_byte(minor) && id.name == name,
                None => r is None,
            },
    {
        match numbers {
            Some((major, minor)) => Some(
                Identity { major: (major % 256) as u8, minor: (minor % 256) as u8, name },
            ),
            None => None,
        }
    }

    /// The identity of a daemon with the name and the version that the
    /// text names; none where the text names no version.
    pub fn from_version(version: &str, name: String) -> (r: Option<Identity>)
        ensures
            match version_numbers(version@) {
                Some((major, minor)) => r matches Some(id) && id.major == Identity::low_byte(major)
                    && id.minor == Identity::low_byte(minor) && id.name == name,
                None => r is None,
            },
    {
        Identity::of_numbers(parse_version(version), name)
    }
}

/// What the uplink does with an envelope of the reactor.
#[derive(Debug, PartialEq, Eq)]
pub enum UplinkAction {
    /// A frame with this identifier and payload is to be written to the bus.
    Transmit { id: u32, payload: Vec<u8> },
    /// The envelope is to be handed back to the reactor as the uplink's own.
    Reply(Message),
    /// The frame has more bytes than the bus takes: the uplink fails.
    Oversized,
    /// The envelope is one that only a gateway sends: nothing is to be done.
    Nothing,
}

/// What an action holds.
pub enum UplinkActionView {
    Transmit { id: u32, payload: Seq<u8> },
    Reply(MessageView),
    Oversized,
    Nothing,
}

impl View for UplinkAction {
    type V = UplinkActionView;

    open spec fn view(&self) -> UplinkActionView {
        match self {
            UplinkAction::Transmit { id, payload } => UplinkActionView::Transmit {
                id: *id,
                payload: payload@,
            },
            UplinkAction::Reply(m) => UplinkActionView::Reply(m@),
            UplinkAction::Oversized => UplinkActionView::Oversized,
            UplinkAction::Nothing => UplinkActionView::Nothing,
        }
    }
}

/// What the uplink does with an envelope: a frame goes to the bus under
/// the identifier of its endpoints; a ping, a question for the version and
/// a question for the firmware are answered; the rest is left.
pub open spec fn outgoing_action(msg: MessageView, major: u8, minor: u8, name: Seq<char>)
    -> UplinkActionView {
    match msg {
        MessageView::Frame(frame) => if frame.payload.len() <= MAX_PAYLOAD {
            UplinkActionView::Transmit { id: pack_id(frame.src, frame.dest), payload: frame.payload }
        } else {
            UplinkActionView::Oversized
        },
        MessageView::Ping => UplinkActionView::Reply(MessageView::Ping),
        MessageView::VersionRequest => UplinkActionView::Reply(
            MessageView::VersionReply { major, minor },
        ),
        MessageView::FirmwareIdRequest => UplinkActionView::Reply(
            MessageView::FirmwareIdResponse(name),
        ),
        _ => UplinkActionView::Nothing,
    }
}

/// What the uplink does with an envelope of the reactor.
pub fn outgoing(msg: Message, identity: &Identity) -> (r: UplinkAction)
    ensures
        r@ == outgoing_action(msg@, identity.major, identity.minor, identity.name@),
{
    match msg {
        Message::Frame(frame) => {
            if frame.payload.len() <= MAX_PAYLOAD {
                UplinkAction::Transmit {
                    id: can_id_from_tuple(frame.src, frame.dest),
                    payload: frame.payload,
                }
            } else {
                UplinkAction::Oversized
            }
        },
        Message::Ping => UplinkAction::Reply(Message::Ping),
        Message::VersionRequest => UplinkAction::Reply(
            Message::VersionReply { major: identity.major, minor: identity.minor },
        ),
        Message::FirmwareIdRequest => UplinkAction::Reply(
            Message::FirmwareIdResponse(identity.name.clone()),
        ),
        Message::Reset { .. } => UplinkAction::Nothing,
        Message::Resync => UplinkAction::Nothing,
        Message::VersionReply { .. } => UplinkAction::Nothing,
        Message::FirmwareIdResponse(_) => UplinkAction::Nothing,
        Message::Unknown { .. } => UplinkAction::Nothing,
    }
}

/// The envelope of a frame of the bus, if its identifier has no more than
/// 29 bits and it has no more than eight bytes.
pub fn incoming(id: u32, data: Vec<u8>) -> (r: Option<Message>)
    ensures
        match r {
            Some(m) => id <= 0x1fff_ffff && data@.len() <= MAX_PAYLOAD && m@ == MessageView::Frame(
                CanPacketView { src: unpack_src(id), dest: unpack_dest(id), payload: data@ },
            ),
            None => id > 0x1fff_ffff || data@.len() > MAX_PAYLOAD,
        },
{
    match can_id_to_tuple(id) {
        Some((src, dest)) => match CanPacket::new(src, dest, data) {
            Some(packet) => Some(Message::Frame(packet)),
            None => None,
        },
        None => None,
    }
}

} // verus!
