//! The framing of the legacy serial gateway over TCP: `len | cmd | payload`.

use vstd::prelude::*;
use bytes::{BufMut, BytesMut};

verus! {

/// A byte that names no command.
#[derive(Debug, Clone, Copy, PartialEq, Eq, Structural)]
pub struct CmdError;

/// The commands of the gateway.
#[derive(Debug, Clone, Copy, PartialEq, Eq, Structural)]
pub enum Rs232CanCmd {
    Reset,
    SetFilter,
    Pkt,
    SetMode,
    Error,
    NotifyReset,
    PingGateway,
    Resync,
    Version,
    IDString,
    Packetcounters,
    Errorcounters,
    Powerdraw,
    ReadCtrlReg,
    WriteCtrlReg,
    GetResetCause,
    NotifyTXOvf,
}

impl Rs232CanCmd {
    /// The byte that names the command.
    pub open spec fn code_of(self) -> u8 {
        match self {
            Rs232CanCmd::Reset => 0x00,
            Rs232CanCmd::SetFilter => 0x10,
            Rs232CanCmd::Pkt => 0x11,
            Rs232CanCmd::SetMode => 0x12,
            Rs232CanCmd::Error => 0x13,
            Rs232CanCmd::NotifyReset => 0x14,
            Rs232CanCmd::PingGateway => 0x15,
            Rs232CanCmd::Resync => 0x16,
            Rs232CanCmd::Version => 0x17,
            Rs232CanCmd::IDString => 0x18,
            Rs232CanCmd::Packetcounters => 0x19,
            Rs232CanCmd::Errorcounters => 0x1a,
            Rs232CanCmd::Powerdraw => 0x1b,
            Rs232CanCmd::ReadCtrlReg => 0x1c,
            Rs232CanCmd::WriteCtrlReg => 0x1d,
            Rs232CanCmd::GetResetCause => 0x1e,
            Rs232CanCmd::NotifyTXOvf => 0x1f,
        }
    }

    /// The command that a byte names, if it names one.
    pub open spec fn named_by(value: u8) -> Option<Rs232CanCmd> {
        if value == 0x00 {
            Some(Rs232CanCmd::Reset)
        } else if value == 0x10 {
            Some(Rs232CanCmd::SetFilter)
        } else if value == 0x11 {
            Some(Rs232CanCmd::Pkt)
        } else if value == 0x12 {
            Some(Rs232CanCmd::SetMode)
        } else if value == 0x13 {
            Some(Rs232CanCmd::Error)
        } else if value == 0x14 {
            Some(Rs232CanCmd::NotifyReset)
        } else if value == 0x15 {
            Some(Rs232CanCmd::PingGateway)
        } else if value == 0x16 {
            Some(Rs232CanCmd::Resync)
        } else if value == 0x17 {
            Some(Rs232CanCmd::Version)
        } else if value == 0x18 {
            Some(Rs232CanCmd::IDString)
        } else if value == 0x19 {
            Some(Rs232CanCmd::Packetcounters)
        } else if value == 0x1a {
            Some(Rs232CanCmd::Errorcounters)
        } else if value == 0x1b {
            Some(Rs232CanCmd::Powerdraw)
        } else if value == 0x1c {
            Some(Rs232CanCmd::ReadCtrlReg)
        } else if value == 0x1d {
            Some(Rs232CanCmd::WriteCtrlReg)
        } else if value == 0x1e {
            Some(Rs232CanCmd::GetResetCause)
        } else if value == 0x1f {
            Some(Rs232CanCmd::NotifyTXOvf)
        } else {
            None
        }
    }

    /// The byte that names the command.
    pub fn code(self) -> (c: u8)
        ensures
            c == self.code_of(),
    {
        match self {
            Rs232CanCmd::Reset => 0x00,
            Rs232CanCmd::SetFilter => 0x10,
            Rs232CanCmd::Pkt => 0x11,
            Rs232CanCmd::SetMode => 0x12,
            Rs232CanCmd::Error => 0x13,
            Rs232CanCmd::NotifyReset => 0x14,
            Rs232CanCmd::PingGateway => 0x15,
            Rs232CanCmd::Resync => 0x16,
            Rs232CanCmd::Version => 0x17,
            Rs232CanCmd::IDString => 0x18,
            Rs232CanCmd::Packetcounters => 0x19,
            Rs232CanCmd::Errorcounters => 0x1a,
            Rs232CanCmd::Powerdraw => 0x1b,
            Rs232CanCmd::ReadCtrlReg => 0x1c,
            Rs232CanCmd::WriteCtrlReg => 0x1d,
            Rs232CanCmd::GetResetCause => 0x1e,
            Rs232CanCmd::NotifyTXOvf => 0x1f,
        }
    }
}

impl TryFrom<u8> for Rs232CanCmd {
    type Error = CmdError;

    /// The command that a byte names.
    fn try_from(value: u8) -> (r: Result<Rs232CanCmd, CmdError>)
        ensures
            match Rs232CanCmd::named_by(value) {
                Some(cmd) => r == Ok::<Rs232CanCmd, CmdError>(cmd),
                None => r is Err,
            },
    {
        let cmd = match value {
            0x00 => Rs232CanCmd::Reset,
            0x10 => Rs232CanCmd::SetFilter,
            0x11 => Rs232CanCmd::Pkt,
            0x12 => Rs232CanCmd::SetMode,
            0x13 => Rs232CanCmd::Error,
            0x14 => Rs232CanCmd::NotifyReset,
            0x15 => Rs232CanCmd::PingGateway,
            0x16 => Rs232CanCmd::Resync,
            0x17 => Rs232CanCmd::Version,
            0x18 => Rs232CanCmd::IDString,
            0x19 => Rs232CanCmd::Packetcounters,
            0x1A => Rs232CanCmd::Errorcounters,
            0x1B => Rs232CanCmd::Powerdraw,
            0x1C => Rs232CanCmd::ReadCtrlReg,
            0x1D => Rs232CanCmd::WriteCtrlReg,
            0x1E => Rs232CanCmd::GetResetCause,
            0x1F => Rs232CanCmd::NotifyTXOvf,
            _ => {
                return Err(CmdError);
            },
        };
        Ok(cmd)
    }
}

impl vstd::std_specs::convert::TryFromSpecImpl<u8> for Rs232CanCmd {
    open spec fn obeys_try_from_spec() -> bool {
        true
    }

    open spec fn try_from_spec(value: u8) -> Result<Rs232CanCmd, CmdError> {
        match Rs232CanCmd::named_by(value) {
            Some(cmd) => Ok(cmd),
            None => Err(CmdError),
        }
    }
}

/// Each command is named by one byte, and is the command that its byte names.
pub proof fn commands_and_codes(cmd: Rs232CanCmd, value: u8)
    ensures
        Rs232CanCmd::named_by(cmd.code_of()) == Some(cmd),
        Rs232CanCmd::named_by(value) matches Some(c) ==> c.code_of() == value,
{
}

/// The bytes before the payload of a frame: the length and the command.
pub const HEADER_LENGTH: usize = 2;

/// The greatest number of payload bytes in a frame.
pub const MAX_PAYLOAD_LENGTH: usize = 18;

/// Why bytes are no frame, or a packet has none.
#[derive(Debug, Clone, Copy, PartialEq, Eq, Structural)]
pub enum CodecError {
    /// The length is above the greatest.
    InvalidLength,
    /// The byte of the command names none.
    InvalidCommand,
    /// The buffer cannot grow by a frame.
    BufferFull,
}

/// A frame of the gateway: a command and its payload.
#[derive(Debug, PartialEq, Eq)]
pub struct CanTCPPacket {
    pub cmd: Rs232CanCmd,
    pub data: Vec<u8>,
}

impl CanTCPPacket {
    /// The number of payload bytes.
    pub fn data_len(self) -> (n: usize)
        ensures
            n == self.data@.len(),
    {
        self.data.len()
    }
}

/// A buffer of bytes that grows at its end and is taken from at its front.
#[verifier::external_type_specification]
#[verifier::external_body]
pub struct ExBytesMut(BytesMut);

/// The bytes that a buffer holds.
pub uninterp spec fn held(buf: BytesMut) -> Seq<u8>;

/// `BytesMut::len`: the number of bytes in the buffer.
#[verifier::external_body]
fn buf_len(buf: &BytesMut) -> (n: usize)
    ensures
        n == held(*buf).len(),
{
    buf.len()
}

/// Indexing a `BytesMut`: the byte at a place in the buffer. It panics
/// on a place beyond the end.
#[verifier::external_body]
fn buf_get(buf: &BytesMut, at: usize) -> (b: u8)
    requires
        at < held(*buf).len(),
    ensures
        b == held(*buf)[at as int],
{
    buf[at]
}

/// `BytesMut::split_to`: the first `at` bytes leave the buffer and are
/// returned. It panics where the buffer holds fewer.
#[verifier::external_body]
fn buf_split_to(buf: &mut BytesMut, at: usize) -> (front: BytesMut)
    requires
        at <= held(*old(buf)).len(),
    ensures
        held(front) == held(*old(buf)).take(at as int),
        held(*final(buf)) == held(*old(buf)).skip(at as int),
{
    buf.split_to(at)
}

/// `to_vec` on a range of a `BytesMut`: a copy of the bytes of the range.
/// It panics on a range that is not within the buffer.
#[verifier::external_body]
fn buf_copy(buf: &BytesMut, from: usize, to: usize) -> (bytes: Vec<u8>)
    requires
        from <= to <= held(*buf).len(),
    ensures
        bytes@ == held(*buf).subrange(from as int, to as int),
{
    buf[from..to].to_vec()
}

/// `BytesMut::reserve`: room is made for more bytes; what the buffer holds
/// stays. It panics where the new size would not fit a `usize`.
#[verifier::external_body]
fn buf_reserve(buf: &mut BytesMut, additional: usize)
    requires
        held(*old(buf)).len() + additional <= usize::MAX,
    ensures
        held(*final(buf)) == held(*old(buf)),
{
    buf.reserve(additional)
}

/// `BufMut::put_u8` on a `BytesMut`: the byte is appended. It panics
/// where the new size would not fit a `usize`.
#[verifier::external_body]
fn buf_put_u8(buf: &mut BytesMut, b: u8)
    requires
        held(*old(buf)).len() + 1 <= usize::MAX,
    ensures
        held(*final(buf)) == held(*old(buf)).push(b),
{
    buf.put_u8(b)
}

/// `BufMut::put_slice` on a `BytesMut`: the bytes are appended. It panics
/// where the new size would not fit a `usize`.
#[verifier::external_body]
fn buf_put_slice(buf: &mut BytesMut, bytes: &[u8])
    requires
        held(*old(buf)).len() + bytes@.len() <= usize::MAX,
    ensures
        held(*final(buf)) == held(*old(buf)) + bytes@,
{
    buf.put_slice(bytes)
}

/// The bytes of a frame: the length of the payload, the byte of the
/// command, the payload.
pub open spec fn frame_bytes(cmd: Rs232CanCmd, data: Seq<u8>) -> Seq<u8> {
    seq![data.len() as u8, cmd.code_of()] + data
}

/// What the front of a buffer holds.
pub enum Framing {
    /// More bytes are needed before anything can be said.
    Incomplete,
    /// A frame of this command and payload.
    Frame(Rs232CanCmd, Seq<u8>),
    /// Bytes with a length above the greatest.
    BadLength,
    /// A frame whose command byte names no command.
    BadCommand,
}

/// What the front of the bytes `s` holds.
pub open spec fn framing(s: Seq<u8>) -> Framing {
    if s.len() == 0 || s.len() < s[0] + HEADER_LENGTH {
        Framing::Incomplete
    } else if s[0] > MAX_PAYLOAD_LENGTH {
        Framing::BadLength
    } else {
        match Rs232CanCmd::named_by(s[1]) {
            Some(cmd) => Framing::Frame(cmd, s.subrange(HEADER_LENGTH as int, HEADER_LENGTH + s[0])),
            None => Framing::BadCommand,
        }
    }
}

/// The codec of the gateway's frames.
pub struct CanTCPCodec;

impl CanTCPCodec {
    /// Takes a frame from the front of the buffer, if the buffer holds one.
    ///
    /// While the frame is not complete nothing is taken and nothing is
    /// returned. A length above the greatest is an error, and nothing is
    /// taken. A complete frame is taken from the buffer; it is returned as
    /// a packet, or, where its command byte names no command, as an error.
    pub fn decode(&mut self, src: &mut BytesMut) -> (r: Result<Option<CanTCPPacket>, CodecError>)
        ensures
            match framing(held(*old(src))) {
                Framing::Incomplete => r matches Ok(None) && held(*final(src)) == held(*old(src)),
                Framing::BadLength => r == Err::<Option<CanTCPPacket>, CodecError>(
                    CodecError::InvalidLength,
                ) && held(*final(src)) == held(*old(src)),
                Framing::BadCommand => r == Err::<Option<CanTCPPacket>, CodecError>(
                    CodecError::InvalidCommand,
                ) && held(*final(src)) == held(*old(src)).skip(
                    HEADER_LENGTH + held(*old(src))[0],
                ),
                Framing::Frame(cmd, data) => r matches Ok(Some(p)) && p.cmd == cmd && p.data@
                    == data && held(*final(src)) == held(*old(src)).skip(
                    HEADER_LENGTH + held(*old(src))[0],
                ),
            },
    {
        if buf_len(src) == 0 {
            return Ok(None);
        }
        let payload_length: usize = buf_get(src, 0) as usize;
        if buf_len(src) < payload_length + HEADER_LENGTH {
            return Ok(None);
        }
        if payload_length <= MAX_PAYLOAD_LENGTH {
            let packet_data = buf_split_to(src, HEADER_LENGTH + payload_length);
            let data = buf_copy(&packet_data, HEADER_LENGTH, HEADER_LENGTH + payload_length);
            let cmd = match Rs232CanCmd::try_from(buf_get(&packet_data, 1)) {
                Ok(cmd) => cmd,
                Err(_) => {
                    return Err(CodecError::InvalidCommand);
                },
            };
            proof {
                let s = held(*old(src));
                assert(data@ == s.subrange(HEADER_LENGTH as int, HEADER_LENGTH + s[0]));
            }
            Ok(Some(CanTCPPacket { cmd, data }))
        } else {
            Err(CodecError::InvalidLength)
        }
    }

    /// Appends the frame of a packet to the buffer. A packet with more
    /// payload than a frame takes has no frame, and a buffer at the limit
    /// of its size takes none: nothing is appended then.
    pub fn encode(&mut self, item: CanTCPPacket, dst: &mut BytesMut) -> (r: Result<(), CodecError>)
        ensures
            encoded(held(*old(dst)), item.cmd, item.data@, held(*final(dst)), r),
    {
        if item.data.len() > MAX_PAYLOAD_LENGTH {
            return Err(CodecError::InvalidLength);
        }
        if buf_len(dst) > usize::MAX - HEADER_LENGTH - MAX_PAYLOAD_LENGTH {
            return Err(CodecError::BufferFull);
        }
        buf_reserve(dst, HEADER_LENGTH + item.data.len());
        buf_put_u8(dst, item.data.len() as u8);
        buf_put_u8(dst, item.cmd.code());
        buf_put_slice(dst, item.data.as_slice());
        assert(held(*final(dst)) == held(*old(dst)) + frame_bytes(item.cmd, item.data@));
        Ok(())
    }
}

/// What encoding a packet does to the buffer, and how it ends.
pub open spec fn encoded(
    before: Seq<u8>,
    cmd: Rs232CanCmd,
    data: Seq<u8>,
    after: Seq<u8>,
    r: Result<(), CodecError>,
) -> bool {
    if data.len() > MAX_PAYLOAD_LENGTH {
        r == Err::<(), CodecError>(CodecError::InvalidLength) && after == before
    } else if before.len() > usize::MAX - HEADER_LENGTH - MAX_PAYLOAD_LENGTH {
        r == Err::<(), CodecError>(CodecError::BufferFull) && after == before
    } else {
        r is Ok && after == before + frame_bytes(cmd, data)
    }
}

/// The frame of a packet is read back as the packet, whatever follows it.
pub proof fn frame_round_trip(cmd: Rs232CanCmd, data: Seq<u8>, rest: Seq<u8>)
    requires
        data.len() <= MAX_PAYLOAD_LENGTH,
    ensures
        framing(frame_bytes(cmd, data) + rest) == Framing::Frame(cmd, data),
{
    let s = frame_bytes(cmd, data) + rest;
    assert(s[0] == data.len() as u8);
    assert(s[1] == cmd.code_of());
    assert(s.subrange(HEADER_LENGTH as int, HEADER_LENGTH + s[0]) == data);
}

} // verus!
