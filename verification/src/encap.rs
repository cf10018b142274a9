//! CAN messages as the serial gateway carries them: with the endpoints
//! apart, and raw under one identifier.

use vstd::prelude::*;
use crate::can::{pack_id, unpack_dest, unpack_src, CanAddr};
use crate::legacy::Rs232CanCmd;

verus! {

/// The greatest number of bytes in a message of the gateway.
pub const RS232CAN_MAXLENGTH: usize = 20;

/// The bytes that a raw message takes in a message of the gateway: the
/// identifier, the length, and eight bytes of data.
pub const RAW_SIZE: u8 = 13;

/// A message under its identifier.
#[derive(Debug, Clone, Copy, PartialEq, Eq)]
pub struct CanMessageRaw {
    pub id: u32,
    pub dlc: u8,
    pub data: [u8; 8],
}

/// A message with its endpoints apart.
#[derive(Debug, Clone, Copy, PartialEq, Eq)]
pub struct CanMessage {
    pub addr_src: u8,
    pub addr_dst: u8,
    pub port_src: u8,
    pub port_dst: u8,
    pub dlc: u8,
    pub data: [u8; 8],
}

/// A message of the gateway.
#[derive(Debug, Clone, Copy, PartialEq, Eq)]
pub struct RS232CanMsg {
    pub cmd: Rs232CanCmd,
    pub len: u8,
    pub data: [u8; 20],
}

/// The first `n` bytes of `from`, then those of `rest`.
pub open spec fn overlaid(from: Seq<u8>, n: int, rest: Seq<u8>) -> Seq<u8> {
    Seq::new(8, |i: int| if i < n { from[i] } else { rest[i] })
}

/// Copies the first `n` bytes of `from` over those of `to`.
fn copy_front(to: &mut [u8; 8], from: &[u8; 8], n: u8)
    requires
        n <= 8,
    ensures
        final(to)@ == overlaid(from@, n as int, old(to)@),
{
    let mut i: usize = 0;
    while i < n as usize
        invariant
            i <= n <= 8,
            forall|j: int| 0 <= j < i ==> to@[j] == from@[j],
            forall|j: int| i <= j < 8 ==> to@[j] == old(to)@[j],
        decreases n - i,
    {
        to[i] = from[i];
        i = i + 1;
    }
    assert(to@ == overlaid(from@, n as int, old(to)@));
}

/// The raw message of a message: the identifier of its endpoints, its
/// length, and its data, with zeros after them.
pub fn can_message_raw_from_can_message(raw_msg: &mut CanMessageRaw, cmsg: &CanMessage)
    requires
        cmsg.dlc <= 8,
    ensures
        final(raw_msg).id == pack_id(
            CanAddr { addr: cmsg.addr_src, port: cmsg.port_src },
            CanAddr { addr: cmsg.addr_dst, port: cmsg.port_dst },
        ),
        final(raw_msg).dlc == cmsg.dlc,
        final(raw_msg).data@ == overlaid(cmsg.data@, cmsg.dlc as int, Seq::new(8, |i: int| 0u8)),
{
    let mut data = [0u8;8];
    assert(data@ == Seq::new(8, |i: int| 0u8));
    copy_front(&mut data, &cmsg.data, cmsg.dlc);
    raw_msg.id = (((cmsg.port_src & 0x3f) as u32) << 23) | (((cmsg.port_dst & 0x30) as u32) << 17)
        | (((cmsg.port_dst & 0x0f) as u32) << 16) | ((cmsg.addr_src as u32) << 8) | (
    cmsg.addr_dst as u32);
    raw_msg.dlc = cmsg.dlc;
    raw_msg.data = data;
}

/// The message of a raw message: the endpoints of its identifier, its
/// length, and its data. What the message held after the data stays.
pub fn can_message_from_can_message_raw(cmsg: &mut CanMessage, rmsg: &CanMessageRaw)
    requires
        rmsg.dlc <= 8,
    ensures
        final(cmsg).addr_src == unpack_src(rmsg.id).addr,
        final(cmsg).port_src == unpack_src(rmsg.id).port,
        final(cmsg).addr_dst == unpack_dest(rmsg.id).addr,
        final(cmsg).port_dst == unpack_dest(rmsg.id).port,
        final(cmsg).dlc == rmsg.dlc,
        final(cmsg).data@ == overlaid(rmsg.data@, rmsg.dlc as int, old(cmsg).data@),
{
    let id: u32 = rmsg.id;
    assert(((id >> 8) & 0xff) <= 0xff && ((id >> 23) & 0x3f) <= 0x3f && (id & 0xff) <= 0xff && (((id
        >> 16) & 0x0f) | ((id >> 17) & 0x30)) <= 0x3f) by (bit_vector);
    cmsg.addr_src = ((id >> 8) & 0xff) as u8;
    cmsg.addr_dst = (id & 0xff) as u8;
    cmsg.port_src = ((id >> 23) & 0x3f) as u8;
    cmsg.port_dst = (((id >> 16) & 0x0f) | ((id >> 17) & 0x30)) as u8;
    cmsg.dlc = rmsg.dlc;
    let mut data = cmsg.data;
    copy_front(&mut data, &rmsg.data, rmsg.dlc);
    cmsg.data = data;
}

/// Makes a message of the gateway the carrier of a raw message: it
/// becomes a packet of the raw message's size, less the data bytes that the
/// raw message does not use. Its data stays.
pub fn rs232can_msg_from_can_message_raw(rmsg: &mut RS232CanMsg, cmsg: &CanMessageRaw)
    requires
        cmsg.dlc <= 8,
    ensures
        final(rmsg).cmd == Rs232CanCmd::Pkt,
        final(rmsg).len == RAW_SIZE + cmsg.dlc - 8,
        final(rmsg).data == old(rmsg).data,
{
    rmsg.cmd = Rs232CanCmd::Pkt;
    rmsg.len = RAW_SIZE + cmsg.dlc - 8;
}

/// The number whose little-endian bytes are the four of `s` from `at` on.
pub open spec fn le_u32(s: Seq<u8>, at: int) -> u32 {
    (s[at] as u32) | ((s[at + 1] as u32) << 8) | ((s[at + 2] as u32) << 16) | ((s[at + 3] as u32)
        << 24)
}

/// The raw message that a message of the gateway carries in its data: the
/// identifier in four bytes, the least significant first, the length, and
/// eight bytes of data.
pub fn can_message_raw_from_rs232can_msg(cmsg: &mut CanMessageRaw, rmsg: &RS232CanMsg)
    ensures
        final(cmsg).id == le_u32(rmsg.data@, 0),
        final(cmsg).dlc == rmsg.data@[4],
        final(cmsg).data@ == rmsg.data@.subrange(5, 13),
{
    let d = &rmsg.data;
    cmsg.id = (d[0] as u32) | ((d[1] as u32) << 8) | ((d[2] as u32) << 16) | ((d[3] as u32) << 24);
    cmsg.dlc = d[4];
    let mut data = [0u8;8];
    let mut i: usize = 0;
    while i < 8
        invariant
            i <= 8,
            forall|j: int| 0 <= j < i ==> data@[j] == rmsg.data@[5 + j],
        decreases 8 - i,
    {
        data[i] = rmsg.data[5 + i];
        i = i + 1;
    }
    assert(data@ == rmsg.data@.subrange(5, 13));
    cmsg.data = data;
}

} // verus!
