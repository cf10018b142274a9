//! The CAN frame model: addresses, packets, the packing of an address pair
//! into a 29-bit identifier, and the envelopes that travel on the reactor.

use vstd::prelude::*;

verus! {

/// The greatest port: ports have six bits.
pub const MAX_PORT: u8 = 0x3f;

/// The greatest number of payload bytes in a frame.
pub const MAX_PAYLOAD: usize = 8;

/// An endpoint on the bus: a node and a port on it.
#[derive(Debug, Clone, Copy, PartialEq, Eq, Structural)]
pub struct CanAddr {
    pub addr: u8,
    pub port: u8,
}

impl CanAddr {
    /// Whether the port has no more than six bits.
    pub open spec fn valid(self) -> bool {
        self.port <= MAX_PORT
    }

    /// The endpoint of a node and a port, if the port has no more than six bits.
    pub fn new(addr: u8, port: u8) -> (r: Option<CanAddr>)
        ensures
            r == (if port <= MAX_PORT {
                Some(CanAddr { addr, port })
            } else {
                None::<CanAddr>
            }),
    {
        if port <= MAX_PORT {
            Some(CanAddr { addr, port })
        } else {
            None
        }
    }

    /// The node.
    pub fn addr(&self) -> (a: u8)
        ensures
            a == self.addr,
    {
        self.addr
    }

    /// The port.
    pub fn port(&self) -> (p: u8)
        ensures
            p == self.port,
    {
        self.port
    }
}

/// The identifier that carries a source and a destination.
pub open spec fn pack_id(src: CanAddr, dest: CanAddr) -> u32 {
    (((src.port & 0x3f) as u32) << 23) | (((dest.port & 0x30) as u32) << 17) | (((dest.port
        & 0x0f) as u32) << 16) | ((src.addr as u32) << 8) | (dest.addr as u32)
}

/// The source that an identifier carries.
pub open spec fn unpack_src(id: u32) -> CanAddr {
    CanAddr { addr: ((id >> 8) & 0xff) as u8, port: ((id >> 23) & 0x3f) as u8 }
}

/// The destination that an identifier carries.
pub open spec fn unpack_dest(id: u32) -> CanAddr {
    CanAddr { addr: (id & 0xff) as u8, port: (((id >> 16) & 0x0f) | ((id >> 17) & 0x30)) as u8 }
}

/// Whether an identifier is one that packing gives: it has 29 bits, and
/// the bit between the two parts of the destination port is clear.
pub open spec fn packed(id: u32) -> bool {
    id & 0xe010_0000 == 0
}

/// The identifier of a frame from `src` to `dest`.
pub fn can_id_from_tuple(src: CanAddr, dest: CanAddr) -> (id: u32)
    ensures
        id == pack_id(src, dest),
{
    (((src.port & 0x3f) as u32) << 23) | (((dest.port & 0x30) as u32) << 17) | (((dest.port
        & 0x0f) as u32) << 16) | ((src.addr as u32) << 8) | (dest.addr as u32)
}

/// The source and the destination of a frame with the identifier `id`,
/// if `id` has no more than 29 bits.
pub fn can_id_to_tuple(id: u32) -> (r: Option<(CanAddr, CanAddr)>)
    ensures
        r == (if id <= 0x1fff_ffff {
            Some((unpack_src(id), unpack_dest(id)))
        } else {
            None::<(CanAddr, CanAddr)>
        }),
        r matches Some(t) ==> t.0.valid() && t.1.valid(),
{
    if id > 0x1fff_ffff {
        return None;
    }
    assert(((id >> 8) & 0xff) <= 0xff && ((id >> 23) & 0x3f) <= 0x3f && (id & 0xff) <= 0xff && (((id
        >> 16) & 0x0f) | ((id >> 17) & 0x30)) <= 0x3f) by (bit_vector);
    let src = CanAddr { addr: ((id >> 8) & 0xff) as u8, port: ((id >> 23) & 0x3f) as u8 };
    let dest = CanAddr {
        addr: (id & 0xff) as u8,
        port: (((id >> 16) & 0x0f) | ((id >> 17) & 0x30)) as u8,
    };
    Some((src, dest))
}

/// Packing and unpacking are inverse to each other: an address pair with
/// ports of six bits comes back from its identifier, the identifier is a
/// packed one, and a packed identifier comes back from its address pair.
pub proof fn packing_is_a_bijection(src: CanAddr, dest: CanAddr, id: u32)
    ensures
        src.valid() && dest.valid() ==> unpack_src(pack_id(src, dest)) == src && unpack_dest(
            pack_id(src, dest),
        ) == dest && packed(pack_id(src, dest)),
        packed(id) ==> pack_id(unpack_src(id), unpack_dest(id)) == id && unpack_src(id).valid()
            && unpack_dest(id).valid(),
{
    let sa = src.addr;
    let sp = src.port;
    let da = dest.addr;
    let dp = dest.port;
    assert(sp <= 0x3f && dp <= 0x3f ==> {
        let p = (((sp & 0x3f) as u32) << 23) | (((dp & 0x30) as u32) << 17) | (((dp & 0x0f) as u32)
            << 16) | ((sa as u32) << 8) | (da as u32);
        &&& ((p >> 8) & 0xff) as u8 == sa
        &&& ((p >> 23) & 0x3f) as u8 == sp
        &&& (p & 0xff) as u8 == da
        &&& (((p >> 16) & 0x0f) | ((p >> 17) & 0x30)) as u8 == dp
        &&& p & 0xe010_0000 == 0
    }) by (bit_vector);
    assert(id & 0xe010_0000 == 0 ==> {
        let sa2 = ((id >> 8) & 0xff) as u8;
        let sp2 = ((id >> 23) & 0x3f) as u8;
        let da2 = (id & 0xff) as u8;
        let dp2 = (((id >> 16) & 0x0f) | ((id >> 17) & 0x30)) as u8;
        &&& (((sp2 & 0x3f) as u32) << 23) | (((dp2 & 0x30) as u32) << 17) | (((dp2 & 0x0f) as u32)
            << 16) | ((sa2 as u32) << 8) | (da2 as u32) == id
        &&& sp2 <= 0x3f
        &&& dp2 <= 0x3f
    }) by (bit_vector);
}

/// A frame: where it comes from, where it goes, and up to eight bytes.
#[derive(Debug, PartialEq, Eq)]
pub struct CanPacket {
    pub src: CanAddr,
    pub dest: CanAddr,
    pub payload: Vec<u8>,
}

/// What a frame holds.
pub struct CanPacketView {
    pub src: CanAddr,
    pub dest: CanAddr,
    pub payload: Seq<u8>,
}

impl View for CanPacket {
    type V = CanPacketView;

    open spec fn view(&self) -> CanPacketView {
        CanPacketView { src: self.src, dest: self.dest, payload: self.payload@ }
    }
}

impl Clone for CanPacket {
    fn clone(&self) -> (r: Self)
        ensures
            r@ == self@,
    {
        CanPacket { src: self.src, dest: self.dest, payload: self.payload.clone() }
    }
}

impl CanPacket {
    /// Whether the frame can go on the bus: ports of six bits, and no more
    /// than eight bytes.
    pub open spec fn valid(&self) -> bool {
        self.src.valid() && self.dest.valid() && self.payload@.len() <= MAX_PAYLOAD
    }

    /// The frame from `src` to `dest` with the payload, if it can go on the bus.
    pub fn new(src: CanAddr, dest: CanAddr, payload: Vec<u8>) -> (r: Option<CanPacket>)
        ensures
            match r {
                Some(p) => p.valid() && p@ == (CanPacketView { src, dest, payload: payload@ }),
                None => !(src.valid() && dest.valid() && payload@.len() <= MAX_PAYLOAD),
            },
    {
        if src.port <= MAX_PORT && dest.port <= MAX_PORT && payload.len() <= MAX_PAYLOAD {
            Some(CanPacket { src, dest, payload })
        } else {
            None
        }
    }
}

/// What travels on the reactor: a frame, or one of the control messages
/// between the daemon and a gateway.
#[derive(Debug, PartialEq, Eq)]
pub enum Message {
    Frame(CanPacket),
    Ping,
    Resync,
    Reset { cause: u8 },
    VersionRequest,
    VersionReply { major: u8, minor: u8 },
    FirmwareIdRequest,
    FirmwareIdResponse(String),
    Unknown { command: u8, payload: Vec<u8> },
}

/// What an envelope holds.
pub enum MessageView {
    Frame(CanPacketView),
    Ping,
    Resync,
    Reset { cause: u8 },
    VersionRequest,
    VersionReply { major: u8, minor: u8 },
    FirmwareIdRequest,
    FirmwareIdResponse(Seq<char>),
    Unknown { command: u8, payload: Seq<u8> },
}

impl View for Message {
    type V = MessageView;

    open spec fn view(&self) -> MessageView {
        match self {
            Message::Frame(p) => MessageView::Frame(p@),
            Message::Ping => MessageView::Ping,
            Message::Resync => MessageView::Resync,
            Message::Reset { cause } => MessageView::Reset { cause: *cause },
            Message::VersionRequest => MessageView::VersionRequest,
            Message::VersionReply { major, minor } => MessageView::VersionReply {
                major: *major,
                minor: *minor,
            },
            Message::FirmwareIdRequest => MessageView::FirmwareIdRequest,
            Message::FirmwareIdResponse(text) => MessageView::FirmwareIdResponse(text@),
            Message::Unknown { command, payload } => MessageView::Unknown {
                command: *command,
                payload: payload@,
            },
        }
    }
}

impl Clone for Message {
    fn clone(&self) -> (r: Self)
        ensures
            r@ == self@,
    {
        match self {
            Message::Frame(p) => Message::Frame(p.clone()),
            Message::Ping => Message::Ping,
            Message::Resync => Message::Resync,
            Message::Reset { cause } => Message::Reset { cause: *cause },
            Message::VersionRequest => Message::VersionRequest,
            Message::VersionReply { major, minor } => Message::VersionReply {
                major: *major,
                minor: *minor,
            },
            Message::FirmwareIdRequest => Message::FirmwareIdRequest,
            Message::FirmwareIdResponse(text) => Message::FirmwareIdResponse(text.clone()),
            Message::Unknown { command, payload } => Message::Unknown {
                command: *command,
                payload: payload.clone(),
            },
        }
    }
}

} // verus!
