use vstd::prelude::*;
use ciborium::value::Value;
use crate::proto::descriptor::{
    parse_error_code, DeviceDescriptor, DeviceModel, ErrorCode, RoomDescriptor, RoomModel, ID,
};
use crate::proto::error::Error;
use crate::proto::helper::{
    bytes_encoding, open_window, parse_bytes, parse_string, parse_u64, parse_u8,
    parse_varlen, reads, string_encoding, then, u64_be_bytes, varlen_encoding, windowed, writes,
    Encoding, Parsed, ReadExt, ReadWindow, WriteExt,
};
use crate::proto::list::{list_encoding, models, parse_list, read_list, write_list};
use crate::proto::net::{
    parse_value, value_encoding, Deserialize, DeserializeId, Serialize, SerializeId,
};

verus! {

/// A payload together with the number that ties a response to its request.
#[derive(Debug, PartialEq)]
pub struct Message<T> {
    pub request_id: u64,
    pub payload: T,
}

/// What a message holds.
pub struct MessageModel<M> {
    pub request_id: u64,
    pub payload: M,
}

/// The encoding of a message: the opcode, the request number, and the
/// payload in a window.
pub open spec fn message_encoding(opcode: u8, request_id: u64, payload: Encoding) -> Encoding {
    then(Ok(seq![opcode] + u64_be_bytes(request_id)), windowed(payload))
}

/// Reading a message: the opcode, the request number, and a window that
/// holds the payload of the opcode's variant.
pub open spec fn parse_message<T: DeserializeId>(s: Seq<u8>) -> Parsed<MessageModel<T::Model>> {
    match parse_u8(s) {
        Err(e) => Err(e),
        Ok((opcode, _)) => match parse_u64(s.skip(1)) {
            Err(e) => Err(e),
            Ok((request_id, _)) => match open_window(s.skip(1).skip(8)) {
                Err(e) => Err(e),
                Ok(w) => match T::parse(opcode, w.body) {
                    Err(e) => Err(e),
                    Ok((payload, _)) => if w.missing > 0 {
                        Err(Error::IOError)
                    } else {
                        Ok((MessageModel { request_id, payload }, 9 + w.taken))
                    },
                },
            },
        },
    }
}

/// The number of bytes that the message at the front of `s` takes, once
/// `s` holds enough of it to tell: the opcode, the request number and the
/// length of the window.
pub open spec fn message_extent(s: Seq<u8>) -> Option<nat> {
    if s.len() < 9 {
        None
    } else {
        match parse_varlen(s.skip(9)) {
            Ok((len, k)) => Some(9 + k + len as nat),
            Err(_) => None,
        }
    }
}

/// The number of bytes that the message at the front of `buf` takes, or
/// nothing while `buf` holds too little of it to tell.
pub fn message_length(buf: &[u8]) -> (r: Option<usize>)
    ensures
        match message_extent(buf@) {
            Some(n) => r == Some(n as usize) && n <= 9 + 2 + crate::proto::helper::MAX_VARLEN,
            None => r is None,
        },
{
    if buf.len() < 9 {
        return None;
    }
    let mut read = ReadWindow::new(vstd::slice::slice_subrange(buf, 9, buf.len()));
    proof {
        assert(buf@.subrange(9, buf@.len() as int) == buf@.skip(9));
        crate::proto::helper::varlen_bijection(0, 0, Seq::empty(), buf@.skip(9));
    }
    let before: usize = read.remaining_bytes();
    match read.read_varlen() {
        Ok(len) => {
            let k: usize = before - read.remaining_bytes();
            Some(9 + k + len)
        },
        Err(_) => None,
    }
}

impl<T: SerializeId> Serialize for Message<T> {
    open spec fn encoding(&self) -> Encoding {
        message_encoding(self.payload.opcode(), self.request_id, self.payload.encoding())
    }

    fn serialize(&self, write: &mut Vec<u8>) -> (r: Result<(), Error>)
        ensures
            r is Err ==> final(write)@ == old(write)@,
    {
        let opcode: u8 = self.payload.id();
        let mut window = write.write_window();
        self.payload.serialize(&mut window.buffer)?;
        check_window(&window)?;
        write.write_u8(opcode);
        write.write_u64(self.request_id);
        let ghost head = write@;
        let done = window.finish(write);
        proof {
            let body = self.payload.encoding()->Ok_0;
            let framed = windowed(Ok(body))->Ok_0;
            assert(head == old(write)@ + (seq![opcode] + u64_be_bytes(self.request_id)));
            assert(final(write)@ == old(write)@ + ((seq![opcode] + u64_be_bytes(self.request_id))
                + framed));
        }
        done
    }
}

/// Whether a window that was written can be finished.
fn check_window(window: &crate::proto::helper::WriteWindow) -> (r: Result<(), Error>)
    ensures
        r == (if window.buffer@.len() <= crate::proto::helper::MAX_VARLEN {
            Ok::<(), Error>(())
        } else {
            Err(Error::ObjectTooLarge)
        }),
{
    crate::proto::helper::check_varlen(window.buffer.len())
}

impl<T: DeserializeId> Deserialize for Message<T> {
    type Model = MessageModel<T::Model>;

    open spec fn model(&self) -> MessageModel<T::Model> {
        MessageModel { request_id: self.request_id, payload: self.payload.model() }
    }

    open spec fn parse(s: Seq<u8>) -> Parsed<MessageModel<T::Model>> {
        parse_message::<T>(s)
    }

    fn deserialize(read: &mut ReadWindow<'_>) -> (r: Result<Self, Error>) {
        let mut cur = *read;
        let opcode: u8 = cur.read_u8()?;
        let request_id: u64 = cur.read_u64()?;
        let mut window = cur.read_window()?;
        let payload = T::deserialize(opcode, &mut window)?;
        window.skip_to_end()?;
        proof {
            let s = old(read).unread();
            let w = open_window(s.skip(1).skip(8))->Ok_0;
            assert(s.skip(1).skip(8).skip(w.taken as int) == s.skip((9 + w.taken) as int));
        }
        *read = cur;
        Ok(Message { request_id, payload })
    }
}

impl Message<ToServerPayload> {
    /// A response to this request: the payload under the request's number.
    pub fn new_response(&self, payload: ToClientPayload) -> (r: Message<ToClientPayload>)
        ensures
            r.request_id == self.request_id,
            r.payload == payload,
    {
        Message { request_id: self.request_id, payload }
    }
}

/// What a client asks of the server.
#[derive(Debug, PartialEq)]
pub enum ToServerPayload {
    Hello,
    GetDevices,
    SetChannel { device: ID, room: ID, channel: ID, value: Value },
    GetChannel { device: ID, room: ID, channel: ID },
    SubscribeChannel { device: ID, room: ID, channel: ID },
}

/// What a request holds.
pub enum ToServerModel {
    Hello,
    GetDevices,
    SetChannel { device: Seq<u8>, room: Seq<u8>, channel: Seq<u8>, value: Value },
    GetChannel { device: Seq<u8>, room: Seq<u8>, channel: Seq<u8> },
    SubscribeChannel { device: Seq<u8>, room: Seq<u8>, channel: Seq<u8> },
}

impl View for ToServerPayload {
    type V = ToServerModel;

    open spec fn view(&self) -> ToServerModel {
        match self {
            ToServerPayload::Hello => ToServerModel::Hello,
            ToServerPayload::GetDevices => ToServerModel::GetDevices,
            ToServerPayload::SetChannel { device, room, channel, value } => {
                ToServerModel::SetChannel {
                    device: device@,
                    room: room@,
                    channel: channel@,
                    value: *value,
                }
            },
            ToServerPayload::GetChannel { device, room, channel } => ToServerModel::GetChannel {
                device: device@,
                room: room@,
                channel: channel@,
            },
            ToServerPayload::SubscribeChannel { device, room, channel } => {
                ToServerModel::SubscribeChannel { device: device@, room: room@, channel: channel@ }
            },
        }
    }
}

/// The encoding of the path to a channel: device, room and channel.
#[verifier::opaque]
pub open spec fn path_encoding(device: Seq<u8>, room: Seq<u8>, channel: Seq<u8>) -> Encoding {
    then(then(bytes_encoding(device), bytes_encoding(room)), bytes_encoding(channel))
}

/// Reading the path to a channel: device, room and channel.
#[verifier::opaque]
pub open spec fn parse_path(s: Seq<u8>) -> Parsed<(Seq<u8>, Seq<u8>, Seq<u8>)> {
    match parse_bytes(s) {
        Err(e) => Err(e),
        Ok((device, n1)) => match parse_bytes(s.skip(n1 as int)) {
            Err(e) => Err(e),
            Ok((room, n2)) => match parse_bytes(s.skip(n1 as int).skip(n2 as int)) {
                Err(e) => Err(e),
                Ok((channel, n3)) => Ok(((device, room, channel), n1 + n2 + n3)),
            },
        },
    }
}

/// Writes the path to a channel.
fn write_path(device: &ID, room: &ID, channel: &ID, write: &mut Vec<u8>) -> (r: Result<
    (),
    Error,
>)
    ensures
        writes(old(write)@, final(write)@, path_encoding(device@, room@, channel@), r),
{
    reveal(path_encoding);
    write.write_id(device.as_slice())?;
    match write.write_id(room.as_slice()) {
        Ok(_) => {},
        Err(e) => {
            return Err(e);
        },
    }
    match write.write_id(channel.as_slice()) {
        Ok(_) => {},
        Err(e) => {
            return Err(e);
        },
    }
    proof {
        let a = bytes_encoding(device@)->Ok_0;
        let b = bytes_encoding(room@)->Ok_0;
        let c = bytes_encoding(channel@)->Ok_0;
        assert(final(write)@ == old(write)@ + ((a + b) + c));
    }
    Ok(())
}

/// Reads the path to a channel.
fn read_path(read: &mut ReadWindow<'_>) -> (r: Result<(ID, ID, ID), Error>)
    ensures
        reads(*old(read), *final(read), parse_path(old(read).unread()), r),
        r matches Ok(p) ==> parse_path(old(read).unread()) matches Ok((m, _)) && p.0@ == m.0
            && p.1@ == m.1 && p.2@ == m.2,
{
    reveal(parse_path);
    let mut cur = *read;
    let device = cur.read_id()?;
    let room = cur.read_id()?;
    let channel = cur.read_id()?;
    proof {
        let s = old(read).unread();
        let n1 = parse_bytes(s)->Ok_0.1;
        let n2 = parse_bytes(s.skip(n1 as int))->Ok_0.1;
        let n3 = parse_bytes(s.skip(n1 as int).skip(n2 as int))->Ok_0.1;
        assert(s.skip(n1 as int).skip(n2 as int).skip(n3 as int) == s.skip((n1 + n2 + n3) as int));
    }
    *read = cur;
    Ok((device, room, channel))
}

/// Reading a request of the variant that `id` names.
pub open spec fn parse_to_server(id: u8, s: Seq<u8>) -> Parsed<ToServerModel> {
    if id == 0 {
        Ok((ToServerModel::Hello, 0))
    } else if id == 1 {
        Ok((ToServerModel::GetDevices, 0))
    } else if id == 2 {
        match parse_path(s) {
            Err(e) => Err(e),
            Ok((p, n)) => match parse_value(s.skip(n as int)) {
                Err(e) => Err(e),
                Ok((value, m)) => Ok(
                    (
                        ToServerModel::SetChannel { device: p.0, room: p.1, channel: p.2, value },
                        n + m,
                    ),
                ),
            },
        }
    } else if id == 3 {
        match parse_path(s) {
            Err(e) => Err(e),
            Ok((p, n)) => Ok(
                (ToServerModel::GetChannel { device: p.0, room: p.1, channel: p.2 }, n),
            ),
        }
    } else if id == 4 {
        match parse_path(s) {
            Err(e) => Err(e),
            Ok((p, n)) => Ok(
                (ToServerModel::SubscribeChannel { device: p.0, room: p.1, channel: p.2 }, n),
            ),
        }
    } else {
        Err(Error::InvalidId)
    }
}

impl Serialize for ToServerPayload {
    open spec fn encoding(&self) -> Encoding {
        match self {
            ToServerPayload::Hello => Ok(Seq::empty()),
            ToServerPayload::GetDevices => Ok(Seq::empty()),
            ToServerPayload::SetChannel { device, room, channel, value } => then(
                path_encoding(device@, room@, channel@),
                value_encoding(*value),
            ),
            ToServerPayload::GetChannel { device, room, channel } => path_encoding(
                device@,
                room@,
                channel@,
            ),
            ToServerPayload::SubscribeChannel { device, room, channel } => path_encoding(
                device@,
                room@,
                channel@,
            ),
        }
    }

    fn serialize(&self, write: &mut Vec<u8>) -> (r: Result<(), Error>) {
        match self {
            ToServerPayload::Hello => {
                assert(old(write)@ + Seq::<u8>::empty() == old(write)@);
                Ok(())
            },
            ToServerPayload::GetDevices => {
                assert(old(write)@ + Seq::<u8>::empty() == old(write)@);
                Ok(())
            },
            ToServerPayload::SetChannel { device, room, channel, value } => {
                write_path(device, room, channel, write)?;
                match value.serialize(write) {
                    Ok(()) => {},
                    Err(e) => {
                        return Err(e);
                    },
                }
                proof {
                    let a = path_encoding(device@, room@, channel@)->Ok_0;
                    let b = value_encoding(*value)->Ok_0;
                    assert(final(write)@ == old(write)@ + (a + b));
                }
                Ok(())
            },
            ToServerPayload::GetChannel { device, room, channel } => write_path(
                device,
                room,
                channel,
                write,
            ),
            ToServerPayload::SubscribeChannel { device, room, channel } => write_path(
                device,
                room,
                channel,
                write,
            ),
        }
    }
}

impl SerializeId for ToServerPayload {
    open spec fn opcode(&self) -> u8 {
        match self {
            ToServerPayload::Hello => 0,
            ToServerPayload::GetDevices => 1,
            ToServerPayload::SetChannel { .. } => 2,
            ToServerPayload::GetChannel { .. } => 3,
            ToServerPayload::SubscribeChannel { .. } => 4,
        }
    }

    fn id(&self) -> (id: u8) {
        match self {
            ToServerPayload::Hello => 0,
            ToServerPayload::GetDevices => 1,
            ToServerPayload::SetChannel { .. } => 2,
            ToServerPayload::GetChannel { .. } => 3,
            ToServerPayload::SubscribeChannel { .. } => 4,
        }
    }
}

impl DeserializeId for ToServerPayload {
    type Model = ToServerModel;

    open spec fn model(&self) -> ToServerModel {
        self@
    }

    open spec fn parse(id: u8, s: Seq<u8>) -> Parsed<ToServerModel> {
        parse_to_server(id, s)
    }

    fn deserialize(id: u8, read: &mut ReadWindow<'_>) -> (r: Result<Self, Error>) {
        let mut cur = *read;
        let payload = match id {
            0 => {
                assert(cur.unread().skip(0) == cur.unread());
                ToServerPayload::Hello
            },
            1 => {
                assert(cur.unread().skip(0) == cur.unread());
                ToServerPayload::GetDevices
            },
            2 => {
                let (device, room, channel) = read_path(&mut cur)?;
                let value = Value::deserialize(&mut cur)?;
                proof {
                    let s = old(read).unread();
                    let n = parse_path(s)->Ok_0.1;
                    let m = parse_value(s.skip(n as int))->Ok_0.1;
                    assert(s.skip(n as int).skip(m as int) == s.skip((n + m) as int));
                }
                ToServerPayload::SetChannel { device, room, channel, value }
            },
            3 => {
                let (device, room, channel) = read_path(&mut cur)?;
                ToServerPayload::GetChannel { device, room, channel }
            },
            4 => {
                let (device, room, channel) = read_path(&mut cur)?;
                ToServerPayload::SubscribeChannel { device, room, channel }
            },
            _ => {
                return Err(Error::InvalidId);
            },
        };
        *read = cur;
        Ok(payload)
    }
}

/// What the server answers.
#[derive(Debug, PartialEq)]
pub enum ToClientPayload {
    Welcome,
    Devices { rooms: Vec<RoomDescriptor>, devices: Vec<DeviceDescriptor> },
    ChannelValue { flags: u8, value: Value },
    /// The request was carried out. On the wire this is opcode 3.
    Okay,
    /// The request was refused. On the wire this is opcode 4.
    Failed { code: ErrorCode, message: String },
}

/// What a response holds.
pub enum ToClientModel {
    Welcome,
    Devices { rooms: Seq<RoomModel>, devices: Seq<DeviceModel> },
    ChannelValue { flags: u8, value: Value },
    Okay,
    Failed { code: ErrorCode, message: Seq<char> },
}

impl View for ToClientPayload {
    type V = ToClientModel;

    open spec fn view(&self) -> ToClientModel {
        match self {
            ToClientPayload::Welcome => ToClientModel::Welcome,
            ToClientPayload::Devices { rooms, devices } => ToClientModel::Devices {
                rooms: models(rooms@),
                devices: models(devices@),
            },
            ToClientPayload::ChannelValue { flags, value } => ToClientModel::ChannelValue {
                flags: *flags,
                value: *value,
            },
            ToClientPayload::Okay => ToClientModel::Okay,
            ToClientPayload::Failed { code, message } => ToClientModel::Failed {
                code: *code,
                message: message@,
            },
        }
    }
}

/// The encoding of the rooms and devices of the building: the number of
/// rooms, the rooms, the number of devices, the devices.
pub open spec fn devices_encoding(
    rooms: Seq<RoomDescriptor>,
    devices: Seq<DeviceDescriptor>,
) -> Encoding {
    then(
        then(then(varlen_encoding(rooms.len()), list_encoding(rooms)), varlen_encoding(devices.len())),
        list_encoding(devices),
    )
}

/// Reading the rooms and devices of the building.
pub open spec fn parse_devices(s: Seq<u8>) -> Parsed<(Seq<RoomModel>, Seq<DeviceModel>)> {
    match parse_varlen(s) {
        Err(e) => Err(e),
        Ok((room_count, k1)) => match parse_list::<RoomDescriptor>(
            room_count as nat,
            s.skip(k1 as int),
        ) {
            Err(e) => Err(e),
            Ok((rooms, n1)) => match parse_varlen(s.skip(k1 as int).skip(n1 as int)) {
                Err(e) => Err(e),
                Ok((device_count, k2)) => match parse_list::<DeviceDescriptor>(
                    device_count as nat,
                    s.skip(k1 as int).skip(n1 as int).skip(k2 as int),
                ) {
                    Err(e) => Err(e),
                    Ok((devices, n2)) => Ok(((rooms, devices), k1 + n1 + k2 + n2)),
                },
            },
        },
    }
}

/// The encoding of the value of a channel: the flags, then the value.
pub open spec fn channel_value_encoding(flags: u8, value: Value) -> Encoding {
    then(Ok(seq![flags]), value_encoding(value))
}

/// Reading the value of a channel: the flags, then the value.
pub open spec fn parse_channel_value(s: Seq<u8>) -> Parsed<(u8, Value)> {
    match parse_u8(s) {
        Err(e) => Err(e),
        Ok((flags, _)) => match parse_value(s.skip(1)) {
            Err(e) => Err(e),
            Ok((value, m)) => Ok(((flags, value), 1 + m)),
        },
    }
}

/// The encoding of a refusal: the code, then the message.
pub open spec fn failure_encoding(code: ErrorCode, message: Seq<char>) -> Encoding {
    then(code.encoding(), string_encoding(message))
}

/// Reading a refusal: the code, then the message.
pub open spec fn parse_failure(s: Seq<u8>) -> Parsed<(ErrorCode, Seq<char>)> {
    match parse_error_code(s) {
        Err(e) => Err(e),
        Ok((code, _)) => match parse_string(s.skip(1)) {
            Err(e) => Err(e),
            Ok((message, m)) => Ok(((code, message), 1 + m)),
        },
    }
}

/// Reading a response of the variant that `id` names.
pub open spec fn parse_to_client(id: u8, s: Seq<u8>) -> Parsed<ToClientModel> {
    if id == 0 {
        Ok((ToClientModel::Welcome, 0))
    } else if id == 1 {
        match parse_devices(s) {
            Err(e) => Err(e),
            Ok((p, n)) => Ok((ToClientModel::Devices { rooms: p.0, devices: p.1 }, n)),
        }
    } else if id == 2 {
        match parse_channel_value(s) {
            Err(e) => Err(e),
            Ok((p, n)) => Ok((ToClientModel::ChannelValue { flags: p.0, value: p.1 }, n)),
        }
    } else if id == 3 {
        Ok((ToClientModel::Okay, 0))
    } else if id == 4 {
        match parse_failure(s) {
            Err(e) => Err(e),
            Ok((p, n)) => Ok((ToClientModel::Failed { code: p.0, message: p.1 }, n)),
        }
    } else {
        Err(Error::InvalidId)
    }
}

/// Writes the rooms and devices of the building.
fn write_devices(
    rooms: &Vec<RoomDescriptor>,
    devices: &Vec<DeviceDescriptor>,
    write: &mut Vec<u8>,
) -> (r: Result<(), Error>)
    ensures
        writes(old(write)@, final(write)@, devices_encoding(rooms@, devices@), r),
{
    write.write_varlen(rooms.len())?;
    match write_list(rooms, write) {
        Ok(()) => {},
        Err(e) => {
            return Err(e);
        },
    }
    let ghost rest2 = write@;
    match write.write_varlen(devices.len()) {
        Ok(_) => {},
        Err(e) => {
            assert(old(write)@.is_prefix_of(rest2));
            return Err(e);
        },
    }
    let ghost rest3 = write@;
    match write_list(devices, write) {
        Ok(()) => {},
        Err(e) => {
            assert(old(write)@.is_prefix_of(rest3));
            return Err(e);
        },
    }
    proof {
        let a = varlen_encoding(rooms@.len())->Ok_0;
        let b = list_encoding(rooms@)->Ok_0;
        let c = varlen_encoding(devices@.len())->Ok_0;
        let d = list_encoding(devices@)->Ok_0;
        assert(rest2 == old(write)@ + (a + b));
        assert(rest3 == old(write)@ + ((a + b) + c));
        assert(final(write)@ == old(write)@ + (((a + b) + c) + d));
    }
    Ok(())
}

/// Reads the rooms and devices of the building.
fn read_devices(read: &mut ReadWindow<'_>) -> (r: Result<
    (Vec<RoomDescriptor>, Vec<DeviceDescriptor>),
    Error,
>)
    ensures
        reads(*old(read), *final(read), parse_devices(old(read).unread()), r),
        r matches Ok(p) ==> parse_devices(old(read).unread()) matches Ok((m, _)) && models(p.0@)
            == m.0 && models(p.1@) == m.1,
{
    let mut cur = *read;
    let ghost s = old(read).unread();
    let room_count: usize = cur.read_varlen()?;
    let ghost k1 = parse_varlen(s)->Ok_0.1;
    let ghost rest1 = s.skip(k1 as int);
    let rooms = read_list::<RoomDescriptor>(room_count, &mut cur)?;
    let ghost n1 = parse_list::<RoomDescriptor>(room_count as nat, rest1)->Ok_0.1;
    let ghost rest2 = rest1.skip(n1 as int);
    assert(rest2 == s.skip((k1 + n1) as int));
    let device_count: usize = cur.read_varlen()?;
    let ghost k2 = parse_varlen(rest2)->Ok_0.1;
    let ghost rest3 = rest2.skip(k2 as int);
    assert(rest3 == s.skip((k1 + n1 + k2) as int));
    let devices = read_list::<DeviceDescriptor>(device_count, &mut cur)?;
    proof {
        let n2 = parse_list::<DeviceDescriptor>(device_count as nat, rest3)->Ok_0.1;
        assert(rest3.skip(n2 as int) == s.skip((k1 + n1 + k2 + n2) as int));
    }
    *read = cur;
    Ok((rooms, devices))
}

/// Writes the value of a channel.
fn write_channel_value(flags: u8, value: &Value, write: &mut Vec<u8>) -> (r: Result<(), Error>)
    ensures
        writes(old(write)@, final(write)@, channel_value_encoding(flags, *value), r),
{
    write.write_u8(flags);
    let ghost rest1 = write@;
    assert(rest1 == old(write)@ + seq![flags]);
    match value.serialize(write) {
        Ok(()) => {},
        Err(e) => {
            return Err(e);
        },
    }
    proof {
        let b = value_encoding(*value)->Ok_0;
        assert(final(write)@ == old(write)@ + (seq![flags] + b));
    }
    Ok(())
}

/// Reads the value of a channel.
fn read_channel_value(read: &mut ReadWindow<'_>) -> (r: Result<(u8, Value), Error>)
    ensures
        reads(*old(read), *final(read), parse_channel_value(old(read).unread()), r),
        r matches Ok(p) ==> parse_channel_value(old(read).unread()) matches Ok((m, _)) && p == m,
{
    let mut cur = *read;
    let ghost s = old(read).unread();
    let flags: u8 = cur.read_u8()?;
    let value = Value::deserialize(&mut cur)?;
    proof {
        let m = parse_value(s.skip(1))->Ok_0.1;
        assert(s.skip(1).skip(m as int) == s.skip((1 + m) as int));
    }
    *read = cur;
    Ok((flags, value))
}

/// Writes a refusal.
fn write_failure(code: &ErrorCode, message: &String, write: &mut Vec<u8>) -> (r: Result<
    (),
    Error,
>)
    ensures
        writes(old(write)@, final(write)@, failure_encoding(*code, message@), r),
{
    code.serialize(write)?;
    match write.write_string(message.as_str()) {
        Ok(_) => {},
        Err(e) => {
            return Err(e);
        },
    }
    proof {
        let a = code.encoding()->Ok_0;
        let b = string_encoding(message@)->Ok_0;
        assert(final(write)@ == old(write)@ + (a + b));
    }
    Ok(())
}

/// Reads a refusal.
fn read_failure(read: &mut ReadWindow<'_>) -> (r: Result<(ErrorCode, String), Error>)
    ensures
        reads(*old(read), *final(read), parse_failure(old(read).unread()), r),
        r matches Ok(p) ==> parse_failure(old(read).unread()) matches Ok((m, _)) && p.0 == m.0
            && p.1@ == m.1,
{
    let mut cur = *read;
    let ghost s = old(read).unread();
    let code = ErrorCode::deserialize(&mut cur)?;
    let message = cur.read_string()?;
    proof {
        let m = parse_string(s.skip(1))->Ok_0.1;
        assert(s.skip(1).skip(m as int) == s.skip((1 + m) as int));
    }
    *read = cur;
    Ok((code, message))
}

impl Serialize for ToClientPayload {
    open spec fn encoding(&self) -> Encoding {
        match self {
            ToClientPayload::Welcome => Ok(Seq::empty()),
            ToClientPayload::Devices { rooms, devices } => devices_encoding(rooms@, devices@),
            ToClientPayload::ChannelValue { flags, value } => channel_value_encoding(
                *flags,
                *value,
            ),
            ToClientPayload::Okay => Ok(Seq::empty()),
            ToClientPayload::Failed { code, message } => failure_encoding(*code, message@),
        }
    }

    fn serialize(&self, write: &mut Vec<u8>) -> (r: Result<(), Error>) {
        match self {
            ToClientPayload::Welcome => {
                assert(old(write)@ + Seq::<u8>::empty() == old(write)@);
                Ok(())
            },
            ToClientPayload::Devices { rooms, devices } => write_devices(rooms, devices, write),
            ToClientPayload::ChannelValue { flags, value } => write_channel_value(
                *flags,
                value,
                write,
            ),
            ToClientPayload::Okay => {
                assert(old(write)@ + Seq::<u8>::empty() == old(write)@);
                Ok(())
            },
            ToClientPayload::Failed { code, message } => write_failure(code, message, write),
        }
    }
}

impl SerializeId for ToClientPayload {
    open spec fn opcode(&self) -> u8 {
        match self {
            ToClientPayload::Welcome => 0,
            ToClientPayload::Devices { .. } => 1,
            ToClientPayload::ChannelValue { .. } => 2,
            ToClientPayload::Okay => 3,
            ToClientPayload::Failed { .. } => 4,
        }
    }

    fn id(&self) -> (id: u8) {
        match self {
            ToClientPayload::Welcome => 0,
            ToClientPayload::Devices { .. } => 1,
            ToClientPayload::ChannelValue { .. } => 2,
            ToClientPayload::Okay => 3,
            ToClientPayload::Failed { .. } => 4,
        }
    }
}

impl DeserializeId for ToClientPayload {
    type Model = ToClientModel;

    open spec fn model(&self) -> ToClientModel {
        self@
    }

    open spec fn parse(id: u8, s: Seq<u8>) -> Parsed<ToClientModel> {
        parse_to_client(id, s)
    }

    fn deserialize(id: u8, read: &mut ReadWindow<'_>) -> (r: Result<Self, Error>) {
        match id {
            0 => {
                assert(read.unread().skip(0) == read.unread());
                Ok(ToClientPayload::Welcome)
            },
            1 => {
                let (rooms, devices) = read_devices(read)?;
                Ok(ToClientPayload::Devices { rooms, devices })
            },
            2 => {
                let (flags, value) = read_channel_value(read)?;
                Ok(ToClientPayload::ChannelValue { flags, value })
            },
            3 => {
                assert(read.unread().skip(0) == read.unread());
                Ok(ToClientPayload::Okay)
            },
            4 => {
                let (code, message) = read_failure(read)?;
                Ok(ToClientPayload::Failed { code, message })
            },
            _ => Err(Error::InvalidId),
        }
    }
}

} // verus!
