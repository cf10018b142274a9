use vstd::prelude::*;
use crate::proto::error::Error;
use crate::proto::helper::{
    bytes_encoding, close_window, open_window, parse_bytes, parse_string, parse_u8, parse_varlen,
    string_encoding, then, varlen_encoding, windowed, Encoding, Parsed, ReadExt, ReadWindow,
    WriteExt,
};
use crate::proto::list::{list_encoding, models, parse_list, read_list, write_list};
use crate::proto::net::{Deserialize, Serialize};

verus! {

/// The identifier of a room, a device or a channel: opaque bytes.
pub type ID = Vec<u8>;

/// A room of the building.
#[derive(Debug, PartialEq, Eq)]
pub struct RoomDescriptor {
    pub id: ID,
    pub display_name: String,
}

/// What a room descriptor holds.
pub struct RoomModel {
    pub id: Seq<u8>,
    pub display_name: Seq<char>,
}

impl View for RoomDescriptor {
    type V = RoomModel;

    open spec fn view(&self) -> RoomModel {
        RoomModel { id: self.id@, display_name: self.display_name@ }
    }
}

impl Clone for RoomDescriptor {
    fn clone(&self) -> (r: Self)
        ensures
            r@ == self@,
    {
        RoomDescriptor { id: self.id.clone(), display_name: self.display_name.clone() }
    }
}

/// Reading a room: a window that holds the identifier and the name.
#[verifier::opaque]
pub open spec fn parse_room(s: Seq<u8>) -> Parsed<RoomModel> {
    match open_window(s) {
        Err(e) => Err(e),
        Ok(w) => match parse_bytes(w.body) {
            Err(e) => Err(e),
            Ok((id, n)) => match parse_string(w.body.skip(n as int)) {
                Err(e) => Err(e),
                Ok((display_name, _)) => close_window(w, RoomModel { id, display_name }),
            },
        },
    }
}

impl Serialize for RoomDescriptor {
    open spec fn encoding(&self) -> Encoding {
        windowed(then(bytes_encoding(self.id@), string_encoding(self.display_name@)))
    }

    fn serialize(&self, write: &mut Vec<u8>) -> (r: Result<(), Error>)
        ensures
            r is Err ==> final(write)@ == old(write)@,
    {
        let mut window = write.write_window();
        window.write_id(self.id.as_slice())?;
        window.write_string(self.display_name.as_str())?;
        window.finish(write)
    }
}

impl Deserialize for RoomDescriptor {
    type Model = RoomModel;

    open spec fn model(&self) -> RoomModel {
        self@
    }

    open spec fn parse(s: Seq<u8>) -> Parsed<RoomModel> {
        parse_room(s)
    }

    fn deserialize(read: &mut ReadWindow<'_>) -> (r: Result<Self, Error>) {
        reveal(parse_room);
        let mut cur = *read;
        let mut window = cur.read_window()?;
        let id = window.read_id()?;
        let display_name = window.read_string()?;
        window.skip_to_end()?;
        *read = cur;
        Ok(RoomDescriptor { id, display_name })
    }
}

/// A copy of a list of rooms.
pub fn clone_rooms(rooms: &Vec<RoomDescriptor>) -> (r: Vec<RoomDescriptor>)
    ensures
        models(r@) == models(rooms@),
{
    let mut out: Vec<RoomDescriptor> = Vec::new();
    let mut i: usize = 0;
    while i < rooms.len()
        invariant
            i <= rooms.len(),
            out@.len() == i,
            forall|j: int| 0 <= j < i ==> out@[j]@ == rooms@[j]@,
        decreases rooms.len() - i,
    {
        out.push(rooms[i].clone());
        i = i + 1;
    }
    assert(models(out@) == models(rooms@));
    out
}

/// Why the server did not do what a request asked for.
#[derive(Debug, Clone, Copy, PartialEq, Eq, Structural)]
pub enum ErrorCode {
    NoSuchDevice,
    NoSuchRoom,
    NoSuchChannel,
    InvalidRequestForChannel,
    UnknownError(u8),
}

impl ErrorCode {
    /// The byte that stands for the code on the wire.
    pub open spec fn tag(self) -> u8 {
        match self {
            ErrorCode::NoSuchDevice => 0,
            ErrorCode::NoSuchRoom => 1,
            ErrorCode::NoSuchChannel => 2,
            ErrorCode::InvalidRequestForChannel => 3,
            ErrorCode::UnknownError(id) => id,
        }
    }

    /// Whether the code is the one that its byte stands for: an unknown
    /// code does not carry the byte of a known one.
    pub open spec fn canonical(self) -> bool {
        self matches ErrorCode::UnknownError(id) ==> id > 3
    }

    /// The code that a byte stands for.
    pub open spec fn of_tag(tag: u8) -> ErrorCode {
        if tag == 0 {
            ErrorCode::NoSuchDevice
        } else if tag == 1 {
            ErrorCode::NoSuchRoom
        } else if tag == 2 {
            ErrorCode::NoSuchChannel
        } else if tag == 3 {
            ErrorCode::InvalidRequestForChannel
        } else {
            ErrorCode::UnknownError(tag)
        }
    }
}

/// Reading an error code: one byte.
pub open spec fn parse_error_code(s: Seq<u8>) -> Parsed<ErrorCode> {
    match parse_u8(s) {
        Err(e) => Err(e),
        Ok((tag, n)) => Ok((ErrorCode::of_tag(tag), n)),
    }
}

impl Serialize for ErrorCode {
    open spec fn encoding(&self) -> Encoding {
        Ok(seq![self.tag()])
    }

    fn serialize(&self, write: &mut Vec<u8>) -> (r: Result<(), Error>) {
        let id: u8 = match self {
            ErrorCode::NoSuchDevice => 0,
            ErrorCode::NoSuchRoom => 1,
            ErrorCode::NoSuchChannel => 2,
            ErrorCode::InvalidRequestForChannel => 3,
            ErrorCode::UnknownError(id) => *id,
        };
        write.write_u8(id);
        assert(final(write)@ == old(write)@ + seq![id]);
        Ok(())
    }
}

impl Deserialize for ErrorCode {
    type Model = ErrorCode;

    open spec fn model(&self) -> ErrorCode {
        *self
    }

    open spec fn parse(s: Seq<u8>) -> Parsed<ErrorCode> {
        parse_error_code(s)
    }

    fn deserialize(read: &mut ReadWindow<'_>) -> (r: Result<Self, Error>) {
        let id: u8 = read.read_u8()?;
        Ok(
            match id {
                0 => ErrorCode::NoSuchDevice,
                1 => ErrorCode::NoSuchRoom,
                2 => ErrorCode::NoSuchChannel,
                3 => ErrorCode::InvalidRequestForChannel,
                id => ErrorCode::UnknownError(id),
            },
        )
    }
}

/// One of the values that a channel of an enumerated type can take.
#[derive(Debug, PartialEq, Eq)]
pub struct EnumValue {
    pub id: ID,
    pub display_name: String,
}

/// What an enumerated value holds.
pub struct EnumValueModel {
    pub id: Seq<u8>,
    pub display_name: Seq<char>,
}

impl View for EnumValue {
    type V = EnumValueModel;

    open spec fn view(&self) -> EnumValueModel {
        EnumValueModel { id: self.id@, display_name: self.display_name@ }
    }
}

impl Clone for EnumValue {
    fn clone(&self) -> (r: Self)
        ensures
            r@ == self@,
    {
        EnumValue { id: self.id.clone(), display_name: self.display_name.clone() }
    }
}

/// Reading an enumerated value: the identifier, then the name.
#[verifier::opaque]
pub open spec fn parse_enum_value(s: Seq<u8>) -> Parsed<EnumValueModel> {
    match parse_bytes(s) {
        Err(e) => Err(e),
        Ok((id, n)) => match parse_string(s.skip(n as int)) {
            Err(e) => Err(e),
            Ok((display_name, m)) => Ok((EnumValueModel { id, display_name }, n + m)),
        },
    }
}

impl Serialize for EnumValue {
    open spec fn encoding(&self) -> Encoding {
        then(bytes_encoding(self.id@), string_encoding(self.display_name@))
    }

    fn serialize(&self, write: &mut Vec<u8>) -> (r: Result<(), Error>) {
        write.write_id(self.id.as_slice())?;
        match write.write_string(self.display_name.as_str()) {
            Ok(_) => {},
            Err(e) => {
                return Err(e);
            },
        }
        proof {
            let a = bytes_encoding(self.id@)->Ok_0;
            let b = string_encoding(self.display_name@)->Ok_0;
            assert(final(write)@ == old(write)@ + (a + b));
        }
        Ok(())
    }
}

impl Deserialize for EnumValue {
    type Model = EnumValueModel;

    open spec fn model(&self) -> EnumValueModel {
        self@
    }

    open spec fn parse(s: Seq<u8>) -> Parsed<EnumValueModel> {
        parse_enum_value(s)
    }

    fn deserialize(read: &mut ReadWindow<'_>) -> (r: Result<Self, Error>) {
        reveal(parse_enum_value);
        let mut cur = *read;
        let id = cur.read_id()?;
        let ghost n = parse_bytes(old(read).unread())->Ok_0.1;
        let display_name = cur.read_string()?;
        proof {
            let s = old(read).unread();
            let m = parse_string(s.skip(n as int))->Ok_0.1;
            assert(s.skip(n as int).skip(m as int) == s.skip((n + m) as int));
        }
        *read = cur;
        Ok(EnumValue { id, display_name })
    }
}

/// The type of the values of a channel.
#[derive(Debug, PartialEq, Eq)]
pub enum ValueType {
    Boolean,
    U8,
    U32,
    F32,
    RGB,
    Event,
    Enum(Vec<EnumValue>),
    String,
    Binary,
    Object,
}

/// What a value type holds.
pub enum ValueTypeModel {
    Boolean,
    U8,
    U32,
    F32,
    RGB,
    Event,
    Enum(Seq<EnumValueModel>),
    String,
    Binary,
    Object,
}

impl View for ValueType {
    type V = ValueTypeModel;

    open spec fn view(&self) -> ValueTypeModel {
        match self {
            ValueType::Boolean => ValueTypeModel::Boolean,
            ValueType::U8 => ValueTypeModel::U8,
            ValueType::U32 => ValueTypeModel::U32,
            ValueType::F32 => ValueTypeModel::F32,
            ValueType::RGB => ValueTypeModel::RGB,
            ValueType::Event => ValueTypeModel::Event,
            ValueType::Enum(values) => ValueTypeModel::Enum(models(values@)),
            ValueType::String => ValueTypeModel::String,
            ValueType::Binary => ValueTypeModel::Binary,
            ValueType::Object => ValueTypeModel::Object,
        }
    }
}

/// A copy of a list of enumerated values.
pub fn clone_enum_values(values: &Vec<EnumValue>) -> (r: Vec<EnumValue>)
    ensures
        models(r@) == models(values@),
{
    let mut out: Vec<EnumValue> = Vec::new();
    let mut i: usize = 0;
    while i < values.len()
        invariant
            i <= values.len(),
            out@.len() == i,
            forall|j: int| 0 <= j < i ==> out@[j]@ == values@[j]@,
        decreases values.len() - i,
    {
        out.push(values[i].clone());
        i = i + 1;
    }
    assert(models(out@) == models(values@));
    out
}

impl Clone for ValueType {
    fn clone(&self) -> (r: Self)
        ensures
            r@ == self@,
    {
        match self {
            ValueType::Boolean => ValueType::Boolean,
            ValueType::U8 => ValueType::U8,
            ValueType::U32 => ValueType::U32,
            ValueType::F32 => ValueType::F32,
            ValueType::RGB => ValueType::RGB,
            ValueType::Event => ValueType::Event,
            ValueType::Enum(values) => ValueType::Enum(clone_enum_values(values)),
            ValueType::String => ValueType::String,
            ValueType::Binary => ValueType::Binary,
            ValueType::Object => ValueType::Object,
        }
    }
}

impl ValueType {
    /// The byte that stands for the type on the wire.
    pub open spec fn tag(&self) -> u8 {
        match self {
            ValueType::Boolean => 0,
            ValueType::U8 => 1,
            ValueType::U32 => 2,
            ValueType::F32 => 3,
            ValueType::RGB => 4,
            ValueType::Event => 5,
            ValueType::Enum(_) => 6,
            ValueType::String => 7,
            ValueType::Binary => 8,
            ValueType::Object => 9,
        }
    }
}

/// Reading a value type: a tag, and for an enumerated type the number of
/// its values and the values.
#[verifier::opaque]
pub open spec fn parse_value_type(s: Seq<u8>) -> Parsed<ValueTypeModel> {
    match parse_u8(s) {
        Err(e) => Err(e),
        Ok((tag, _)) => if tag == 0 {
            Ok((ValueTypeModel::Boolean, 1))
        } else if tag == 1 {
            Ok((ValueTypeModel::U8, 1))
        } else if tag == 2 {
            Ok((ValueTypeModel::U32, 1))
        } else if tag == 3 {
            Ok((ValueTypeModel::F32, 1))
        } else if tag == 4 {
            Ok((ValueTypeModel::RGB, 1))
        } else if tag == 5 {
            Ok((ValueTypeModel::Event, 1))
        } else if tag == 6 {
            match parse_varlen(s.skip(1)) {
                Err(e) => Err(e),
                Ok((count, k)) => match parse_list::<EnumValue>(
                    count as nat,
                    s.skip(1).skip(k as int),
                ) {
                    Err(e) => Err(e),
                    Ok((values, n)) => Ok((ValueTypeModel::Enum(values), 1 + k + n)),
                },
            }
        } else if tag == 7 {
            Ok((ValueTypeModel::String, 1))
        } else if tag == 8 {
            Ok((ValueTypeModel::Binary, 1))
        } else if tag == 9 {
            Ok((ValueTypeModel::Object, 1))
        } else {
            Err(Error::InvalidId)
        },
    }
}

impl Serialize for ValueType {
    open spec fn encoding(&self) -> Encoding {
        match self {
            ValueType::Enum(values) => then(
                Ok(seq![6u8]),
                then(varlen_encoding(values@.len()), list_encoding(values@)),
            ),
            _ => Ok(seq![self.tag()]),
        }
    }

    fn serialize(&self, write: &mut Vec<u8>) -> (r: Result<(), Error>) {
        let id: u8 = match self {
            ValueType::Boolean => 0,
            ValueType::U8 => 1,
            ValueType::U32 => 2,
            ValueType::F32 => 3,
            ValueType::RGB => 4,
            ValueType::Event => 5,
            ValueType::Enum(_) => 6,
            ValueType::String => 7,
            ValueType::Binary => 8,
            ValueType::Object => 9,
        };
        write.write_u8(id);
        assert(write@ == old(write)@ + seq![id]);
        match self {
            ValueType::Enum(values) => {
                match write.write_varlen(values.len()) {
                    Ok(_) => {},
                    Err(e) => {
                        return Err(e);
                    },
                }
                match write_list(values, write) {
                    Ok(()) => {},
                    Err(e) => {
                        return Err(e);
                    },
                }
                proof {
                    let a = varlen_encoding(values@.len())->Ok_0;
                    let b = list_encoding(values@)->Ok_0;
                    assert(final(write)@ == old(write)@ + (seq![6u8] + (a + b)));
                }
            },
            _ => {},
        }
        Ok(())
    }
}

impl Deserialize for ValueType {
    type Model = ValueTypeModel;

    open spec fn model(&self) -> ValueTypeModel {
        self@
    }

    open spec fn parse(s: Seq<u8>) -> Parsed<ValueTypeModel> {
        parse_value_type(s)
    }

    fn deserialize(read: &mut ReadWindow<'_>) -> (r: Result<Self, Error>) {
        reveal(parse_value_type);
        let mut cur = *read;
        let id: u8 = cur.read_u8()?;
        let value_type = match id {
            0 => ValueType::Boolean,
            1 => ValueType::U8,
            2 => ValueType::U32,
            3 => ValueType::F32,
            4 => ValueType::RGB,
            5 => ValueType::Event,
            6 => {
                let count: usize = cur.read_varlen()?;
                let values = read_list::<EnumValue>(count, &mut cur)?;
                proof {
                    let s = old(read).unread();
                    let k = parse_varlen(s.skip(1))->Ok_0.1;
                    let n = parse_list::<EnumValue>(count as nat, s.skip(1).skip(k as int))->Ok_0.1;
                    assert(s.skip(1).skip(k as int).skip(n as int) == s.skip((1 + k + n) as int));
                }
                ValueType::Enum(values)
            },
            7 => ValueType::String,
            8 => ValueType::Binary,
            9 => ValueType::Object,
            _ => {
                return Err(Error::InvalidId);
            },
        };
        *read = cur;
        Ok(value_type)
    }
}

/// What kind of thing a channel drives or measures.
#[derive(Debug, Clone, Copy, PartialEq, Eq, Structural)]
pub enum ChannelKind {
    Other,
    ActorLamp,
    ActorWallSocket,
    ActorRelay,
    SensorTemperature,
    SensorButton,
    Volume,
    DeviceBorg,
    Unknown(u8),
}

impl ChannelKind {
    /// The byte that stands for the kind on the wire.
    pub open spec fn tag(self) -> u8 {
        match self {
            ChannelKind::Other => 0,
            ChannelKind::ActorLamp => 1,
            ChannelKind::ActorWallSocket => 2,
            ChannelKind::ActorRelay => 3,
            ChannelKind::SensorTemperature => 4,
            ChannelKind::SensorButton => 5,
            ChannelKind::Volume => 6,
            ChannelKind::DeviceBorg => 7,
            ChannelKind::Unknown(v) => v,
        }
    }

    /// Whether the kind is the one that its byte stands for: an unknown
    /// kind does not carry the byte of a known one.
    pub open spec fn canonical(self) -> bool {
        self matches ChannelKind::Unknown(v) ==> v > 7
    }

    /// The kind that a byte stands for.
    pub open spec fn of_tag(tag: u8) -> ChannelKind {
        if tag == 0 {
            ChannelKind::Other
        } else if tag == 1 {
            ChannelKind::ActorLamp
        } else if tag == 2 {
            ChannelKind::ActorWallSocket
        } else if tag == 3 {
            ChannelKind::ActorRelay
        } else if tag == 4 {
            ChannelKind::SensorTemperature
        } else if tag == 5 {
            ChannelKind::SensorButton
        } else if tag == 6 {
            ChannelKind::Volume
        } else if tag == 7 {
            ChannelKind::DeviceBorg
        } else {
            ChannelKind::Unknown(tag)
        }
    }
}

/// Reading a channel kind: one byte.
pub open spec fn parse_channel_kind(s: Seq<u8>) -> Parsed<ChannelKind> {
    match parse_u8(s) {
        Err(e) => Err(e),
        Ok((tag, n)) => Ok((ChannelKind::of_tag(tag), n)),
    }
}

impl Serialize for ChannelKind {
    open spec fn encoding(&self) -> Encoding {
        Ok(seq![self.tag()])
    }

    fn serialize(&self, write: &mut Vec<u8>) -> (r: Result<(), Error>) {
        let id: u8 = match self {
            ChannelKind::Other => 0,
            ChannelKind::ActorLamp => 1,
            ChannelKind::ActorWallSocket => 2,
            ChannelKind::ActorRelay => 3,
            ChannelKind::SensorTemperature => 4,
            ChannelKind::SensorButton => 5,
            ChannelKind::Volume => 6,
            ChannelKind::DeviceBorg => 7,
            ChannelKind::Unknown(v) => *v,
        };
        write.write_u8(id);
        assert(final(write)@ == old(write)@ + seq![id]);
        Ok(())
    }
}

impl Deserialize for ChannelKind {
    type Model = ChannelKind;

    open spec fn model(&self) -> ChannelKind {
        *self
    }

    open spec fn parse(s: Seq<u8>) -> Parsed<ChannelKind> {
        parse_channel_kind(s)
    }

    fn deserialize(read: &mut ReadWindow<'_>) -> (r: Result<Self, Error>) {
        let id: u8 = read.read_u8()?;
        Ok(
            match id {
                0 => ChannelKind::Other,
                1 => ChannelKind::ActorLamp,
                2 => ChannelKind::ActorWallSocket,
                3 => ChannelKind::ActorRelay,
                4 => ChannelKind::SensorTemperature,
                5 => ChannelKind::SensorButton,
                6 => ChannelKind::Volume,
                7 => ChannelKind::DeviceBorg,
                v => ChannelKind::Unknown(v),
            },
        )
    }
}

/// The flags of a channel, as one byte.
#[derive(Debug, Clone, Copy, PartialEq, Eq, Structural)]
pub struct ChannelFlags(pub u8);

/// Reading channel flags: one byte.
pub open spec fn parse_channel_flags(s: Seq<u8>) -> Parsed<ChannelFlags> {
    match parse_u8(s) {
        Err(e) => Err(e),
        Ok((bits, n)) => Ok((ChannelFlags(bits), n)),
    }
}

impl Serialize for ChannelFlags {
    open spec fn encoding(&self) -> Encoding {
        Ok(seq![self.0])
    }

    fn serialize(&self, write: &mut Vec<u8>) -> (r: Result<(), Error>) {
        write.write_u8(self.0);
        assert(final(write)@ == old(write)@ + seq![self.0]);
        Ok(())
    }
}

impl Deserialize for ChannelFlags {
    type Model = ChannelFlags;

    open spec fn model(&self) -> ChannelFlags {
        *self
    }

    open spec fn parse(s: Seq<u8>) -> Parsed<ChannelFlags> {
        parse_channel_flags(s)
    }

    fn deserialize(read: &mut ReadWindow<'_>) -> (r: Result<Self, Error>) {
        let bits: u8 = read.read_u8()?;
        Ok(ChannelFlags(bits))
    }
}

/// A channel of a device.
#[derive(Debug, PartialEq, Eq)]
pub struct ChannelDescriptor {
    pub flags: ChannelFlags,
    pub room: ID,
    pub display_name: String,
    pub value_type: ValueType,
    pub channel_kind: ChannelKind,
}

/// What a channel descriptor holds.
pub struct ChannelModel {
    pub flags: ChannelFlags,
    pub room: Seq<u8>,
    pub display_name: Seq<char>,
    pub value_type: ValueTypeModel,
    pub channel_kind: ChannelKind,
}

impl View for ChannelDescriptor {
    type V = ChannelModel;

    open spec fn view(&self) -> ChannelModel {
        ChannelModel {
            flags: self.flags,
            room: self.room@,
            display_name: self.display_name@,
            value_type: self.value_type@,
            channel_kind: self.channel_kind,
        }
    }
}

impl Clone for ChannelDescriptor {
    fn clone(&self) -> (r: Self)
        ensures
            r@ == self@,
    {
        ChannelDescriptor {
            flags: self.flags,
            room: self.room.clone(),
            display_name: self.display_name.clone(),
            value_type: self.value_type.clone(),
            channel_kind: self.channel_kind,
        }
    }
}

/// Reading a channel: a window that holds the flags, the room, the name,
/// the value type and the kind.
#[verifier::opaque]
pub open spec fn parse_channel(s: Seq<u8>) -> Parsed<ChannelModel> {
    match open_window(s) {
        Err(e) => Err(e),
        Ok(w) => match parse_channel_flags(w.body) {
            Err(e) => Err(e),
            Ok((flags, n1)) => match parse_bytes(w.body.skip(n1 as int)) {
                Err(e) => Err(e),
                Ok((room, n2)) => match parse_string(w.body.skip(n1 as int).skip(n2 as int)) {
                    Err(e) => Err(e),
                    Ok((display_name, n3)) => match parse_value_type(
                        w.body.skip(n1 as int).skip(n2 as int).skip(n3 as int),
                    ) {
                        Err(e) => Err(e),
                        Ok((value_type, n4)) => match parse_channel_kind(
                            w.body.skip(n1 as int).skip(n2 as int).skip(n3 as int).skip(n4 as int),
                        ) {
                            Err(e) => Err(e),
                            Ok((channel_kind, _)) => close_window(
                                w,
                                ChannelModel { flags, room, display_name, value_type, channel_kind },
                            ),
                        },
                    },
                },
            },
        },
    }
}

impl Serialize for ChannelDescriptor {
    open spec fn encoding(&self) -> Encoding {
        windowed(
            then(
                then(
                    then(
                        then(self.flags.encoding(), bytes_encoding(self.room@)),
                        string_encoding(self.display_name@),
                    ),
                    self.value_type.encoding(),
                ),
                self.channel_kind.encoding(),
            ),
        )
    }

    fn serialize(&self, write: &mut Vec<u8>) -> (r: Result<(), Error>)
        ensures
            r is Err ==> final(write)@ == old(write)@,
    {
        let mut window = write.write_window();
        self.flags.serialize(&mut window.buffer)?;
        window.write_id(self.room.as_slice())?;
        window.write_string(self.display_name.as_str())?;
        self.value_type.serialize(&mut window.buffer)?;
        self.channel_kind.serialize(&mut window.buffer)?;
        proof {
            let a = self.flags.encoding()->Ok_0;
            let b = bytes_encoding(self.room@)->Ok_0;
            let c = string_encoding(self.display_name@)->Ok_0;
            let d = self.value_type.encoding()->Ok_0;
            let e = self.channel_kind.encoding()->Ok_0;
            assert(window.buffer@ == (((a + b) + c) + d) + e);
        }
        window.finish(write)
    }
}

impl Deserialize for ChannelDescriptor {
    type Model = ChannelModel;

    open spec fn model(&self) -> ChannelModel {
        self@
    }

    open spec fn parse(s: Seq<u8>) -> Parsed<ChannelModel> {
        parse_channel(s)
    }

    fn deserialize(read: &mut ReadWindow<'_>) -> (r: Result<Self, Error>) {
        reveal(parse_channel);
        let mut cur = *read;
        let mut window = cur.read_window()?;
        let flags = ChannelFlags::deserialize(&mut window)?;
        let room = window.read_id()?;
        let display_name = window.read_string()?;
        let value_type = ValueType::deserialize(&mut window)?;
        let channel_kind = ChannelKind::deserialize(&mut window)?;
        window.skip_to_end()?;
        *read = cur;
        Ok(ChannelDescriptor { flags, room, display_name, value_type, channel_kind })
    }
}

/// A device and its channels.
#[derive(Debug, PartialEq, Eq)]
pub struct DeviceDescriptor {
    pub id: ID,
    pub display_name: String,
    pub wiki_url: String,
    pub channels: Vec<ChannelDescriptor>,
}

/// What a device descriptor holds.
pub struct DeviceModel {
    pub id: Seq<u8>,
    pub display_name: Seq<char>,
    pub wiki_url: Seq<char>,
    pub channels: Seq<ChannelModel>,
}

impl View for DeviceDescriptor {
    type V = DeviceModel;

    open spec fn view(&self) -> DeviceModel {
        DeviceModel {
            id: self.id@,
            display_name: self.display_name@,
            wiki_url: self.wiki_url@,
            channels: models(self.channels@),
        }
    }
}

impl DeviceDescriptor {
    /// Whether each channel's kind is the one that its byte stands for.
    pub open spec fn canonical(&self) -> bool {
        forall|i: int| 0 <= i < self.channels@.len() ==> (#[trigger] self.channels@[i]).channel_kind.canonical()
    }
}

/// A copy of a list of channels.
pub fn clone_channels(channels: &Vec<ChannelDescriptor>) -> (r: Vec<ChannelDescriptor>)
    ensures
        models(r@) == models(channels@),
{
    let mut out: Vec<ChannelDescriptor> = Vec::new();
    let mut i: usize = 0;
    while i < channels.len()
        invariant
            i <= channels.len(),
            out@.len() == i,
            forall|j: int| 0 <= j < i ==> out@[j]@ == channels@[j]@,
        decreases channels.len() - i,
    {
        out.push(channels[i].clone());
        i = i + 1;
    }
    assert(models(out@) == models(channels@));
    out
}

impl Clone for DeviceDescriptor {
    fn clone(&self) -> (r: Self)
        ensures
            r@ == self@,
    {
        DeviceDescriptor {
            id: self.id.clone(),
            display_name: self.display_name.clone(),
            wiki_url: self.wiki_url.clone(),
            channels: clone_channels(&self.channels),
        }
    }
}

/// Reading a device: a window that holds the identifier, the name, the
/// address of its documentation, the number of its channels and the
/// channels.
#[verifier::opaque]
pub open spec fn parse_device(s: Seq<u8>) -> Parsed<DeviceModel> {
    match open_window(s) {
        Err(e) => Err(e),
        Ok(w) => match parse_bytes(w.body) {
            Err(e) => Err(e),
            Ok((id, n1)) => match parse_string(w.body.skip(n1 as int)) {
                Err(e) => Err(e),
                Ok((display_name, n2)) => match parse_string(
                    w.body.skip(n1 as int).skip(n2 as int),
                ) {
                    Err(e) => Err(e),
                    Ok((wiki_url, n3)) => match parse_varlen(
                        w.body.skip(n1 as int).skip(n2 as int).skip(n3 as int),
                    ) {
                        Err(e) => Err(e),
                        Ok((count, n4)) => match parse_list::<ChannelDescriptor>(
                            count as nat,
                            w.body.skip(n1 as int).skip(n2 as int).skip(n3 as int).skip(n4 as int),
                        ) {
                            Err(e) => Err(e),
                            Ok((channels, _)) => close_window(
                                w,
                                DeviceModel { id, display_name, wiki_url, channels },
                            ),
                        },
                    },
                },
            },
        },
    }
}

impl Serialize for DeviceDescriptor {
    open spec fn encoding(&self) -> Encoding {
        windowed(
            then(
                then(
                    then(
                        then(bytes_encoding(self.id@), string_encoding(self.display_name@)),
                        string_encoding(self.wiki_url@),
                    ),
                    varlen_encoding(self.channels@.len()),
                ),
                list_encoding(self.channels@),
            ),
        )
    }

    fn serialize(&self, write: &mut Vec<u8>) -> (r: Result<(), Error>)
        ensures
            r is Err ==> final(write)@ == old(write)@,
    {
        let mut window = write.write_window();
        window.write_id(self.id.as_slice())?;
        window.write_string(self.display_name.as_str())?;
        window.write_string(self.wiki_url.as_str())?;
        window.write_varlen(self.channels.len())?;
        write_list(&self.channels, &mut window.buffer)?;
        proof {
            let a = bytes_encoding(self.id@)->Ok_0;
            let b = string_encoding(self.display_name@)->Ok_0;
            let c = string_encoding(self.wiki_url@)->Ok_0;
            let d = varlen_encoding(self.channels@.len())->Ok_0;
            let e = list_encoding(self.channels@)->Ok_0;
            assert(window.buffer@ == (((a + b) + c) + d) + e);
        }
        window.finish(write)
    }
}

impl Deserialize for DeviceDescriptor {
    type Model = DeviceModel;

    open spec fn model(&self) -> DeviceModel {
        self@
    }

    open spec fn parse(s: Seq<u8>) -> Parsed<DeviceModel> {
        parse_device(s)
    }

    fn deserialize(read: &mut ReadWindow<'_>) -> (r: Result<Self, Error>) {
        reveal(parse_device);
        let mut cur = *read;
        let mut window = cur.read_window()?;
        let id = window.read_id()?;
        let display_name = window.read_string()?;
        let wiki_url = window.read_string()?;
        let channel_count: usize = window.read_varlen()?;
        let channels = read_list::<ChannelDescriptor>(channel_count, &mut window)?;
        window.skip_to_end()?;
        *read = cur;
        Ok(DeviceDescriptor { id, display_name, wiki_url, channels })
    }
}

/// A copy of a list of devices.
pub fn clone_devices(devices: &Vec<DeviceDescriptor>) -> (r: Vec<DeviceDescriptor>)
    ensures
        models(r@) == models(devices@),
{
    let mut out: Vec<DeviceDescriptor> = Vec::new();
    let mut i: usize = 0;
    while i < devices.len()
        invariant
            i <= devices.len(),
            out@.len() == i,
            forall|j: int| 0 <= j < i ==> out@[j]@ == devices@[j]@,
        decreases devices.len() - i,
    {
        out.push(devices[i].clone());
        i = i + 1;
    }
    assert(models(out@) == models(devices@));
    out
}

} // verus!
