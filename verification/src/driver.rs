//! The drivers of channels: the registry of drivers by name, and the
//! setting up of a driver for a channel of the configuration.

use vstd::prelude::*;
use vstd::string::StringExecFns;
use vstd::utf8::encode_utf8;
use vstd::string::StringSliceAdditionalSpecFns;
use ciborium::value::Value;
use crate::proto::descriptor::{
    ChannelDescriptor, ChannelFlags, ChannelKind, ChannelModel, ValueType, ValueTypeModel,
};

verus! {

/// A channel as the configuration describes it.
#[derive(Debug, PartialEq)]
pub struct Channel {
    pub id: String,
    pub display_name: String,
    pub room: String,
    pub kind: ChannelKind,
    /// The name of the driver that serves the channel.
    pub driver: String,
    /// What the configuration hands to the driver, by name.
    pub driver_options: Vec<(String, Value)>,
}

/// Why a driver could not be set up.
#[derive(Debug, PartialEq, Eq)]
pub enum DriverError {
    /// No driver is registered under the name.
    UnknownDriver(String),
    /// The driver refused the channel.
    Refused(String),
}

/// A driver: it can be set up for a channel, and then describes the
/// channel that it serves.
pub trait Driver {
    /// Sets the driver up for the channel.
    fn create_instance(&self, ch: Channel) -> Result<ChannelDescriptor, DriverError>;
}

/// The bytes of a text.
pub fn text_bytes(text: &String) -> (bytes: Vec<u8>)
    ensures
        bytes@ == encode_utf8(text@),
{
    vstd::slice::slice_to_vec(text.as_str().as_bytes())
}

/// The driver of a lamp.
pub struct Lamp;

/// The flags of a lamp's channel.
pub const LAMP_FLAGS: u8 = 0x7;

/// The channel that a lamp serves: one byte of brightness, in the room
/// and under the name and kind that the configuration gives.
pub open spec fn lamp_channel(ch: Channel) -> ChannelModel {
    ChannelModel {
        flags: ChannelFlags(LAMP_FLAGS),
        room: encode_utf8(ch.room@),
        display_name: ch.display_name@,
        value_type: ValueTypeModel::U8,
        channel_kind: ch.kind,
    }
}

impl Driver for Lamp {
    fn create_instance(&self, ch: Channel) -> (r: Result<ChannelDescriptor, DriverError>)
        ensures
            r matches Ok(d) && d@ == lamp_channel(ch),
    {
        Ok(
            ChannelDescriptor {
                flags: ChannelFlags(LAMP_FLAGS),
                room: text_bytes(&ch.room),
                display_name: ch.display_name,
                value_type: ValueType::U8,
                channel_kind: ch.kind,
            },
        )
    }
}

/// The registry of drivers by name. No name is registered twice.
pub struct DriverManager<D: Driver> {
    names: Vec<String>,
    drivers: Vec<D>,
}

/// The names of a list of texts.
pub open spec fn texts(list: Seq<String>) -> Seq<Seq<char>> {
    Seq::new(list.len(), |i: int| list[i]@)
}

impl<D: Driver> DriverManager<D> {
    /// Whether the registry is in order: each name has its driver, and no
    /// name stands twice.
    pub closed spec fn wf(&self) -> bool {
        self.names@.len() == self.drivers@.len() && texts(self.names@).no_duplicates()
    }

    /// The names under which drivers are registered, in the order of
    /// their registration.
    pub closed spec fn names(&self) -> Seq<Seq<char>> {
        texts(self.names@)
    }

    /// The registered drivers, each at the place of its name.
    pub closed spec fn drivers(&self) -> Seq<D> {
        self.drivers@
    }

    /// The place of a name among the registered names.
    pub open spec fn place(&self, name: Seq<char>) -> int {
        self.names().index_of(name)
    }

    /// A registry without drivers.
    pub fn new() -> (m: DriverManager<D>)
        ensures
            m.wf(),
            m.names() == Seq::<Seq<char>>::empty(),
            m.drivers() == Seq::<D>::empty(),
    {
        let m = DriverManager { names: Vec::new(), drivers: Vec::new() };
        assert(texts(m.names@) == Seq::<Seq<char>>::empty());
        m
    }

    /// The place of the driver of a name, if one is registered under it.
    fn position(&self, driver_id: &String) -> (r: Option<usize>)
        requires
            self.wf(),
        ensures
            match r {
                Some(at) => at < self.names().len() && self.names()[at as int] == driver_id@
                    && at == self.place(driver_id@),
                None => !self.names().contains(driver_id@),
            },
    {
        let mut i: usize = 0;
        while i < self.names.len()
            invariant
                self.wf(),
                i <= self.names.len(),
                forall|j: int| 0 <= j < i ==> self.names@[j]@ != driver_id@,
            decreases self.names.len() - i,
        {
            if self.names[i] == *driver_id {
                proof {
                    let names = texts(self.names@);
                    assert(names[i as int] == driver_id@);
                    let first = names.index_of(driver_id@);
                    assert(0 <= first < names.len() && names[first] == driver_id@);
                    if first != i {
                        assert(names[first] != names[i as int]);
                    }
                }
                return Some(i);
            }
            i = i + 1;
        }
        proof {
            if texts(self.names@).contains(driver_id@) {
                let j = choose|j: int|
                    0 <= j < texts(self.names@).len() && texts(self.names@)[j] == driver_id@;
                assert(self.names@[j]@ == driver_id@);
            }
        }
        None
    }

    /// Registers a driver under a name. A driver that was registered under
    /// the name gives way to it.
    pub fn register_driver(&mut self, driver_id: String, driver: D)
        requires
            old(self).wf(),
        ensures
            final(self).wf(),
            final(self).names() == (if old(self).names().contains(driver_id@) {
                old(self).names()
            } else {
                old(self).names().push(driver_id@)
            }),
            final(self).drivers() == (if old(self).names().contains(driver_id@) {
                old(self).drivers().update(old(self).place(driver_id@), driver)
            } else {
                old(self).drivers().push(driver)
            }),
    {
        match self.position(&driver_id) {
            Some(at) => {
                self.drivers[at] = driver;
            },
            None => {
                let ghost before = texts(self.names@);
                self.names.push(driver_id);
                self.drivers.push(driver);
                proof {
                    assert(texts(self.names@) == before.push(driver_id@));
                    assert(before.push(driver_id@).no_duplicates()) by {
                        let after = before.push(driver_id@);
                        assert forall|i: int, j: int|
                            0 <= i < after.len() && 0 <= j < after.len() && i != j implies after[i]
                            != after[j] by {
                            if i < before.len() && j < before.len() {
                            } else if i < before.len() {
                                assert(before.contains(before[i]));
                            } else {
                                assert(before.contains(before[j]));
                            }
                        }
                    }
                }
            },
        }
    }

    /// Whether `r` is an answer to the setting up of a channel: where no
    /// driver is registered under the name that the channel gives, the
    /// failure as an unknown driver; else an answer that the driver of the
    /// name gives for the channel.
    pub open spec fn answers(&self, ch: Channel, r: Result<ChannelDescriptor, DriverError>) -> bool {
        if self.names().contains(ch.driver@) {
            call_ensures(D::create_instance, (&self.drivers()[self.place(ch.driver@)], ch), r)
        } else {
            r matches Err(DriverError::UnknownDriver(name)) && name@ == ch.driver@
        }
    }

    /// Sets up the driver that the channel names. Where no driver is
    /// registered under the name, this fails as an unknown driver; else the
    /// answer is one that the driver of the name gives for the channel.
    pub fn init_driver(&self, ch: Channel) -> (r: Result<ChannelDescriptor, DriverError>)
        requires
            self.wf(),
        ensures
            self.answers(ch, r),
    {
        match self.position(&ch.driver) {
            Some(at) => self.drivers[at].create_instance(ch),
            None => Err(DriverError::UnknownDriver(ch.driver)),
        }
    }

    /// The number of registered drivers.
    pub fn len(&self) -> (n: usize)
        ensures
            n == self.names().len(),
    {
        self.names.len()
    }
}

/// The registry with the drivers that are built in: the lamp, as `lamp`.
pub fn init() -> (m: DriverManager<Lamp>)
    ensures
        m.wf(),
        m.names() == seq!["lamp"@],
        m.drivers() == seq![Lamp],
{
    let mut m = DriverManager::new();
    m.register_driver(String::from_str("lamp"), Lamp);
    assert(m.names() == seq!["lamp"@]);
    m
}

} // verus!
