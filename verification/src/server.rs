//! The request dispatcher of the control protocol's server: what is
//! answered at once, and what is handed to the driver of a channel.

use vstd::prelude::*;
use vstd::string::StringExecFns;
use ciborium::value::Value;
use crate::hook::bytes_equal;
use crate::proto::descriptor::{
    clone_devices, clone_rooms, DeviceDescriptor, ErrorCode, RoomDescriptor,
};
use crate::proto::list::models;
use crate::proto::message::{Message, ToClientModel, ToClientPayload, ToServerPayload};

verus! {

/// A driver that was set up for a channel, and the path to the channel.
/// The running driver is known by its place in the list of the core.
#[derive(Debug, PartialEq, Eq)]
pub struct LoadedDriver {
    pub device: Vec<u8>,
    pub room: Vec<u8>,
    pub channel: Vec<u8>,
    /// The name under which the driver is registered.
    pub driver: String,
}

/// What a loaded driver holds.
pub struct LoadedDriverView {
    pub device: Seq<u8>,
    pub room: Seq<u8>,
    pub channel: Seq<u8>,
    pub driver: Seq<char>,
}

impl View for LoadedDriver {
    type V = LoadedDriverView;

    open spec fn view(&self) -> LoadedDriverView {
        LoadedDriverView {
            device: self.device@,
            room: self.room@,
            channel: self.channel@,
            driver: self.driver@,
        }
    }
}

impl LoadedDriver {
    /// Whether the driver serves the channel of the path.
    pub open spec fn serves(&self, device: Seq<u8>, room: Seq<u8>, channel: Seq<u8>) -> bool {
        self.device@ == device && self.room@ == room && self.channel@ == channel
    }
}

/// What the server knows: the rooms and devices of the building, and the
/// drivers of their channels.
pub struct Core {
    pub rooms: Vec<RoomDescriptor>,
    pub devices: Vec<DeviceDescriptor>,
    pub drivers: Vec<LoadedDriver>,
}

/// What is asked of a driver.
#[derive(Debug, PartialEq)]
pub enum DriverCommand {
    /// To send each value that the channel takes from now on.
    Subscribe,
    /// To send the value of the channel.
    GetValue,
    /// To set the channel to the value, and to acknowledge it.
    SetValue(Value),
}

/// What is to be done with a request.
#[derive(Debug, PartialEq)]
pub enum Dispatch {
    /// The response is to be sent at once.
    Reply(Message<ToClientPayload>),
    /// The command is to be handed to the driver at this place of the
    /// core's list; what the driver answers is to be sent under the number
    /// of the request.
    Forward { driver: usize, command: DriverCommand, request_id: u64 },
}

/// The message of the refusal that a path without a driver gets.
pub open spec fn not_found_text() -> Seq<char> {
    "Could not find Device, Room or Channel"@
}

impl Core {
    /// The place of the first device with the identifier, if there is one.
    pub open spec fn device_at(&self, name: Seq<u8>, at: int) -> bool {
        &&& 0 <= at < self.devices@.len()
        &&& self.devices@[at].id@ == name
        &&& forall|j: int| 0 <= j < at ==> (#[trigger] self.devices@[j]).id@ != name
    }

    /// The place of the first driver that serves the channel of the path.
    pub open spec fn driver_at(&self, device: Seq<u8>, room: Seq<u8>, channel: Seq<u8>, at: int)
        -> bool {
        &&& 0 <= at < self.drivers@.len()
        &&& self.drivers@[at].serves(device, room, channel)
        &&& forall|j: int| 0 <= j < at ==> !(#[trigger] self.drivers@[j]).serves(device, room, channel)
    }

    /// The first device with the identifier `name`.
    pub fn find_device(&self, name: &[u8]) -> (r: Option<&DeviceDescriptor>)
        ensures
            match r {
                Some(device) => exists|at: int|
                    self.device_at(name@, at) && *device == self.devices@[at],
                None => forall|j: int|
                    0 <= j < self.devices@.len() ==> (#[trigger] self.devices@[j]).id@ != name@,
            },
    {
        let mut i: usize = 0;
        while i < self.devices.len()
            invariant
                i <= self.devices.len(),
                forall|j: int| 0 <= j < i ==> (#[trigger] self.devices@[j]).id@ != name@,
            decreases self.devices.len() - i,
        {
            if bytes_equal(self.devices[i].id.as_slice(), name) {
                assert(self.device_at(name@, i as int));
                return Some(&self.devices[i]);
            }
            i = i + 1;
        }
        None
    }

    /// The place of the first driver that serves the channel of the path.
    pub fn find_driver(&self, device: &[u8], room: &[u8], channel: &[u8]) -> (r: Option<usize>)
        ensures
            match r {
                Some(at) => self.driver_at(device@, room@, channel@, at as int),
                None => forall|j: int|
                    0 <= j < self.drivers@.len() ==> !(#[trigger] self.drivers@[j]).serves(
                        device@,
                        room@,
                        channel@,
                    ),
            },
    {
        let mut i: usize = 0;
        while i < self.drivers.len()
            invariant
                i <= self.drivers.len(),
                forall|j: int|
                    0 <= j < i ==> !(#[trigger] self.drivers@[j]).serves(device@, room@, channel@),
            decreases self.drivers.len() - i,
        {
            let ld = &self.drivers[i];
            if bytes_equal(ld.device.as_slice(), device) && bytes_equal(ld.room.as_slice(), room)
                && bytes_equal(ld.channel.as_slice(), channel) {
                return Some(i);
            }
            i = i + 1;
        }
        None
    }

    /// The refusal that a request for a path without a driver gets.
    pub fn not_found(request_id: u64) -> (r: Message<ToClientPayload>)
        ensures
            r.request_id == request_id,
            r.payload@ == (ToClientModel::Failed {
                code: ErrorCode::NoSuchChannel,
                message: not_found_text(),
            }),
    {
        Message {
            request_id,
            payload: ToClientPayload::Failed {
                code: ErrorCode::NoSuchChannel,
                message: String::from_str("Could not find Device, Room or Channel"),
            },
        }
    }

    /// What is to be done with a command for the channel of a path: it is
    /// handed to the driver of the channel, or refused where there is none.
    pub fn route(
        &self,
        request_id: u64,
        device: &[u8],
        room: &[u8],
        channel: &[u8],
        command: DriverCommand,
    ) -> (r: Dispatch)
        ensures
            routed(*self, request_id, device@, room@, channel@, command, r),
    {
        match self.find_driver(device, room, channel) {
            Some(driver) => Dispatch::Forward { driver, command, request_id },
            None => Dispatch::Reply(Core::not_found(request_id)),
        }
    }

    /// What is to be done with a request.
    ///
    /// `Hello` is answered by `Welcome`, and `GetDevices` by the rooms and
    /// devices of the core. A request for a channel is handed to the driver
    /// of the channel: the value to set, the wish for the value, or the
    /// wish for every value from now on; where the path has no driver, it
    /// is refused as `NoSuchChannel`. Every response carries the number of
    /// the request.
    pub fn dispatch(&self, message: Message<ToServerPayload>) -> (r: Dispatch)
        ensures
            dispatched(*self, message, r),
    {
        let request_id: u64 = message.request_id;
        match message.payload {
            ToServerPayload::Hello => Dispatch::Reply(
                Message { request_id, payload: ToClientPayload::Welcome },
            ),
            ToServerPayload::GetDevices => Dispatch::Reply(
                Message {
                    request_id,
                    payload: ToClientPayload::Devices {
                        rooms: clone_rooms(&self.rooms),
                        devices: clone_devices(&self.devices),
                    },
                },
            ),
            ToServerPayload::SetChannel { device, room, channel, value } => self.route(
                request_id,
                device.as_slice(),
                room.as_slice(),
                channel.as_slice(),
                DriverCommand::SetValue(value),
            ),
            ToServerPayload::GetChannel { device, room, channel } => self.route(
                request_id,
                device.as_slice(),
                room.as_slice(),
                channel.as_slice(),
                DriverCommand::GetValue,
            ),
            ToServerPayload::SubscribeChannel { device, room, channel } => self.route(
                request_id,
                device.as_slice(),
                room.as_slice(),
                channel.as_slice(),
                DriverCommand::Subscribe,
            ),
        }
    }
}

/// What routing a command comes to.
pub open spec fn routed(
    core: Core,
    request_id: u64,
    device: Seq<u8>,
    room: Seq<u8>,
    channel: Seq<u8>,
    command: DriverCommand,
    r: Dispatch,
) -> bool {
    if exists|at: int| core.driver_at(device, room, channel, at) {
        r matches Dispatch::Forward { driver, command: handed, request_id: id } && core.driver_at(
            device,
            room,
            channel,
            driver as int,
        ) && handed == command && id == request_id
    } else {
        r matches Dispatch::Reply(m) && m.request_id == request_id && m.payload@ == (
        ToClientModel::Failed { code: ErrorCode::NoSuchChannel, message: not_found_text() })
    }
}

/// What dispatching a request comes to.
pub open spec fn dispatched(core: Core, message: Message<ToServerPayload>, r: Dispatch) -> bool {
    match message.payload {
        ToServerPayload::Hello => r matches Dispatch::Reply(m) && m.request_id
            == message.request_id && m.payload@ == ToClientModel::Welcome,
        ToServerPayload::GetDevices => r matches Dispatch::Reply(m) && m.request_id
            == message.request_id && m.payload@ == (ToClientModel::Devices {
            rooms: models(core.rooms@),
            devices: models(core.devices@),
        }),
        ToServerPayload::SetChannel { device, room, channel, value } => routed(
            core,
            message.request_id,
            device@,
            room@,
            channel@,
            DriverCommand::SetValue(value),
            r,
        ),
        ToServerPayload::GetChannel { device, room, channel } => routed(
            core,
            message.request_id,
            device@,
            room@,
            channel@,
            DriverCommand::GetValue,
            r,
        ),
        ToServerPayload::SubscribeChannel { device, room, channel } => routed(
            core,
            message.request_id,
            device@,
            room@,
            channel@,
            DriverCommand::Subscribe,
            r,
        ),
    }
}

/// The response to a `SetChannel` that the driver has acknowledged.
pub fn acknowledged(request_id: u64) -> (r: Message<ToClientPayload>)
    ensures
        r.request_id == request_id,
        r.payload@ == ToClientModel::Okay,
{
    Message { request_id, payload: ToClientPayload::Okay }
}

/// The response that carries a value of a channel: to a `GetChannel`, and
/// for each value to a `SubscribeChannel`.
pub fn channel_value(request_id: u64, value: Value) -> (r: Message<ToClientPayload>)
    ensures
        r.request_id == request_id,
        r.payload@ == (ToClientModel::ChannelValue { flags: 0, value }),
{
    Message { request_id, payload: ToClientPayload::ChannelValue { flags: 0, value } }
}

} // verus!
