//! The client of the control protocol: the handshake, the numbering of
//! requests, and the matching of responses to the requests they answer.

use vstd::prelude::*;
use std::collections::HashMap;
use crate::hook::bytes_equal;
use crate::proto::descriptor::{
    ChannelDescriptor, ChannelModel, DeviceDescriptor, DeviceModel, ErrorCode, RoomDescriptor,
};
use crate::proto::list::models;
use crate::proto::message::{Message, ToClientPayload, ToServerPayload};

verus! {

broadcast use vstd::std_specs::hash::group_hash_axioms;

/// Why a request of the client failed.
#[derive(Debug, PartialEq, Eq)]
pub enum Error {
    /// The bytes of the server are no message.
    ProtocolError(crate::proto::error::Error),
    /// The server answered the handshake under another number.
    InvalidResponseId,
    /// The server answered with a response that the request does not have.
    UnexpectedResponseType,
    /// The server did not answer the handshake in time.
    ResponeTimeout,
    /// The server refused the request.
    ServerError { code: ErrorCode, message: String },
}

/// The number of the handshake.
pub const HANDSHAKE_ID: u64 = 1;

/// The number of the first request after the handshake.
pub const FIRST_REQUEST_ID: u64 = 2;

/// The time that the server has to answer the handshake, in seconds.
pub const HANDSHAKE_TIMEOUT_SECS: u64 = 5;

/// The message that opens a connection.
pub fn hello() -> (m: Message<ToServerPayload>)
    ensures
        m.request_id == HANDSHAKE_ID,
        m.payload is Hello,
{
    Message { request_id: HANDSHAKE_ID, payload: ToServerPayload::Hello }
}

/// Whether the server's first message completes the handshake: it is
/// `Welcome` under the number of the handshake.
pub fn check_welcome(response: &Message<ToClientPayload>) -> (r: Result<(), Error>)
    ensures
        match r {
            Ok(()) => response.request_id == HANDSHAKE_ID && response.payload is Welcome,
            Err(e) => if response.request_id != HANDSHAKE_ID {
                e is InvalidResponseId
            } else {
                e is UnexpectedResponseType && !(response.payload is Welcome)
            },
        },
{
    if response.request_id != HANDSHAKE_ID {
        return Err(Error::InvalidResponseId);
    }
    match response.payload {
        ToClientPayload::Welcome => Ok(()),
        _ => Err(Error::UnexpectedResponseType),
    }
}

/// What the response to `GetDevices` comes to: the rooms and devices, the
/// server's refusal, or a response of another type.
pub fn devices_response(payload: ToClientPayload) -> (r: Result<
    (Vec<RoomDescriptor>, Vec<DeviceDescriptor>),
    Error,
>)
    ensures
        match payload {
            ToClientPayload::Devices { rooms, devices } => r matches Ok(p) && p.0 == rooms && p.1
                == devices,
            ToClientPayload::Failed { code, message } => r matches Err(
                Error::ServerError { code: c, message: m },
            ) && c == code && m == message,
            _ => r matches Err(Error::UnexpectedResponseType),
        },
{
    match payload {
        ToClientPayload::Devices { rooms, devices } => Ok((rooms, devices)),
        ToClientPayload::Failed { code, message } => Err(
            Error::ServerError { code, message },
        ),
        _ => Err(Error::UnexpectedResponseType),
    }
}

/// What the response to `SetChannel` comes to: done, the server's
/// refusal, or a response of another type.
pub fn set_response(payload: ToClientPayload) -> (r: Result<(), Error>)
    ensures
        match payload {
            ToClientPayload::Okay => r is Ok,
            ToClientPayload::Failed { code, message } => r matches Err(
                Error::ServerError { code: c, message: m },
            ) && c == code && m == message,
            _ => r matches Err(Error::UnexpectedResponseType),
        },
{
    match payload {
        ToClientPayload::Okay => Ok(()),
        ToClientPayload::Failed { code, message } => Err(
            Error::ServerError { code, message },
        ),
        _ => Err(Error::UnexpectedResponseType),
    }
}

/// What is to be done with a message of the server.
#[derive(Debug, PartialEq)]
pub enum Delivery {
    /// The payload goes to the one who made the request of this number.
    /// After the last payload the request is forgotten.
    Forward { req_id: u64, payload: ToClientPayload, last: bool },
    /// Nobody waits for the message: it is dropped.
    Dropped(Message<ToClientPayload>),
}

/// The requests that wait for responses. Of each it knows whether it
/// waits for one response or for many.
pub struct Correlator {
    next_req_id: u64,
    subscriptions: HashMap<u64, bool>,
}

impl Correlator {
    /// The number that the next request gets.
    pub closed spec fn next_id(&self) -> u64 {
        self.next_req_id
    }

    /// The waiting requests: for the number of each, whether it waits for
    /// many responses.
    pub closed spec fn waiting(&self) -> Map<u64, bool> {
        self.subscriptions@
    }

    /// A correlator of a connection whose handshake is done: no request
    /// waits, and the first gets the number after the handshake's.
    pub fn new() -> (c: Correlator)
        ensures
            c.next_id() == FIRST_REQUEST_ID,
            c.waiting() == Map::<u64, bool>::empty(),
    {
        Correlator { next_req_id: FIRST_REQUEST_ID, subscriptions: HashMap::new() }
    }

    /// Gives the request the next number and lets it wait, for one
    /// response or for many. The numbers rise by one; when they are used
    /// up no request is made.
    pub fn send_request(&mut self, payload: ToServerPayload, multi_response: bool) -> (r: Option<
        Message<ToServerPayload>,
    >)
        ensures
            match r {
                Some(m) => old(self).next_id() < u64::MAX && m.request_id == old(self).next_id()
                    && m.payload == payload && final(self).next_id() == old(self).next_id() + 1
                    && final(self).waiting() == old(self).waiting().insert(
                    m.request_id,
                    multi_response,
                ),
                None => old(self).next_id() == u64::MAX && final(self).next_id() == old(
                    self,
                ).next_id() && final(self).waiting() == old(self).waiting(),
            },
    {
        if self.next_req_id == u64::MAX {
            return None;
        }
        let req_id: u64 = self.next_req_id;
        self.next_req_id = req_id + 1;
        self.subscriptions.insert(req_id, multi_response);
        Some(Message { request_id: req_id, payload })
    }

    /// Forgets the request of the number, if it waits.
    pub fn unregister(&mut self, req_id: u64)
        ensures
            final(self).next_id() == old(self).next_id(),
            final(self).waiting() == old(self).waiting().remove(req_id),
    {
        self.subscriptions.remove(&req_id);
    }

    /// Takes a message of the server. Its payload goes to the request of
    /// its number, which is forgotten unless it waits for many responses.
    /// A message for which no request waits is dropped.
    pub fn message_received(&mut self, message: Message<ToClientPayload>) -> (r: Delivery)
        ensures
            final(self).next_id() == old(self).next_id(),
            received(old(self).waiting(), message, final(self).waiting(), r),
    {
        let multi: Option<bool> = match self.subscriptions.get(&message.request_id) {
            Some(flag) => Some(*flag),
            None => None,
        };
        match multi {
            Some(multi) => {
                if !multi {
                    self.subscriptions.remove(&message.request_id);
                }
                Delivery::Forward {
                    req_id: message.request_id,
                    payload: message.payload,
                    last: !multi,
                }
            },
            None => Delivery::Dropped(message),
        }
    }
}

/// What taking a message of the server does to the waiting requests, and
/// what is to be done with the message.
pub open spec fn received(
    before: Map<u64, bool>,
    message: Message<ToClientPayload>,
    after: Map<u64, bool>,
    r: Delivery,
) -> bool {
    if before.contains_key(message.request_id) {
        let multi = before[message.request_id];
        &&& r == (Delivery::Forward {
            req_id: message.request_id,
            payload: message.payload,
            last: !multi,
        })
        &&& after == (if multi {
            before
        } else {
            before.remove(message.request_id)
        })
    } else {
        r == Delivery::Dropped(message) && after == before
    }
}

/// Whether a channel is asked for: its device is the one asked for, if
/// one is, and its room is the one asked for, if one is.
pub open spec fn wanted(
    device: Seq<u8>,
    room: Seq<u8>,
    device_filter: Option<Seq<u8>>,
    room_filter: Option<Seq<u8>>,
) -> bool {
    &&& device_filter matches Some(d) ==> d == device
    &&& room_filter matches Some(r) ==> r == room
}

/// The channels of a device that are asked for, in their order.
pub open spec fn wanted_channels(
    device: Seq<u8>,
    channels: Seq<ChannelModel>,
    device_filter: Option<Seq<u8>>,
    room_filter: Option<Seq<u8>>,
) -> Seq<ChannelModel>
    decreases channels.len(),
{
    if channels.len() == 0 {
        Seq::empty()
    } else {
        let before = wanted_channels(device, channels.drop_last(), device_filter, room_filter);
        if wanted(device, channels.last().room, device_filter, room_filter) {
            before.push(channels.last())
        } else {
            before
        }
    }
}

/// The devices that have channels that are asked for, each with these
/// channels only, in their order.
pub open spec fn wanted_devices(
    devices: Seq<DeviceModel>,
    device_filter: Option<Seq<u8>>,
    room_filter: Option<Seq<u8>>,
) -> Seq<DeviceModel>
    decreases devices.len(),
{
    if devices.len() == 0 {
        Seq::empty()
    } else {
        let before = wanted_devices(devices.drop_last(), device_filter, room_filter);
        let device = devices.last();
        let channels = wanted_channels(device.id, device.channels, device_filter, room_filter);
        if channels.len() > 0 {
            before.push(DeviceModel { channels, ..device })
        } else {
            before
        }
    }
}

/// The bytes that a filter asks for, if it asks for any.
pub open spec fn asked(filter: Option<&[u8]>) -> Option<Seq<u8>> {
    match filter {
        Some(bytes) => Some(bytes@),
        None => None,
    }
}

/// Whether the bytes are those that the filter asks for, if it asks for any.
fn passes(filter: Option<&[u8]>, bytes: &[u8]) -> (r: bool)
    ensures
        r == (asked(filter) matches Some(b) ==> b == bytes@),
{
    match filter {
        Some(wanted) => bytes_equal(wanted, bytes),
        None => true,
    }
}

/// The channels of a device that are asked for.
fn filter_channels(
    device: &[u8],
    channels: &Vec<ChannelDescriptor>,
    device_filter: Option<&[u8]>,
    room_filter: Option<&[u8]>,
) -> (r: Vec<ChannelDescriptor>)
    ensures
        models(r@) == wanted_channels(
            device@,
            models(channels@),
            asked(device_filter),
            asked(room_filter),
        ),
{
    let mut out: Vec<ChannelDescriptor> = Vec::new();
    let mut i: usize = 0;
    let ghost all = models(channels@);
    assert(all.take(0) == Seq::<ChannelModel>::empty());
    assert(models(out@) == Seq::<ChannelModel>::empty());
    while i < channels.len()
        invariant
            i <= channels.len(),
            all == models(channels@),
            models(out@) == wanted_channels(
                device@,
                all.take(i as int),
                asked(device_filter),
                asked(room_filter),
            ),
        decreases channels.len() - i,
    {
        let ghost before = models(out@);
        proof {
            assert(all.take(i + 1).drop_last() == all.take(i as int));
            assert(all.take(i + 1).last() == channels@[i as int]@);
        }
        if passes(device_filter, device) && passes(room_filter, channels[i].room.as_slice()) {
            let copy = channels[i].clone();
            out.push(copy);
            assert(models(out@) == before.push(copy@));
        }
        i = i + 1;
    }
    assert(all.take(all.len() as int) == all);
    out
}

/// The devices that have channels in the room and of the device that are
/// asked for, each with these channels only.
pub fn filter_devices(
    devices: &Vec<DeviceDescriptor>,
    device_filter: Option<&[u8]>,
    room_filter: Option<&[u8]>,
) -> (r: Vec<DeviceDescriptor>)
    ensures
        models(r@) == wanted_devices(models(devices@), asked(device_filter), asked(room_filter)),
{
    let mut out: Vec<DeviceDescriptor> = Vec::new();
    let mut i: usize = 0;
    let ghost all = models(devices@);
    assert(all.take(0) == Seq::<DeviceModel>::empty());
    assert(models(out@) == Seq::<DeviceModel>::empty());
    while i < devices.len()
        invariant
            i <= devices.len(),
            all == models(devices@),
            models(out@) == wanted_devices(
                all.take(i as int),
                asked(device_filter),
                asked(room_filter),
            ),
        decreases devices.len() - i,
    {
        let ghost before = models(out@);
        let device = &devices[i];
        proof {
            assert(all.take(i + 1).drop_last() == all.take(i as int));
            assert(all.take(i + 1).last() == device@);
        }
        let channels = filter_channels(
            device.id.as_slice(),
            &device.channels,
            device_filter,
            room_filter,
        );
        if channels.len() > 0 {
            let shown = DeviceDescriptor {
                id: device.id.clone(),
                display_name: device.display_name.clone(),
                wiki_url: device.wiki_url.clone(),
                channels,
            };
            out.push(shown);
            assert(models(out@) == before.push(shown@));
        }
        i = i + 1;
    }
    assert(all.take(all.len() as int) == all);
    out
}

} // verus!
