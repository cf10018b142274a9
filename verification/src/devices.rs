//! The configuration of the building, and the setting up of the server's
//! core from it.

use vstd::prelude::*;
use vstd::utf8::encode_utf8;
use crate::driver::{text_bytes, Channel, Driver, DriverError, DriverManager};
use crate::proto::descriptor::{
    ChannelDescriptor, DeviceDescriptor, RoomDescriptor, RoomModel,
};
use crate::server::{Core, LoadedDriver, LoadedDriverView};

verus! {

/// A room as the configuration describes it.
#[derive(Debug, PartialEq, Eq)]
pub struct Room {
    pub id: String,
    pub display_name: String,
}

/// A device as the configuration describes it.
#[derive(Debug, PartialEq)]
pub struct Device {
    pub id: String,
    pub display_name: String,
    pub wiki_url: String,
    pub channels: Vec<Channel>,
}

/// The configuration of the building.
#[derive(Debug, PartialEq)]
pub struct Toplevel {
    pub rooms: Vec<Room>,
    pub devices: Vec<Device>,
}

/// The descriptor of a room of the configuration: its identifier as
/// bytes, and its name.
pub fn room_descriptor(room: Room) -> (r: RoomDescriptor)
    ensures
        r@ == (RoomModel { id: encode_utf8(room.id@), display_name: room.display_name@ }),
{
    RoomDescriptor { id: text_bytes(&room.id), display_name: room.display_name }
}

/// What the setting up of the drivers of a device has come to so far.
pub struct Loading {
    /// The channels whose drivers were set up.
    pub channels: Vec<ChannelDescriptor>,
    /// The drivers of these channels, in the same order.
    pub drivers: Vec<LoadedDriver>,
    /// Why the drivers of the other channels were not set up.
    pub failures: Vec<DriverError>,
}

/// How the setting up of a driver has ended.
pub type Outcome = Result<ChannelDescriptor, DriverError>;

/// What a list of loaded drivers holds.
pub open spec fn views(drivers: Seq<LoadedDriver>) -> Seq<LoadedDriverView> {
    Seq::new(drivers.len(), |i: int| drivers[i]@)
}

/// The driver that is recorded for a channel of a device.
pub open spec fn recorded(device: Seq<char>, ch: Channel) -> LoadedDriverView {
    LoadedDriverView {
        device: encode_utf8(device),
        room: encode_utf8(ch.room@),
        channel: encode_utf8(ch.id@),
        driver: ch.driver@,
    }
}

/// The channels whose drivers were set up, in their order.
pub open spec fn kept(outcomes: Seq<Outcome>) -> Seq<ChannelDescriptor>
    decreases outcomes.len(),
{
    if outcomes.len() == 0 {
        Seq::empty()
    } else {
        match outcomes.last() {
            Ok(descriptor) => kept(outcomes.drop_last()).push(descriptor),
            Err(_) => kept(outcomes.drop_last()),
        }
    }
}

/// Why the drivers of the other channels were not set up, in their order.
pub open spec fn failed(outcomes: Seq<Outcome>) -> Seq<DriverError>
    decreases outcomes.len(),
{
    if outcomes.len() == 0 {
        Seq::empty()
    } else {
        match outcomes.last() {
            Ok(_) => failed(outcomes.drop_last()),
            Err(e) => failed(outcomes.drop_last()).push(e),
        }
    }
}

/// The drivers that are recorded for the channels whose drivers were set
/// up, in their order.
pub open spec fn set_up(device: Seq<char>, channels: Seq<Channel>, outcomes: Seq<Outcome>) -> Seq<
    LoadedDriverView,
>
    decreases outcomes.len(),
{
    if outcomes.len() == 0 || channels.len() != outcomes.len() {
        Seq::empty()
    } else {
        let before = set_up(device, channels.drop_last(), outcomes.drop_last());
        match outcomes.last() {
            Ok(_) => before.push(recorded(device, channels.last())),
            Err(_) => before,
        }
    }
}

/// Whether a device was loaded as its drivers answered: its descriptor
/// holds what the configuration says of it and the channels whose drivers
/// were set up; for these channels drivers are recorded, and for the others
/// the failures.
pub open spec fn device_loaded<D: Driver>(
    manager: DriverManager<D>,
    device: Device,
    descriptor: DeviceDescriptor,
    drivers: Seq<LoadedDriverView>,
    failures: Seq<DriverError>,
) -> bool {
    &&& descriptor.id@ == encode_utf8(device.id@)
    &&& descriptor.display_name@ == device.display_name@
    &&& descriptor.wiki_url@ == device.wiki_url@
    &&& exists|outcomes: Seq<Outcome>|
        {
            &&& outcomes.len() == device.channels@.len()
            &&& forall|i: int|
                0 <= i < outcomes.len() ==> manager.answers(
                    device.channels@[i],
                    #[trigger] outcomes[i],
                )
            &&& descriptor.channels@ == kept(outcomes)
            &&& drivers == set_up(device.id@, device.channels@, outcomes)
            &&& failures == failed(outcomes)
        }
}

/// Takes note of how the setting up of a channel's driver has ended: the
/// channel and its driver are recorded, or the failure is.
pub fn settle(
    outcome: Outcome,
    device: &String,
    room: &String,
    channel: &String,
    driver: String,
    loading: &mut Loading,
)
    ensures
        settled(outcome, device@, room@, channel@, driver@, *old(loading), *final(loading)),
{
    match outcome {
        Ok(descriptor) => {
            loading.drivers.push(
                LoadedDriver {
                    channel: text_bytes(channel),
                    room: text_bytes(room),
                    device: text_bytes(device),
                    driver,
                },
            );
            loading.channels.push(descriptor);
            assert(views(loading.drivers@) == views(old(loading).drivers@).push(
                loading.drivers@.last()@,
            ));
        },
        Err(e) => {
            loading.failures.push(e);
        },
    }
}

/// What taking note of an outcome does to the record.
pub open spec fn settled(
    outcome: Outcome,
    device: Seq<char>,
    room: Seq<char>,
    channel: Seq<char>,
    driver: Seq<char>,
    before: Loading,
    after: Loading,
) -> bool {
    match outcome {
        Ok(descriptor) => {
            &&& after.channels@ == before.channels@.push(descriptor)
            &&& after.failures@ == before.failures@
            &&& views(after.drivers@) == views(before.drivers@).push(
                LoadedDriverView {
                    device: encode_utf8(device),
                    room: encode_utf8(room),
                    channel: encode_utf8(channel),
                    driver,
                },
            )
        },
        Err(e) => {
            &&& after.failures@ == before.failures@.push(e)
            &&& after.channels@ == before.channels@
            &&& after.drivers@ == before.drivers@
        },
    }
}

/// Sets up the drivers of the channels of a device, and gives the
/// descriptor of the device with the channels whose drivers were set up. The
/// drivers are added to `drivers`, and the failures of the other channels
/// to `failures`.
pub fn load_device<D: Driver>(
    device: Device,
    manager: &DriverManager<D>,
    drivers: &mut Vec<LoadedDriver>,
    failures: &mut Vec<DriverError>,
) -> (r: DeviceDescriptor)
    requires
        manager.wf(),
    ensures
        final(drivers)@.len() >= old(drivers)@.len(),
        final(failures)@.len() >= old(failures)@.len(),
        views(final(drivers)@).take(old(drivers)@.len() as int) == views(old(drivers)@),
        final(failures)@.take(old(failures)@.len() as int) == old(failures)@,
        device_loaded(
            *manager,
            device,
            r,
            views(final(drivers)@).skip(old(drivers)@.len() as int),
            final(failures)@.skip(old(failures)@.len() as int),
        ),
{
    let Device { id, display_name, wiki_url, channels } = device;
    let mut loading = Loading { channels: Vec::new(), drivers: Vec::new(), failures: Vec::new() };
    let total: usize = channels.len();
    let ghost all = channels@;
    let ghost mut outcomes: Seq<Outcome> = Seq::empty();
    let mut rest = channels;
    let mut done: usize = 0;
    proof {
        assert(all.skip(0) == all);
        assert(all.take(0) == Seq::<Channel>::empty());
        assert(views(loading.drivers@) == Seq::<LoadedDriverView>::empty());
    }
    while done < total
        invariant
            manager.wf(),
            done <= total,
            total == all.len(),
            rest@ == all.skip(done as int),
            outcomes.len() == done,
            forall|i: int| 0 <= i < done ==> manager.answers(all[i], #[trigger] outcomes[i]),
            loading.channels@ == kept(outcomes),
            loading.failures@ == failed(outcomes),
            views(loading.drivers@) == set_up(id@, all.take(done as int), outcomes),
        decreases total - done,
    {
        let ch = rest.remove(0);
        let channel_id = ch.id.clone();
        let channel_room = ch.room.clone();
        let driver_name = ch.driver.clone();
        let outcome = manager.init_driver(ch);
        proof {
            let next = outcomes.push(outcome);
            assert(next.drop_last() == outcomes);
            assert(all.take(done + 1).drop_last() == all.take(done as int));
            assert(all.take(done + 1).last() == ch);
            assert(rest@ == all.skip(done + 1));
            outcomes = next;
        }
        settle(outcome, &id, &channel_room, &channel_id, driver_name, &mut loading);
        done = done + 1;
    }
    let Loading { channels: described, drivers: mut found, failures: mut failed_now } = loading;
    let ghost drivers_before = drivers@;
    let ghost failures_before = failures@;
    let ghost added = found@;
    let ghost refused = failed_now@;
    drivers.append(&mut found);
    failures.append(&mut failed_now);
    let r = DeviceDescriptor { id: text_bytes(&id), display_name, wiki_url, channels: described };
    proof {
        assert(all.take(total as int) == all);
        assert(views(drivers_before + added) == views(drivers_before) + views(added));
        assert((views(drivers_before) + views(added)).take(drivers_before.len() as int) == views(
            drivers_before,
        ));
        assert((views(drivers_before) + views(added)).skip(drivers_before.len() as int) == views(
            added,
        ));
        assert((failures_before + refused).take(failures_before.len() as int) == failures_before);
        assert((failures_before + refused).skip(failures_before.len() as int) == refused);
    }
    r
}

/// Whether the first `n` devices of a configuration were loaded, one
/// after the other, each as its drivers answered: `described` holds their
/// descriptors, `drivers` the drivers recorded for them, and `failures` the
/// failures, each in the order of the devices.
pub open spec fn loaded<D: Driver>(
    manager: DriverManager<D>,
    devices: Seq<Device>,
    n: int,
    described: Seq<DeviceDescriptor>,
    drivers: Seq<LoadedDriverView>,
    failures: Seq<DriverError>,
) -> bool
    decreases n,
{
    if n <= 0 {
        described.len() == 0 && drivers.len() == 0 && failures.len() == 0
    } else {
        &&& described.len() == n
        &&& n <= devices.len()
        &&& exists|k: int, f: int|
            {
                &&& 0 <= k <= drivers.len()
                &&& 0 <= f <= failures.len()
                &&& loaded(
                    manager,
                    devices,
                    n - 1,
                    described.drop_last(),
                    drivers.take(k),
                    failures.take(f),
                )
                &&& #[trigger] device_loaded(
                    manager,
                    devices[n - 1],
                    described.last(),
                    drivers.skip(k),
                    failures.skip(f),
                )
            }
    }
}

/// Where the devices before the last were loaded with the first `k`
/// drivers and the first `f` failures, and the last with the others, all
/// were loaded.
proof fn lemma_loaded_next<D: Driver>(
    manager: DriverManager<D>,
    devices: Seq<Device>,
    n: int,
    described: Seq<DeviceDescriptor>,
    drivers: Seq<LoadedDriverView>,
    failures: Seq<DriverError>,
    k: int,
    f: int,
)
    requires
        0 < n <= devices.len(),
        described.len() == n,
        0 <= k <= drivers.len(),
        0 <= f <= failures.len(),
        loaded(manager, devices, n - 1, described.drop_last(), drivers.take(k), failures.take(f)),
        device_loaded(manager, devices[n - 1], described.last(), drivers.skip(k), failures.skip(f)),
    ensures
        loaded(manager, devices, n, described, drivers, failures),
{
}

/// Sets up the core of the server from the configuration: the rooms, the
/// devices with the channels whose drivers could be set up, and these
/// drivers. With it come the failures of the other channels.
pub fn load<D: Driver>(config: Toplevel, manager: &DriverManager<D>) -> (r: (
    Core,
    Vec<DriverError>,
))
    requires
        manager.wf(),
    ensures
        r.0.rooms@.len() == config.rooms@.len(),
        forall|i: int|
            0 <= i < config.rooms@.len() ==> (#[trigger] r.0.rooms@[i])@ == (RoomModel {
                id: encode_utf8(config.rooms@[i].id@),
                display_name: config.rooms@[i].display_name@,
            }),
        loaded(
            *manager,
            config.devices@,
            config.devices@.len() as int,
            r.0.devices@,
            views(r.0.drivers@),
            r.1@,
        ),
{
    let Toplevel { rooms, devices } = config;
    let mut room_list: Vec<RoomDescriptor> = Vec::new();
    let mut rooms_left = rooms;
    let ghost all_rooms = rooms@;
    let room_count: usize = rooms_left.len();
    let mut i: usize = 0;
    assert(rooms_left@ == all_rooms.skip(0));
    while i < room_count
        invariant
            i <= room_count,
            room_count == all_rooms.len(),
            rooms_left@ == all_rooms.skip(i as int),
            room_list@.len() == i,
            forall|j: int|
                0 <= j < i ==> (#[trigger] room_list@[j])@ == (RoomModel {
                    id: encode_utf8(all_rooms[j].id@),
                    display_name: all_rooms[j].display_name@,
                }),
        decreases room_count - i,
    {
        let room = rooms_left.remove(0);
        assert(rooms_left@ == all_rooms.skip(i + 1));
        room_list.push(room_descriptor(room));
        i = i + 1;
    }
    let mut device_list: Vec<DeviceDescriptor> = Vec::new();
    let mut drivers: Vec<LoadedDriver> = Vec::new();
    let mut failures: Vec<DriverError> = Vec::new();
    let mut devices_left = devices;
    let ghost all_devices = devices@;
    let device_count: usize = devices_left.len();
    let mut k: usize = 0;
    proof {
        assert(devices_left@ == all_devices.skip(0));
        assert(views(drivers@) == Seq::<LoadedDriverView>::empty());
    }
    while k < device_count
        invariant
            manager.wf(),
            k <= device_count,
            device_count == all_devices.len(),
            devices_left@ == all_devices.skip(k as int),
            device_list@.len() == k,
            loaded(*manager, all_devices, k as int, device_list@, views(drivers@), failures@),
        decreases device_count - k,
    {
        let device = devices_left.remove(0);
        assert(devices_left@ == all_devices.skip(k + 1));
        assert(device == all_devices[k as int]);
        let ghost described_before = device_list@;
        let ghost drivers_before = views(drivers@);
        let ghost failures_before = failures@;
        let descriptor = load_device(device, manager, &mut drivers, &mut failures);
        device_list.push(descriptor);
        k = k + 1;
        proof {
            let at = drivers_before.len() as int;
            let f = failures_before.len() as int;
            assert(device_list@.drop_last() == described_before);
            assert(views(drivers@).take(at) == drivers_before);
            assert(failures@.take(f) == failures_before);
            lemma_loaded_next(
                *manager,
                all_devices,
                k as int,
                device_list@,
                views(drivers@),
                failures@,
                at,
                f,
            );
        }
    }
    (Core { rooms: room_list, devices: device_list, drivers }, failures)
}

} // verus!
