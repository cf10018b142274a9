use cand::devices::{load, load_device, room_descriptor, settle, Device, Loading, Room, Toplevel};
use cand::driver::{
    init, text_bytes, Channel, Driver, DriverError, DriverManager, Lamp, LAMP_FLAGS,
};
use cand::proto::descriptor::{
    ChannelDescriptor, ChannelFlags, ChannelKind, DeviceDescriptor, RoomDescriptor, ValueType,
};
use cand::server::LoadedDriver;

fn channel(id: &str, room: &str, driver: &str) -> Channel {
    Channel {
        id: id.to_string(),
        display_name: format!("Channel {}", id),
        room: room.to_string(),
        kind: ChannelKind::ActorLamp,
        driver: driver.to_string(),
        driver_options: vec![],
    }
}

fn lamp_descriptor(id: &str, room: &str) -> ChannelDescriptor {
    ChannelDescriptor {
        flags: ChannelFlags(7),
        room: room.as_bytes().to_vec(),
        display_name: format!("Channel {}", id),
        value_type: ValueType::U8,
        channel_kind: ChannelKind::ActorLamp,
    }
}

struct Stubborn;

impl Driver for Stubborn {
    fn create_instance(&self, ch: Channel) -> Result<ChannelDescriptor, DriverError> {
        Err(DriverError::Refused(ch.id))
    }
}

#[test]
fn lamp_is_built_in() {
    let manager = init();
    assert_eq!(manager.len(), 1);
    assert_eq!(LAMP_FLAGS, 7);
    assert_eq!(manager.init_driver(channel("a", "living", "lamp")), Ok(lamp_descriptor("a", "living")));
    assert_eq!(Lamp.create_instance(channel("b", "hall", "x")), Ok(lamp_descriptor("b", "hall")));
}

#[test]
fn unknown_driver_is_an_error() {
    let manager = init();
    assert_eq!(
        manager.init_driver(channel("a", "living", "lamps")),
        Err(DriverError::UnknownDriver("lamps".to_string()))
    );
    let empty: DriverManager<Lamp> = DriverManager::new();
    assert_eq!(empty.len(), 0);
    assert_eq!(
        empty.init_driver(channel("a", "living", "lamp")),
        Err(DriverError::UnknownDriver("lamp".to_string()))
    );
}

#[test]
fn driver_registered_again_gives_way() {
    let mut manager: DriverManager<Stubborn> = DriverManager::new();
    manager.register_driver("a".to_string(), Stubborn);
    manager.register_driver("b".to_string(), Stubborn);
    manager.register_driver("a".to_string(), Stubborn);
    assert_eq!(manager.len(), 2);
    assert_eq!(
        manager.init_driver(channel("c", "r", "b")),
        Err(DriverError::Refused("c".to_string()))
    );
}

#[test]
fn text_is_its_utf8_bytes() {
    assert_eq!(text_bytes(&"hä".to_string()), vec![b'h', 0xc3, 0xa4]);
    assert_eq!(
        room_descriptor(Room { id: "living".to_string(), display_name: "Living Room".to_string() }),
        RoomDescriptor { id: b"living".to_vec(), display_name: "Living Room".to_string() }
    );
}

#[test]
fn outcome_of_a_driver_is_recorded() {
    let mut loading = Loading { channels: vec![], drivers: vec![], failures: vec![] };
    let (device, room, id) = ("dev".to_string(), "living".to_string(), "a".to_string());
    settle(Ok(lamp_descriptor("a", "living")), &device, &room, &id, "lamp".to_string(), &mut loading);
    settle(
        Err(DriverError::Refused("b".to_string())),
        &device,
        &room,
        &id,
        "lamp".to_string(),
        &mut loading,
    );
    assert_eq!(loading.channels, vec![lamp_descriptor("a", "living")]);
    assert_eq!(
        loading.drivers,
        vec![LoadedDriver {
            device: b"dev".to_vec(),
            room: b"living".to_vec(),
            channel: b"a".to_vec(),
            driver: "lamp".to_string(),
        }]
    );
    assert_eq!(loading.failures, vec![DriverError::Refused("b".to_string())]);
}

fn big_lamp() -> Device {
    Device {
        id: "lamp-1".to_string(),
        display_name: "Big Lamp".to_string(),
        wiki_url: "https://wiki.example/lamp".to_string(),
        channels: vec![
            channel("power", "living", "lamp"),
            channel("heat", "living", "oven"),
            channel("colour", "hall", "lamp"),
        ],
    }
}

fn big_lamp_described() -> DeviceDescriptor {
    DeviceDescriptor {
        id: b"lamp-1".to_vec(),
        display_name: "Big Lamp".to_string(),
        wiki_url: "https://wiki.example/lamp".to_string(),
        channels: vec![lamp_descriptor("power", "living"), lamp_descriptor("colour", "hall")],
    }
}

fn big_lamp_drivers() -> Vec<LoadedDriver> {
    vec![
        LoadedDriver {
            device: b"lamp-1".to_vec(),
            room: b"living".to_vec(),
            channel: b"power".to_vec(),
            driver: "lamp".to_string(),
        },
        LoadedDriver {
            device: b"lamp-1".to_vec(),
            room: b"hall".to_vec(),
            channel: b"colour".to_vec(),
            driver: "lamp".to_string(),
        },
    ]
}

#[test]
fn device_keeps_the_channels_whose_drivers_were_set_up() {
    let mut drivers = vec![];
    let mut failures = vec![];
    let described = load_device(big_lamp(), &init(), &mut drivers, &mut failures);
    assert_eq!(described, big_lamp_described());
    assert_eq!(drivers, big_lamp_drivers());
    assert_eq!(failures, vec![DriverError::UnknownDriver("oven".to_string())]);
}

#[test]
fn core_is_set_up_from_the_configuration() {
    let config = Toplevel {
        rooms: vec![
            Room { id: "living".to_string(), display_name: "Living Room".to_string() },
            Room { id: "hall".to_string(), display_name: "Hall".to_string() },
        ],
        devices: vec![
            big_lamp(),
            Device {
                id: "bare".to_string(),
                display_name: "Bare".to_string(),
                wiki_url: String::new(),
                channels: vec![],
            },
        ],
    };
    let (core, failures) = load(config, &init());
    assert_eq!(
        core.rooms,
        vec![
            RoomDescriptor { id: b"living".to_vec(), display_name: "Living Room".to_string() },
            RoomDescriptor { id: b"hall".to_vec(), display_name: "Hall".to_string() },
        ]
    );
    assert_eq!(
        core.devices,
        vec![
            big_lamp_described(),
            DeviceDescriptor {
                id: b"bare".to_vec(),
                display_name: "Bare".to_string(),
                wiki_url: String::new(),
                channels: vec![],
            },
        ]
    );
    assert_eq!(core.drivers, big_lamp_drivers());
    assert_eq!(failures, vec![DriverError::UnknownDriver("oven".to_string())]);
    assert_eq!(core.find_driver(b"lamp-1", b"hall", b"colour"), Some(1));
}
