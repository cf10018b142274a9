use cand::can::{CanAddr, CanPacket, Message};
use cand::reactor::{Reaction, Reactor, ReactorMessage};
use slotmap::DefaultKey;

fn registered(reactor: &mut Reactor, uplink: bool) -> DefaultKey {
    let message: ReactorMessage<Message> =
        if uplink { ReactorMessage::RegisterUplink } else { ReactorMessage::RegisterClient };
    match reactor.handle(message) {
        Reaction::Registered { key, uplink: side } => {
            assert_eq!(side, uplink);
            key
        }
        other => panic!("not registered: {:?}", other),
    }
}

fn frame() -> Message {
    let src = CanAddr::new(0x01, 0x02).unwrap();
    let dest = CanAddr::new(0x03, 0x04).unwrap();
    Message::Frame(CanPacket::new(src, dest, vec![0xaa]).unwrap())
}

fn delivered(reactor: &mut Reactor, source: DefaultKey) -> Vec<DefaultKey> {
    match reactor.handle(ReactorMessage::Message { source, payload: frame() }) {
        Reaction::Deliver { mut targets, payload } => {
            assert_eq!(payload, frame());
            targets.sort();
            targets
        }
        other => panic!("not delivered: {:?}", other),
    }
}

fn sorted(mut keys: Vec<DefaultKey>) -> Vec<DefaultKey> {
    keys.sort();
    keys
}

#[test]
fn uplink_reaches_every_client_once() {
    let mut reactor = Reactor::new();
    let u = registered(&mut reactor, true);
    let c1 = registered(&mut reactor, false);
    let c2 = registered(&mut reactor, false);
    assert_eq!(reactor.len(), 3);
    assert_eq!(delivered(&mut reactor, u), sorted(vec![c1, c2]));
}

#[test]
fn client_reaches_the_uplink_and_no_client() {
    let mut reactor = Reactor::new();
    let u = registered(&mut reactor, true);
    let c1 = registered(&mut reactor, false);
    let c2 = registered(&mut reactor, false);
    assert_eq!(delivered(&mut reactor, c1), vec![u]);
    assert_eq!(delivered(&mut reactor, c2), vec![u]);
}

#[test]
fn nobody_hears_itself() {
    let mut reactor = Reactor::new();
    let u = registered(&mut reactor, true);
    let c = registered(&mut reactor, false);
    assert!(!reactor.targets(u).contains(&u));
    assert!(!reactor.targets(c).contains(&c));
    let alone = registered(&mut Reactor::new(), false);
    let _ = alone;
    let mut only_clients = Reactor::new();
    let a = registered(&mut only_clients, false);
    let _b = registered(&mut only_clients, false);
    assert_eq!(delivered(&mut only_clients, a), vec![]);
}

#[test]
fn two_uplinks_both_hear_the_clients() {
    let mut reactor = Reactor::new();
    let u1 = registered(&mut reactor, true);
    let u2 = registered(&mut reactor, true);
    let c = registered(&mut reactor, false);
    assert_eq!(delivered(&mut reactor, c), sorted(vec![u1, u2]));
    assert_eq!(delivered(&mut reactor, u1), vec![c]);
}

#[test]
fn dead_peer_is_removed_and_then_ignored() {
    let mut reactor = Reactor::new();
    let u = registered(&mut reactor, true);
    let c1 = registered(&mut reactor, false);
    let c2 = registered(&mut reactor, false);
    let died: Reaction<Message> = reactor.handle(ReactorMessage::TaskDied { task: c1 });
    assert_eq!(died, Reaction::Removed { key: c1, uplink: false });
    assert_eq!(reactor.is_uplink(c1), None);
    assert_eq!(reactor.is_uplink(c2), Some(false));
    assert_eq!(reactor.is_uplink(u), Some(true));
    assert_eq!(reactor.len(), 2);
    assert_eq!(delivered(&mut reactor, u), vec![c2]);
    let late = reactor.handle(ReactorMessage::Message { source: c1, payload: frame() });
    assert_eq!(late, Reaction::Ignored);
    let again: Reaction<Message> = reactor.handle(ReactorMessage::TaskDied { task: c1 });
    assert_eq!(again, Reaction::Ignored);
}

#[test]
fn handle_of_a_removed_peer_is_not_given_to_the_next() {
    let mut reactor = Reactor::new();
    let first = reactor.register(false).unwrap();
    assert_eq!(reactor.remove(first), Some(false));
    assert_eq!(reactor.remove(first), None);
    let second = reactor.register(true).unwrap();
    assert_ne!(first, second);
    assert_eq!(reactor.is_uplink(first), None);
    assert_eq!(reactor.is_uplink(second), Some(true));
}

#[test]
fn dead_uplink_is_removed() {
    let mut reactor = Reactor::new();
    let u = registered(&mut reactor, true);
    let c = registered(&mut reactor, false);
    let died: Reaction<Message> = reactor.handle(ReactorMessage::TaskDied { task: u });
    assert_eq!(died, Reaction::Removed { key: u, uplink: true });
    assert_eq!(delivered(&mut reactor, c), vec![]);
}

#[test]
fn emissions_arrive_in_their_order() {
    let mut reactor = Reactor::new();
    let u = registered(&mut reactor, true);
    let c = registered(&mut reactor, false);
    let mut inbox: Vec<u8> = Vec::new();
    for n in 0..5u8 {
        let payload = Message::Reset { cause: n };
        match reactor.handle(ReactorMessage::Message { source: u, payload }) {
            Reaction::Deliver { targets, payload } => {
                assert_eq!(targets, vec![c]);
                match payload {
                    Message::Reset { cause } => inbox.push(cause),
                    other => panic!("another envelope: {:?}", other),
                }
            }
            other => panic!("not delivered: {:?}", other),
        }
    }
    assert_eq!(inbox, vec![0, 1, 2, 3, 4]);
}
