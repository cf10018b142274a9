//! Subscriptions to CAN messages: which messages a subscriber wants to
//! see, and the core that hands each message to those who want it.

pub mod table;

use vstd::prelude::*;
use slotmap::DefaultKey;
use crate::reactor::ids;
use crate::reactor::lemma_listed_all;
use crate::reactor::slots::key_bits;
use crate::subscription::table::{
    subscribed, table_insert, table_len, table_list, table_new, table_remove, Table,
    TABLE_CAPACITY,
};

verus! {

/// A CAN message as a subscriber sees it.
#[derive(Debug, Clone, Copy, PartialEq, Eq)]
pub struct CANMessage {
    id: u16,
    payload: [u8; 8],
    len: usize,
}

/// What a message holds.
pub struct CANMessageView {
    pub id: u16,
    pub payload: Seq<u8>,
    pub len: nat,
}

impl View for CANMessage {
    type V = CANMessageView;

    closed spec fn view(&self) -> CANMessageView {
        CANMessageView { id: self.id, payload: self.payload@, len: self.len as nat }
    }
}

impl CANMessage {
    /// A message with the identifier `id` whose first `len` bytes of `payload` count.
    pub fn new(id: u16, payload: [u8; 8], len: usize) -> (r: CANMessage)
        ensures
            r@ == (CANMessageView { id, payload: payload@, len: len as nat }),
    {
        CANMessage { id, payload, len }
    }
}

/// Which messages a subscriber wants to see: a pattern for the identifier,
/// a pattern for the payload, and bounds on the length.
#[derive(Clone, Copy, Debug)]
pub struct CANSubscription {
    id: u16,
    id_mask: u16,
    payload: [u8; 8],
    payload_mask: [u8; 8],
    min_len: usize,
    max_len: usize,
}

/// What a subscription, or one in the making, holds.
pub struct Pattern {
    /// The bits that the identifier must have under the mask.
    pub id: u16,
    /// The bits of the identifier that count.
    pub id_mask: u16,
    /// The bits that the payload must have under the mask.
    pub payload: Seq<u8>,
    /// The bits of the payload that count.
    pub payload_mask: Seq<u8>,
    /// The least length.
    pub min_len: nat,
    /// The greatest length.
    pub max_len: nat,
}

impl Pattern {
    /// The pattern that every message of up to eight bytes meets.
    pub open spec fn any() -> Pattern {
        Pattern {
            id: 0,
            id_mask: 0,
            payload: Seq::new(8, |i: int| 0u8),
            payload_mask: Seq::new(8, |i: int| 0u8),
            min_len: 0,
            max_len: 8,
        }
    }

    /// Whether a message meets the pattern: under the masks its identifier
    /// and its payload are the pattern's, and its length is within the bounds.
    pub open spec fn admits(self, msg: CANMessageView) -> bool {
        &&& masked(msg.payload, self.payload_mask) == self.payload
        &&& msg.id & self.id_mask == self.id
        &&& self.min_len <= msg.len <= self.max_len
    }
}

/// The eight bytes of `a`, each under the byte of `b` at its place.
pub open spec fn masked(a: Seq<u8>, b: Seq<u8>) -> Seq<u8> {
    Seq::new(8, |i: int| a[i] & b[i])
}

impl View for CANSubscription {
    type V = Pattern;

    closed spec fn view(&self) -> Pattern {
        Pattern {
            id: self.id,
            id_mask: self.id_mask,
            payload: self.payload@,
            payload_mask: self.payload_mask@,
            min_len: self.min_len as nat,
            max_len: self.max_len as nat,
        }
    }
}

impl CANSubscription {
    /// Starts a subscription. Unless it is narrowed, it admits every
    /// message of up to eight bytes.
    pub fn build() -> (b: CANSubscriptionBuilder)
        ensures
            b@ == Pattern::any(),
    {
        let b = CANSubscriptionBuilder {
            id: 0,
            id_mask: 0,
            payload: [0u8;8],
            payload_mask: [0u8;8],
            min_len: 0,
            max_len: 8,
        };
        assert(b.payload@ == Seq::new(8, |i: int| 0u8));
        assert(b.payload_mask@ == Seq::new(8, |i: int| 0u8));
        b
    }

    /// Whether the subscription admits the message.
    pub fn matches(&self, msg: &CANMessage) -> (r: bool)
        ensures
            r == self@.admits(msg@),
    {
        let under = and_buf(&msg.payload, &self.payload_mask);
        same_bytes(&under, &self.payload) && msg.id & self.id_mask == self.id && msg.len
            >= self.min_len && msg.len <= self.max_len
    }
}

/// A subscription in the making.
pub struct CANSubscriptionBuilder {
    id: u16,
    id_mask: u16,
    payload: [u8; 8],
    payload_mask: [u8; 8],
    min_len: usize,
    max_len: usize,
}

impl View for CANSubscriptionBuilder {
    type V = Pattern;

    closed spec fn view(&self) -> Pattern {
        Pattern {
            id: self.id,
            id_mask: self.id_mask,
            payload: self.payload@,
            payload_mask: self.payload_mask@,
            min_len: self.min_len as nat,
            max_len: self.max_len as nat,
        }
    }
}

impl CANSubscriptionBuilder {
    /// Asks for the identifiers that are `id` under `mask`. Both are
    /// identifiers of eleven bits.
    pub fn match_id(self, id: u16, mask: u16) -> (b: Self)
        requires
            id <= 0x07ff,
            mask <= 0x07ff,
        ensures
            b@ == (Pattern { id: id & mask, id_mask: mask, ..self@ }),
    {
        let mut b = self;
        b.id = id & mask;
        b.id_mask = mask;
        b
    }

    /// Asks for the payloads that are `payload` under `mask`.
    pub fn match_payload(self, payload: [u8; 8], mask: [u8; 8]) -> (b: Self)
        ensures
            b@ == (Pattern { payload: masked(payload@, mask@), payload_mask: mask@, ..self@ }),
    {
        let mut b = self;
        b.payload = and_buf(&payload, &mask);
        b.payload_mask = mask;
        b
    }

    /// Asks for messages of at least `len` bytes. The bound is at most
    /// eight, and not above the upper bound.
    pub fn min_len(self, len: u8) -> (b: Self)
        requires
            len <= 8,
            len <= self@.max_len,
        ensures
            b@ == (Pattern { min_len: len as nat, ..self@ }),
    {
        let mut b = self;
        b.min_len = len as usize;
        b
    }

    /// Asks for messages of at most `len` bytes. The bound is at most
    /// eight, and not below the lower bound.
    pub fn max_len(self, len: u8) -> (b: Self)
        requires
            len <= 8,
            len >= self@.min_len,
        ensures
            b@ == (Pattern { max_len: len as nat, ..self@ }),
    {
        let mut b = self;
        b.max_len = len as usize;
        b
    }

    /// The subscription that was asked for.
    pub fn build(self) -> (s: CANSubscription)
        ensures
            s@ == self@,
    {
        CANSubscription {
            id: self.id,
            id_mask: self.id_mask,
            payload: self.payload,
            payload_mask: self.payload_mask,
            min_len: self.min_len,
            max_len: self.max_len,
        }
    }
}

/// The bytes of `a`, each under the byte of `b` at its place.
pub fn and_buf(a: &[u8; 8], b: &[u8; 8]) -> (ret: [u8; 8])
    ensures
        ret@ == masked(a@, b@),
{
    let mut ret = [0u8;8];
    let mut i: usize = 0;
    while i < 8
        invariant
            i <= 8,
            forall|j: int| 0 <= j < i ==> ret@[j] == a@[j] & b@[j],
        decreases 8 - i,
    {
        ret[i] = a[i] & b[i];
        i = i + 1;
    }
    assert(ret@ == masked(a@, b@));
    ret
}

/// Whether two arrays hold the same bytes.
fn same_bytes(a: &[u8; 8], b: &[u8; 8]) -> (r: bool)
    ensures
        r == (a@ == b@),
{
    let mut i: usize = 0;
    while i < 8
        invariant
            i <= 8,
            forall|j: int| 0 <= j < i ==> a@[j] == b@[j],
        decreases 8 - i,
    {
        if a[i] != b[i] {
            return false;
        }
        i = i + 1;
    }
    assert(a@ == b@);
    true
}

/// What is put before the core.
#[derive(Debug)]
pub enum CANCommand {
    /// A subscriber asks for the messages that the subscription admits.
    Subscribe { subscription: CANSubscription },
    /// A message is to go to the bus.
    SendMessage { message: CANMessage },
    /// A message has come from the bus.
    ReceiveMessage { message: CANMessage },
}

/// What the core asks to be done after a command.
#[derive(Debug, PartialEq)]
pub enum CoreAction {
    /// The subscriber is registered under `key`.
    Subscribed { key: DefaultKey },
    /// The core takes no more subscribers.
    Full,
    /// The message is to be written to the bus.
    Transmit { message: CANMessage },
    /// The message is to be sent to each of the subscribers.
    Deliver { message: CANMessage, subscribers: Vec<DefaultKey> },
}

/// The subscribers of the bus and what each of them wants to see.
pub struct CanCore {
    subscriptions: Table,
}

impl CanCore {
    /// Whether the core is in order: it holds finitely many subscriptions.
    pub closed spec fn wf(&self) -> bool {
        subscribed(self.subscriptions).dom().finite()
    }

    /// The subscriptions: for the number of each subscriber's handle, the
    /// pattern that it asked for.
    pub closed spec fn subscriptions(&self) -> Map<u64, Pattern> {
        subscribed(self.subscriptions)
    }

    /// A core without subscribers.
    pub fn new() -> (c: CanCore)
        ensures
            c.wf(),
            c.subscriptions() == Map::<u64, Pattern>::empty(),
    {
        let c = CanCore { subscriptions: table_new() };
        assert(c.subscriptions() == Map::<u64, Pattern>::empty());
        c
    }

    /// Forgets a subscriber, as when its queue was closed. Whether it was
    /// known is returned.
    pub fn unsubscribe(&mut self, key: DefaultKey) -> (was: bool)
        requires
            old(self).wf(),
        ensures
            final(self).wf(),
            final(self).subscriptions() == old(self).subscriptions().remove(key_bits(key)),
            was == old(self).subscriptions().dom().contains(key_bits(key)),
    {
        table_remove(&mut self.subscriptions, key)
    }

    /// The subscribers that want to see the message: each one whose
    /// subscription admits it, once.
    pub fn wanted_by(&self, message: &CANMessage) -> (r: Vec<DefaultKey>)
        requires
            self.wf(),
        ensures
            ids(r@).no_duplicates(),
            forall|q: u64|
                ids(r@).contains(q) <==> self.subscriptions().dom().contains(q)
                    && self.subscriptions()[q].admits(message@),
    {
        let list = table_list(&self.subscriptions);
        let ghost subs = self.subscriptions();
        let mut out: Vec<DefaultKey> = Vec::new();
        let mut i: usize = 0;
        assert(ids(out@) == Seq::<u64>::empty());
        while i < list.len()
            invariant
                i <= list.len(),
                subs == subscribed(self.subscriptions),
                forall|k: int|
                    0 <= k < list@.len() ==> subs.dom().contains(#[trigger] key_bits(list@[k].0))
                        && subs[key_bits(list@[k].0)] == list@[k].1@,
                forall|k: int, j: int|
                    0 <= k < j < list@.len() ==> key_bits(list@[k].0) != key_bits(list@[j].0),
                ids(out@).no_duplicates(),
                forall|q: u64|
                    ids(out@).contains(q) <==> exists|k: int|
                        0 <= k < i && #[trigger] key_bits(list@[k].0) == q && list@[k].1@.admits(
                            message@,
                        ),
            decreases list.len() - i,
        {
            let (key, subscription) = list[i];
            if subscription.matches(message) {
                let ghost before = ids(out@);
                out.push(key);
                proof {
                    assert(ids(out@) == before.push(key_bits(key)));
                    assert(!before.contains(key_bits(key))) by {
                        if before.contains(key_bits(key)) {
                            let k = choose|k: int|
                                0 <= k < i && #[trigger] key_bits(list@[k].0) == key_bits(key)
                                    && list@[k].1@.admits(message@);
                            assert(key_bits(list@[k].0) != key_bits(list@[i as int].0));
                        }
                    }
                    assert forall|q: u64| ids(out@).contains(q) <==> exists|k: int|
                        0 <= k < i + 1 && #[trigger] key_bits(list@[k].0) == q && list@[k].1@.admits(
                            message@,
                        ) by {
                        if ids(out@).contains(q) {
                            let at = choose|at: int| 0 <= at < ids(out@).len() && ids(out@)[at] == q;
                            if at < before.len() {
                                assert(before[at] == q);
                                assert(before.contains(q));
                            } else {
                                assert(key_bits(list@[i as int].0) == q);
                            }
                        }
                        if exists|k: int|
                            0 <= k < i + 1 && #[trigger] key_bits(list@[k].0) == q
                                && list@[k].1@.admits(message@) {
                            let k = choose|k: int|
                                0 <= k < i + 1 && #[trigger] key_bits(list@[k].0) == q
                                    && list@[k].1@.admits(message@);
                            if k < i {
                                assert(before.contains(q));
                                let at = choose|at: int| 0 <= at < before.len() && before[at] == q;
                                assert(ids(out@)[at] == q);
                            } else {
                                assert(ids(out@)[before.len() as int] == q);
                            }
                        }
                    }
                }
            }
            i = i + 1;
        }
        proof {
            assert forall|q: u64|
                ids(out@).contains(q) <==> subs.dom().contains(q) && subs[q].admits(message@) by {
                if subs.dom().contains(q) && subs[q].admits(message@) {
                    let listed = Seq::new(list@.len(), |k: int| key_bits(list@[k].0));
                    assert forall|k: int| 0 <= k < listed.len() implies subs.dom().contains(
                        #[trigger] listed[k],
                    ) by {
                        assert(subs.dom().contains(key_bits(list@[k].0)));
                    }
                    lemma_listed_all(subs.dom(), listed, q);
                    let k = choose|k: int| 0 <= k < listed.len() && listed[k] == q;
                    assert(key_bits(list@[k].0) == q && list@[k].1@.admits(message@));
                }
            }
        }
        out
    }

    /// Takes one command and says what is to be done.
    ///
    /// A subscriber is registered, unless the core is full. A message for
    /// the bus is to be written to it. A message from the bus is to be sent
    /// to each subscriber whose subscription admits it, once.
    pub fn handle(&mut self, command: CANCommand) -> (r: CoreAction)
        requires
            old(self).wf(),
        ensures
            final(self).wf(),
            match command {
                CANCommand::Subscribe { subscription } => if old(self).subscriptions().dom().len()
                    < TABLE_CAPACITY {
                    r matches CoreAction::Subscribed { key } && !old(
                        self,
                    ).subscriptions().dom().contains(key_bits(key)) && final(self).subscriptions()
                        == old(self).subscriptions().insert(key_bits(key), subscription@)
                } else {
                    r is Full && final(self).subscriptions() == old(self).subscriptions()
                },
                CANCommand::SendMessage { message } => r matches CoreAction::Transmit {
                    message: m,
                } && m == message && final(self).subscriptions() == old(self).subscriptions(),
                CANCommand::ReceiveMessage { message } => r matches CoreAction::Deliver {
                    message: m,
                    subscribers,
                } && m == message && final(self).subscriptions() == old(self).subscriptions()
                    && ids(subscribers@).no_duplicates() && forall|q: u64|
                    ids(subscribers@).contains(q) <==> old(self).subscriptions().dom().contains(q)
                        && old(self).subscriptions()[q].admits(message@),
            },
    {
        match command {
            CANCommand::Subscribe { subscription } => {
                if table_len(&self.subscriptions) >= TABLE_CAPACITY {
                    CoreAction::Full
                } else {
                    let key = table_insert(&mut self.subscriptions, subscription);
                    CoreAction::Subscribed { key }
                }
            },
            CANCommand::SendMessage { message } => CoreAction::Transmit { message },
            CANCommand::ReceiveMessage { message } => {
                let subscribers = self.wanted_by(&message);
                CoreAction::Deliver { message, subscribers }
            },
        }
    }
}

} // verus!
