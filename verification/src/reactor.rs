//! The fan-out reactor: the registry of peers and the rule by which an
//! envelope that one peer emits reaches the others.

pub mod slots;

use vstd::prelude::*;
use slotmap::DefaultKey;
use crate::reactor::slots::{
    entries, key_bits, slots_get, slots_insert, slots_len, slots_list, slots_new, slots_remove,
    Slots, CAPACITY,
};

verus! {

/// Whether `q` is handed what `source` emits: both are registered, and
/// they stand on opposite sides of the boundary between uplink and clients.
pub open spec fn receives(peers: Map<u64, bool>, source: u64, q: u64) -> bool {
    peers.dom().contains(source) && peers.dom().contains(q) && peers[q] != peers[source]
}

/// The numbers of a list of handles.
pub open spec fn ids(keys: Seq<DefaultKey>) -> Seq<u64> {
    Seq::new(keys.len(), |i: int| key_bits(keys[i]))
}

/// What is put before the reactor.
#[derive(Debug, PartialEq)]
pub enum ReactorMessage<M> {
    /// A peer that is not the uplink asks to be registered.
    RegisterClient,
    /// The uplink asks to be registered.
    RegisterUplink,
    /// A task of the peer has ended, or its queue was closed.
    TaskDied { task: DefaultKey },
    /// The peer has emitted an envelope.
    Message { source: DefaultKey, payload: M },
}

/// What the reactor asks to be done after a message.
#[derive(Debug, PartialEq)]
pub enum Reaction<M> {
    /// The peer is registered under `key`: its reader and its supervisor are to be started.
    Registered { key: DefaultKey, uplink: bool },
    /// The registry is full: the peer is not registered.
    Full,
    /// The peer is removed: its reader and its supervisor are to be stopped.
    Removed { key: DefaultKey, uplink: bool },
    /// The handle is of no registered peer: nothing is to be done.
    Ignored,
    /// A copy of the envelope is to be put on the queue of each target.
    Deliver { targets: Vec<DefaultKey>, payload: M },
}

/// The registry of peers. Of each peer it knows on which side it stands.
pub struct Reactor {
    tasks: Slots,
}

impl Reactor {
    /// Whether the registry is in order: it holds finitely many peers.
    pub closed spec fn wf(&self) -> bool {
        entries(self.tasks).dom().finite()
    }

    /// The registered peers: for the number of each handle, whether the
    /// peer is an uplink.
    pub closed spec fn peers(&self) -> Map<u64, bool> {
        entries(self.tasks)
    }

    /// A reactor without peers.
    pub fn new() -> (r: Reactor)
        ensures
            r.wf(),
            r.peers() == Map::<u64, bool>::empty(),
    {
        Reactor { tasks: slots_new() }
    }

    /// The number of registered peers.
    pub fn len(&self) -> (n: usize)
        requires
            self.wf(),
        ensures
            self.peers().dom().finite(),
            n == self.peers().dom().len(),
    {
        slots_len(&self.tasks)
    }

    /// On which side the peer of a handle stands, if it is registered.
    pub fn is_uplink(&self, key: DefaultKey) -> (r: Option<bool>)
        ensures
            r == (if self.peers().dom().contains(key_bits(key)) {
                Some(self.peers()[key_bits(key)])
            } else {
                None::<bool>
            }),
    {
        slots_get(&self.tasks, key)
    }

    /// Registers a peer, unless the registry is full. The handle is new:
    /// it is of no peer that was registered.
    pub fn register(&mut self, uplink: bool) -> (r: Option<DefaultKey>)
        requires
            old(self).wf(),
        ensures
            final(self).wf(),
            old(self).peers().dom().finite(),
            match r {
                Some(key) => old(self).peers().dom().len() < CAPACITY && !old(
                    self,
                ).peers().dom().contains(key_bits(key)) && final(self).peers() == old(
                    self,
                ).peers().insert(key_bits(key), uplink),
                None => old(self).peers().dom().len() >= CAPACITY && final(self).peers() == old(
                    self,
                ).peers(),
            },
    {
        if slots_len(&self.tasks) >= CAPACITY {
            None
        } else {
            let key = slots_insert(&mut self.tasks, uplink);
            Some(key)
        }
    }

    /// Removes a peer, and tells on which side it stood. A handle of no
    /// registered peer changes nothing.
    pub fn remove(&mut self, key: DefaultKey) -> (r: Option<bool>)
        requires
            old(self).wf(),
        ensures
            final(self).wf(),
            final(self).peers() == old(self).peers().remove(key_bits(key)),
            r == (if old(self).peers().dom().contains(key_bits(key)) {
                Some(old(self).peers()[key_bits(key)])
            } else {
                None::<bool>
            }),
    {
        slots_remove(&mut self.tasks, key)
    }

    /// The peers that are handed what `source` emits: each registered peer
    /// on the other side, once; none where `source` is not registered.
    pub fn targets(&self, source: DefaultKey) -> (r: Vec<DefaultKey>)
        requires
            self.wf(),
        ensures
            ids(r@).no_duplicates(),
            forall|q: u64| ids(r@).contains(q) <==> receives(self.peers(), key_bits(source), q),
    {
        let mut out: Vec<DefaultKey> = Vec::new();
        let from_uplink = match slots_get(&self.tasks, source) {
            Some(flag) => flag,
            None => {
                assert(ids(out@) == Seq::<u64>::empty());
                return out;
            },
        };
        let list = slots_list(&self.tasks);
        let ghost peers = self.peers();
        let mut i: usize = 0;
        assert(ids(out@) == Seq::<u64>::empty());
        while i < list.len()
            invariant
                i <= list.len(),
                peers == entries(self.tasks),
                peers.dom().finite(),
                list@.len() == peers.dom().len(),
                peers.dom().contains(key_bits(source)),
                peers[key_bits(source)] == from_uplink,
                forall|k: int|
                    0 <= k < list@.len() ==> peers.dom().contains(#[trigger] key_bits(list@[k].0))
                        && peers[key_bits(list@[k].0)] == list@[k].1,
                forall|k: int, j: int|
                    0 <= k < j < list@.len() ==> key_bits(list@[k].0) != key_bits(list@[j].0),
                ids(out@).no_duplicates(),
                forall|q: u64|
                    ids(out@).contains(q) <==> exists|k: int|
                        0 <= k < i && #[trigger] key_bits(list@[k].0) == q && list@[k].1
                            != from_uplink,
            decreases list.len() - i,
        {
            let (key, uplink) = list[i];
            if uplink != from_uplink {
                let ghost before = ids(out@);
                out.push(key);
                proof {
                    assert(ids(out@) == before.push(key_bits(key)));
                    assert(!before.contains(key_bits(key))) by {
                        if before.contains(key_bits(key)) {
                            let k = choose|k: int|
                                0 <= k < i && #[trigger] key_bits(list@[k].0) == key_bits(key)
                                    && list@[k].1 != from_uplink;
                            assert(key_bits(list@[k].0) != key_bits(list@[i as int].0));
                        }
                    }
                    assert forall|q: u64| ids(out@).contains(q) <==> exists|k: int|
                        0 <= k < i + 1 && #[trigger] key_bits(list@[k].0) == q && list@[k].1
                            != from_uplink by {
                        if ids(out@).contains(q) {
                            let at = choose|at: int| 0 <= at < ids(out@).len() && ids(out@)[at] == q;
                            if at < before.len() {
                                assert(before[at] == q);
                                assert(before.contains(q));
                            } else {
                                assert(key_bits(list@[i as int].0) == q);
                            }
                        }
                        if exists|k: int|
                            0 <= k < i + 1 && #[trigger] key_bits(list@[k].0) == q && list@[k].1
                                != from_uplink {
                            let k = choose|k: int|
                                0 <= k < i + 1 && #[trigger] key_bits(list@[k].0) == q
                                    && list@[k].1 != from_uplink;
                            if k < i {
                                assert(before.contains(q));
                                let at = choose|at: int| 0 <= at < before.len() && before[at] == q;
                                assert(ids(out@)[at] == q);
                            } else {
                                assert(ids(out@)[before.len() as int] == q);
                            }
                        }
                    }
                }
            }
            i = i + 1;
        }
        proof {
            assert forall|q: u64| ids(out@).contains(q) <==> receives(
                peers,
                key_bits(source),
                q,
            ) by {
                if receives(peers, key_bits(source), q) {
                    let listed = Seq::new(list@.len(), |k: int| key_bits(list@[k].0));
                    assert forall|k: int| 0 <= k < listed.len() implies peers.dom().contains(
                        #[trigger] listed[k],
                    ) by {
                        assert(peers.dom().contains(key_bits(list@[k].0)));
                    }
                    lemma_listed_all(peers.dom(), listed, q);
                    let k = choose|k: int| 0 <= k < listed.len() && listed[k] == q;
                    assert(key_bits(list@[k].0) == q && list@[k].1 != from_uplink);
                }
            }
        }
        out
    }

    /// Takes one message and says what is to be done.
    ///
    /// A peer that asks for it is registered, unless the registry is full. A
    /// peer that died is removed. An envelope is to be delivered to each
    /// registered peer on the other side of its source, once, and to no
    /// other; from a source that is not registered it is dropped.
    pub fn handle<M>(&mut self, message: ReactorMessage<M>) -> (r: Reaction<M>)
        requires
            old(self).wf(),
        ensures
            final(self).wf(),
            handled(old(self).peers(), message, final(self).peers(), r),
    {
        match message {
            ReactorMessage::RegisterClient => match self.register(false) {
                Some(key) => Reaction::Registered { key, uplink: false },
                None => Reaction::Full,
            },
            ReactorMessage::RegisterUplink => match self.register(true) {
                Some(key) => Reaction::Registered { key, uplink: true },
                None => Reaction::Full,
            },
            ReactorMessage::TaskDied { task } => match self.remove(task) {
                Some(uplink) => Reaction::Removed { key: task, uplink },
                None => {
                    assert(old(self).peers().remove(key_bits(task)) == old(self).peers());
                    Reaction::Ignored
                },
            },
            ReactorMessage::Message { source, payload } => match self.is_uplink(source) {
                Some(_) => {
                    let targets = self.targets(source);
                    Reaction::Deliver { targets, payload }
                },
                None => Reaction::Ignored,
            },
        }
    }
}

/// What one step of the reactor does to the registry, and what it asks for.
pub open spec fn handled<M>(
    before: Map<u64, bool>,
    message: ReactorMessage<M>,
    after: Map<u64, bool>,
    r: Reaction<M>,
) -> bool {
    match message {
        ReactorMessage::RegisterClient => registered(before, false, after, r),
        ReactorMessage::RegisterUplink => registered(before, true, after, r),
        ReactorMessage::TaskDied { task } => after == before.remove(key_bits(task)) && r == (
        if before.dom().contains(key_bits(task)) {
            Reaction::<M>::Removed { key: task, uplink: before[key_bits(task)] }
        } else {
            Reaction::<M>::Ignored
        }),
        ReactorMessage::Message { source, payload } => after == before && (
        if before.dom().contains(key_bits(source)) {
            r matches Reaction::Deliver { targets, payload: copy } && copy == payload && ids(
                targets@,
            ).no_duplicates() && forall|q: u64|
                ids(targets@).contains(q) <==> receives(before, key_bits(source), q)
        } else {
            r == Reaction::<M>::Ignored
        }),
    }
}

/// What a registration does: below the capacity, the peer is stored under
/// a handle that was not in use; at the capacity, nothing changes.
pub open spec fn registered<M>(
    before: Map<u64, bool>,
    uplink: bool,
    after: Map<u64, bool>,
    r: Reaction<M>,
) -> bool {
    if before.dom().len() < CAPACITY {
        r matches Reaction::Registered { key, uplink: side } && side == uplink
            && !before.dom().contains(key_bits(key)) && after == before.insert(
            key_bits(key),
            uplink,
        )
    } else {
        r == Reaction::<M>::Full && after == before
    }
}

/// A list that holds as many distinct members of a finite set as the set
/// has members holds every member.
pub proof fn lemma_listed_all(dom: Set<u64>, listed: Seq<u64>, q: u64)
    requires
        dom.finite(),
        listed.len() == dom.len(),
        listed.no_duplicates(),
        forall|k: int| 0 <= k < listed.len() ==> dom.contains(#[trigger] listed[k]),
        dom.contains(q),
    ensures
        listed.contains(q),
{
    listed.unique_seq_to_set();
    assert(listed.to_set().subset_of(dom)) by {
        assert forall|x: u64| listed.to_set().contains(x) implies dom.contains(x) by {
            let k = choose|k: int| 0 <= k < listed.len() && listed[k] == x;
            assert(dom.contains(listed[k]));
        }
    }
    vstd::set_lib::lemma_subset_equality(listed.to_set(), dom);
    assert(listed.to_set().contains(q));
}

/// No peer is handed what it emitted itself.
pub proof fn no_echo(peers: Map<u64, bool>, p: u64)
    ensures
        !receives(peers, p, p),
{
}

/// The envelopes of a run that are handed to `q`, in the order of the run.
/// An envelope of a run is the number of its source and what it holds.
pub open spec fn handed_to<M>(peers: Map<u64, bool>, run: Seq<(u64, M)>, q: u64) -> Seq<(u64, M)>
    decreases run.len(),
{
    if run.len() == 0 {
        Seq::empty()
    } else if receives(peers, run.last().0, q) {
        handed_to(peers, run.drop_last(), q).push(run.last())
    } else {
        handed_to(peers, run.drop_last(), q)
    }
}

/// The envelopes of a run that `p` emitted, in the order of the run.
pub open spec fn emitted_by<M>(run: Seq<(u64, M)>, p: u64) -> Seq<(u64, M)>
    decreases run.len(),
{
    if run.len() == 0 {
        Seq::empty()
    } else if run.last().0 == p {
        emitted_by(run.drop_last(), p).push(run.last())
    } else {
        emitted_by(run.drop_last(), p)
    }
}

/// Between two registered peers on opposite sides, what one emits over a
/// run is what the other is handed from it: every envelope, once, in the
/// order of emission.
pub proof fn fan_out_in_order<M>(peers: Map<u64, bool>, run: Seq<(u64, M)>, p: u64, q: u64)
    requires
        receives(peers, p, q),
    ensures
        emitted_by(handed_to(peers, run, q), p) == emitted_by(run, p),
    decreases run.len(),
{
    if run.len() > 0 {
        fan_out_in_order(peers, run.drop_last(), p, q);
        if receives(peers, run.last().0, q) {
            let handed = handed_to(peers, run, q);
            assert(handed.last() == run.last());
            assert(handed.drop_last() == handed_to(peers, run.drop_last(), q));
        }
    }
}

/// Between two peers on the same side nothing passes: of what one emits,
/// the other is handed nothing.
pub proof fn same_side_is_silent<M>(peers: Map<u64, bool>, run: Seq<(u64, M)>, p: u64, q: u64)
    requires
        !receives(peers, p, q),
    ensures
        emitted_by(handed_to(peers, run, q), p) == Seq::<(u64, M)>::empty(),
    decreases run.len(),
{
    if run.len() > 0 {
        same_side_is_silent(peers, run.drop_last(), p, q);
        if receives(peers, run.last().0, q) {
            let handed = handed_to(peers, run, q);
            assert(handed.last() == run.last());
            assert(handed.drop_last() == handed_to(peers, run.drop_last(), q));
        }
    }
}

} // verus!
