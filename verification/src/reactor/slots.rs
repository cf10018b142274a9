//! The generational map that holds the peers.

use vstd::prelude::*;
use slotmap::{DefaultKey, DenseSlotMap};

verus! {

/// The handle of a peer. Nothing here looks inside one.
#[verifier::external_type_specification]
#[verifier::external_body]
pub struct ExDefaultKey(DefaultKey);

/// The map from handles to what is stored under them: a `DenseSlotMap`
/// that holds, for each peer, whether it is an uplink.
#[verifier::external_body]
pub struct Slots {
    inner: DenseSlotMap<DefaultKey, bool>,
}

/// The number that stands for a handle: no two handles share one.
pub uninterp spec fn key_bits(key: DefaultKey) -> u64;

/// What the map holds: for the number of each live handle, the flag stored under it.
pub uninterp spec fn entries(map: Slots) -> Map<u64, bool>;

/// The number of entries from which on the map takes no more.
pub const CAPACITY: usize = 0xffff_fffe;

/// `DenseSlotMap::new`: a map that holds nothing.
#[verifier::external_body]
pub(crate) fn slots_new() -> (slots: Slots)
    ensures
        entries(slots).dom() == Set::<u64>::empty(),
{
    Slots { inner: DenseSlotMap::new() }
}

/// `DenseSlotMap::len`: the number of entries.
#[verifier::external_body]
pub(crate) fn slots_len(map: &Slots) -> (n: usize)
    requires
        entries(*map).dom().finite(),
    ensures
        n == entries(*map).dom().len(),
{
    map.inner.len()
}

/// `DenseSlotMap::insert`: the flag is stored under a handle that was not
/// live, and that handle is returned. It panics on a map that is full.
#[verifier::external_body]
pub(crate) fn slots_insert(map: &mut Slots, flag: bool) -> (key:
    DefaultKey)
    requires
        entries(*old(map)).dom().finite(),
        entries(*old(map)).dom().len() < CAPACITY,
    ensures
        !entries(*old(map)).dom().contains(key_bits(key)),
        entries(*final(map)) == entries(*old(map)).insert(key_bits(key), flag),
{
    map.inner.insert(flag)
}

/// `DenseSlotMap::get`: the flag stored under the handle, if the handle is live.
#[verifier::external_body]
pub(crate) fn slots_get(map: &Slots, key: DefaultKey) -> (flag: Option<
    bool,
>)
    ensures
        flag == (if entries(*map).dom().contains(key_bits(key)) {
            Some(entries(*map)[key_bits(key)])
        } else {
            None::<bool>
        }),
{
    map.inner.get(key).copied()
}

/// `DenseSlotMap::remove`: the handle is live no more, and the flag that
/// was stored under it, if it was live, is returned.
#[verifier::external_body]
pub(crate) fn slots_remove(map: &mut Slots, key: DefaultKey) -> (flag:
    Option<bool>)
    ensures
        entries(*final(map)) == entries(*old(map)).remove(key_bits(key)),
        flag == (if entries(*old(map)).dom().contains(key_bits(key)) {
            Some(entries(*old(map))[key_bits(key)])
        } else {
            None::<bool>
        }),
{
    map.inner.remove(key)
}

/// `DenseSlotMap::iter`, collected: each live handle once, with its flag.
/// The order is the map's own.
#[verifier::external_body]
pub(crate) fn slots_list(map: &Slots) -> (list: Vec<(DefaultKey, bool)>)
    requires
        entries(*map).dom().finite(),
    ensures
        list@.len() == entries(*map).dom().len(),
        forall|i: int|
            0 <= i < list@.len() ==> entries(*map).dom().contains(#[trigger] key_bits(list@[i].0))
                && entries(*map)[key_bits(list@[i].0)] == list@[i].1,
        forall|i: int, j: int|
            0 <= i < j < list@.len() ==> key_bits(list@[i].0) != key_bits(list@[j].0),
{
    map.inner.iter().map(|(key, flag)| (key, *flag)).collect()
}

} // verus!
