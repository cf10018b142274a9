//! The generational map that holds the subscriptions.

use vstd::prelude::*;
use slotmap::{DefaultKey, DenseSlotMap};
use crate::reactor::slots::key_bits;
use crate::subscription::{CANSubscription, Pattern};

verus! {

/// The map from handles to subscriptions: a `DenseSlotMap`.
#[verifier::external_body]
pub struct Table {
    inner: DenseSlotMap<DefaultKey, CANSubscription>,
}

/// What the map holds: for the number of each live handle, the pattern of
/// the subscription stored under it.
pub uninterp spec fn subscribed(table: Table) -> Map<u64, Pattern>;

/// The number of entries from which on the map takes no more.
pub const TABLE_CAPACITY: usize = 0xffff_fffe;

/// `DenseSlotMap::new`: a map that holds nothing.
#[verifier::external_body]
pub(crate) fn table_new() -> (table: Table)
    ensures
        subscribed(table).dom() == Set::<u64>::empty(),
{
    Table { inner: DenseSlotMap::new() }
}

/// `DenseSlotMap::len`: the number of entries.
#[verifier::external_body]
pub(crate) fn table_len(table: &Table) -> (n: usize)
    requires
        subscribed(*table).dom().finite(),
    ensures
        n == subscribed(*table).dom().len(),
{
    table.inner.len()
}

/// `DenseSlotMap::insert`: the subscription is stored under a handle that
/// was not live, and that handle is returned. It panics on a map that is full.
#[verifier::external_body]
pub(crate) fn table_insert(table: &mut Table, subscription: CANSubscription) -> (key: DefaultKey)
    requires
        subscribed(*old(table)).dom().finite(),
        subscribed(*old(table)).dom().len() < TABLE_CAPACITY,
    ensures
        !subscribed(*old(table)).dom().contains(key_bits(key)),
        subscribed(*final(table)) == subscribed(*old(table)).insert(key_bits(key), subscription@),
{
    table.inner.insert(subscription)
}

/// `DenseSlotMap::remove`: the handle is live no more. Whether it was
/// live is returned.
#[verifier::external_body]
pub(crate) fn table_remove(table: &mut Table, key: DefaultKey) -> (was: bool)
    ensures
        subscribed(*final(table)) == subscribed(*old(table)).remove(key_bits(key)),
        was == subscribed(*old(table)).dom().contains(key_bits(key)),
{
    table.inner.remove(key).is_some()
}

/// `DenseSlotMap::iter`, collected: each live handle once, with its
/// subscription. The order is the map's own.
#[verifier::external_body]
pub(crate) fn table_list(table: &Table) -> (list: Vec<(DefaultKey, CANSubscription)>)
    requires
        subscribed(*table).dom().finite(),
    ensures
        list@.len() == subscribed(*table).dom().len(),
        forall|i: int|
            0 <= i < list@.len() ==> subscribed(*table).dom().contains(
                #[trigger] key_bits(list@[i].0),
            ) && subscribed(*table)[key_bits(list@[i].0)] == list@[i].1@,
        forall|i: int, j: int|
            0 <= i < j < list@.len() ==> key_bits(list@[i].0) != key_bits(list@[j].0),
{
    table.inner.iter().map(|(key, subscription)| (key, *subscription)).collect()
}

} // verus!
