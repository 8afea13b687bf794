//! The concurrent map that holds the open sessions, and what is assumed of it.

use std::sync::Arc;

use dashmap::mapref::entry::Entry;
use dashmap::DashMap;
use vstd::prelude::*;

use crate::session::{SessionEntry, SessionView};

verus! {

/// The concurrent hash map of the `dashmap` crate, as an opaque type.
#[verifier::external_type_specification]
#[verifier::external_body]
#[verifier::reject_recursive_types(K)]
#[verifier::reject_recursive_types(V)]
#[verifier::reject_recursive_types(S)]
pub struct ExDashMap<K, V, S>(DashMap<K, V, S>);

/// What a session map holds: the entry stored under each global session id.
pub uninterp spec fn table_contents(map: DashMap<u32, Arc<SessionEntry>>) -> Map<u32, SessionView>;

/// `DashMap::new`: a new map holds nothing.
#[verifier::external_body]
pub(crate) fn new_table() -> (map: DashMap<u32, Arc<SessionEntry>>)
    ensures
        (table_contents(map) == Map::<u32, SessionView>::empty()),
{
    DashMap::new()
}

/// `DashMap::entry`: a vacant key takes the entry; under an occupied key
/// nothing changes. The result says whether the key was vacant.
#[verifier::external_body]
pub(crate) fn insert_if_vacant(
    map: &mut DashMap<u32, Arc<SessionEntry>>,
    key: u32,
    entry: Arc<SessionEntry>,
) -> (inserted: bool)
    ensures
        inserted == !table_contents(*old(map)).contains_key(key),
        table_contents(*final(map)) == if inserted {
            table_contents(*old(map)).insert(key, entry@)
        } else {
            table_contents(*old(map))
        },
{
    match map.entry(key) {
        Entry::Vacant(vacant) => {
            vacant.insert(entry);
            true
        },
        Entry::Occupied(_) => false,
    }
}

/// `DashMap::get`: the entry under a key, or `None` where the key is absent.
#[verifier::external_body]
pub(crate) fn lookup(map: &DashMap<u32, Arc<SessionEntry>>, key: u32) -> (found: Option<
    Arc<SessionEntry>,
>)
    ensures
        found is Some <==> table_contents(*map).contains_key(key),
        found matches Some(entry) ==> entry@ == table_contents(*map)[key],
{
    map.get(&key).map(|item| item.value().clone())
}

/// `DashMap::remove`: takes the entry under a key out of the map and returns
/// it; where the key is absent, the map stays as it is.
#[verifier::external_body]
pub(crate) fn take(map: &mut DashMap<u32, Arc<SessionEntry>>, key: u32) -> (taken: Option<
    Arc<SessionEntry>,
>)
    ensures
        table_contents(*final(map)) == table_contents(*old(map)).remove(key),
        taken is Some <==> table_contents(*old(map)).contains_key(key),
        taken matches Some(entry) ==> entry@ == table_contents(*old(map))[key],
{
    map.remove(&key).map(|item| item.1)
}

/// `DashMap::iter`: every key of the map once, with its entry, in no
/// particular order.
#[verifier::external_body]
pub(crate) fn items(map: &DashMap<u32, Arc<SessionEntry>>) -> (items: Vec<(u32, Arc<SessionEntry>)>)
    ensures
        forall|i: int|
            0 <= i < items@.len() ==> table_contents(*map).contains_key((#[trigger] items@[i]).0)
                && items@[i].1@ == table_contents(*map)[items@[i].0],
        forall|key: u32| #[trigger]
            table_contents(*map).contains_key(key) ==> exists|i: int|
                0 <= i < items@.len() && (#[trigger] items@[i]).0 == key,
        forall|i: int, j: int|
            0 <= i < j < items@.len() ==> (#[trigger] items@[i]).0 != (#[trigger] items@[j]).0,
{
    map.iter().map(|item| (*item.key(), item.value().clone())).collect()
}

/// `DashMap::len`: the number of keys in the map.
#[verifier::external_body]
pub(crate) fn count(map: &DashMap<u32, Arc<SessionEntry>>) -> (n: usize)
    ensures
        n == table_contents(*map).len(),
{
    map.len()
}

} // verus!
