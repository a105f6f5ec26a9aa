//! The concurrent hash map of the `dashmap` crate, from text to integers, as a
//! map that its owner holds exclusively.
//!
//! `dashmap` mutates through shared references. Here every mutation takes an
//! exclusive reference, so that a map value stands for one state of the map.

use dashmap::mapref::entry::Entry;
use dashmap::DashMap;
use vstd::prelude::*;

verus! {

/// `dashmap::DashMap`, opaque to the proofs.
#[verifier::external_type_specification]
#[verifier::external_body]
#[verifier::reject_recursive_types(K)]
#[verifier::reject_recursive_types(V)]
#[verifier::reject_recursive_types(S)]
pub struct ExDashMap<K, V, S>(DashMap<K, V, S>);

/// What a `DashMap` holds: the number under each key.
pub uninterp spec fn entries_of(map: DashMap<String, u64>) -> Map<Seq<char>, u64>;

/// The map without any key.
pub open spec fn no_entries() -> Map<Seq<char>, u64> {
    Map::empty()
}

/// The largest capacity that a new map is asked for.
pub const MAX_CAPACITY: usize = 1_000_000;

/// `DashMap::with_capacity`: a new map is empty, whatever room it sets aside.
/// Asking for more room than memory can hold panics, so the request is bounded.
#[verifier::external_body]
pub(crate) fn new_map(capacity: usize) -> (created: DashMap<String, u64>)
    requires
        capacity <= MAX_CAPACITY,
    ensures
        entries_of(created) == no_entries(),
{
    DashMap::with_capacity(capacity)
}

/// `DashMap::len`: the number of keys.
#[verifier::external_body]
pub(crate) fn key_count(map: &DashMap<String, u64>) -> (n: usize)
    ensures
        n == entries_of(*map).dom().len(),
{
    map.len()
}

/// `DashMap::get`: the number under `key`, if there is one.
#[verifier::external_body]
pub(crate) fn number_at(map: &DashMap<String, u64>, key: &str) -> (r: Option<u64>)
    ensures
        r == (if entries_of(*map).contains_key(key@) {
            Some(entries_of(*map)[key@])
        } else {
            None
        }),
{
    map.get(key).map(|entry| *entry.value())
}

/// Adds one to a count.
fn increment(count: &mut u64)
    requires
        *old(count) < u64::MAX,
    ensures
        *final(count) == *old(count) + 1,
{
    *count = *count + 1;
}

/// `DashMap::entry` with `and_modify` and `or_insert`: a number that is there is
/// incremented, one that is missing is set to `first`; no other key changes.
#[verifier::external_body]
pub(crate) fn increment_or_insert(map: &mut DashMap<String, u64>, key: String, first: u64)
    requires
        entries_of(*old(map)).contains_key(key@) ==> entries_of(*old(map))[key@] < u64::MAX,
    ensures
        entries_of(*final(map)) == entries_of(*old(map)).insert(
            key@,
            if entries_of(*old(map)).contains_key(key@) {
                (entries_of(*old(map))[key@] + 1) as u64
            } else {
                first
            },
        ),
{
    map.entry(key).and_modify(|count| increment(count)).or_insert(first);
}

/// `DashMap::entry`, told apart: an occupied entry yields its number and stays,
/// a vacant one takes `value`.
#[verifier::external_body]
pub(crate) fn claim(map: &mut DashMap<String, u64>, key: String, value: u64) -> (r: Option<u64>)
    ensures
        entries_of(*old(map)).contains_key(key@) ==> {
            &&& r == Some(entries_of(*old(map))[key@])
            &&& entries_of(*final(map)) == entries_of(*old(map))
        },
        !entries_of(*old(map)).contains_key(key@) ==> {
            &&& r is None
            &&& entries_of(*final(map)) == entries_of(*old(map)).insert(key@, value)
        },
{
    match map.entry(key) {
        Entry::Occupied(entry) => Some(*entry.get()),
        Entry::Vacant(entry) => {
            entry.insert(value);
            None
        },
    }
}

/// `DashMap::remove`: the key is gone and no other key changes; the number that
/// stood under it is handed out.
#[verifier::external_body]
pub(crate) fn remove_key(map: &mut DashMap<String, u64>, key: &str) -> (r: Option<u64>)
    ensures
        entries_of(*final(map)) == entries_of(*old(map)).remove(key@),
        r == (if entries_of(*old(map)).contains_key(key@) {
            Some(entries_of(*old(map))[key@])
        } else {
            None
        }),
{
    map.remove(key).map(|pair| pair.1)
}

/// `items` lists what `map` holds, each key once, in some order.
pub open spec fn lists(items: Seq<(String, u64)>, map: Map<Seq<char>, u64>) -> bool {
    &&& forall|i: int, j: int|
        0 <= i < j < items.len() ==> #[trigger] items[i].0@ != #[trigger] items[j].0@
    &&& forall|i: int|
        0 <= i < items.len() ==> map.contains_key(#[trigger] items[i].0@) && map[items[i].0@]
            == items[i].1
    &&& forall|key: Seq<char>| #[trigger]
        map.contains_key(key) ==> exists|i: int| 0 <= i < items.len() && items[i].0@ == key
}

/// `DashMap::iter`: every key comes once, with its number. In which order they
/// come is not said.
#[verifier::external_body]
pub(crate) fn items_of(map: &DashMap<String, u64>) -> (items: Vec<(String, u64)>)
    ensures
        lists(items@, entries_of(*map)),
{
    map.iter().map(|entry| (entry.key().clone(), *entry.value())).collect()
}

} // verus!
