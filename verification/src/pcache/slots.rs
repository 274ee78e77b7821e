//! The concurrent maps of the `dashmap` crate.
use std::collections::hash_map::RandomState;

use dashmap::{DashMap, DashSet};
use vstd::prelude::*;

verus! {

/// A concurrent map.
#[verifier::external_type_specification]
#[verifier::external_body]
#[verifier::reject_recursive_types(K)]
#[verifier::reject_recursive_types(V)]
#[verifier::reject_recursive_types(S)]
pub struct ExDashMap<K, V, S>(DashMap<K, V, S>);

/// A concurrent set.
#[verifier::external_type_specification]
#[verifier::external_body]
#[verifier::reject_recursive_types(K)]
#[verifier::reject_recursive_types(S)]
pub struct ExDashSet<K, S>(DashSet<K, S>);

/// The entries of a map of places by number.
pub uninterp spec fn slot_map(map: DashMap<u64, usize, RandomState>) -> Map<u64, usize>;

/// The members of a set of numbers.
pub uninterp spec fn member_set(set: DashSet<u64, RandomState>) -> Set<u64>;

/// `DashMap::new`: a map without entries.
#[verifier::external_body]
pub(crate) fn map_new() -> (r: DashMap<u64, usize, RandomState>)
    ensures
        slot_map(r).dom() == Set::<u64>::empty(),
{
    DashMap::new()
}

/// `DashMap::get`: the value of a key, if it has one.
#[verifier::external_body]
pub(crate) fn map_get(map: &DashMap<u64, usize, RandomState>, key: u64) -> (r: Option<usize>)
    ensures
        r == (if slot_map(*map).contains_key(key) {
            Some(slot_map(*map)[key])
        } else {
            None
        }),
{
    map.get(&key).map(|entry| *entry)
}

/// `DashMap::entry` with `Entry::or_insert`: the value that the key has, or
/// the given one, which it has from then on.
#[verifier::external_body]
pub(crate) fn map_get_or_insert(
    map: &mut DashMap<u64, usize, RandomState>,
    key: u64,
    value: usize,
) -> (r: usize)
    ensures
        slot_map(*old(map)).contains_key(key) ==> r == slot_map(*old(map))[key] && slot_map(
            *final(map),
        ) == slot_map(*old(map)),
        !slot_map(*old(map)).contains_key(key) ==> r == value && slot_map(*final(map))
            == slot_map(*old(map)).insert(key, value),
{
    *map.entry(key).or_insert(value)
}

/// `DashSet::new`: a set without members.
#[verifier::external_body]
pub(crate) fn set_new() -> (r: DashSet<u64, RandomState>)
    ensures
        member_set(r) == Set::<u64>::empty(),
{
    DashSet::new()
}

} // verus!
