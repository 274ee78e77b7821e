//! Help with maps keyed by number.
use std::collections::HashMap;

use vstd::prelude::*;

verus! {

broadcast use vstd::std_specs::hash::group_hash_axioms;

/// The keys of a map, in no particular order.
pub fn keys_of<V>(table: &HashMap<u64, V>) -> (r: Vec<u64>)
    ensures
        r@.no_duplicates(),
        r@.to_set() == table@.dom(),
        forall|key: u64| r@.contains(key) <==> #[trigger] table@.contains_key(key),
{
    let mut r: Vec<u64> = Vec::new();
    for key in it: table.keys()
        invariant
            r@ == it.seq().take(it.index()).unref(),
            it.seq().unref().to_set() == table@.dom(),
            it.seq().no_duplicates(),
            it.index() == it.seq().len() ==> r@.to_set() == table@.dom(),
    {
        r.push(*key);
        assert(it.index() + 1 == it.seq().len() ==> r@ =~= it.seq().unref());
    }
    assert forall|key: u64| r@.contains(key) <==> #[trigger] table@.contains_key(key) by {
        assert(r@.to_set().contains(key) == table@.dom().contains(key));
    }
    r
}

} // verus!
