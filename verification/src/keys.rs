//! Listing the identifiers that key a map.

use std::collections::HashMap;
use vstd::prelude::*;
use vstd::std_specs::hash::spec_keys_iter;
use vstd::std_specs::iter::IteratorSpec;

verus! {

broadcast use vstd::std_specs::hash::group_hash_axioms;

/// The keys of `m`, each once, in the map's own walking order.
pub fn map_keys<V>(m: &HashMap<usize, V>) -> (keys: Vec<usize>)
    ensures
        keys@.to_set() == m@.dom(),
        keys@.no_duplicates(),
        keys@.len() == m@.len(),
{
    let mut keys: Vec<usize> = Vec::new();
    for k in it: m.keys()
        invariant
            keys@ == it.seq().take(it.index()).unref(),
            it.seq() == spec_keys_iter(m).remaining(),
    {
        proof {
            assert(it.seq().take(it.index() + 1).unref() =~= it.seq().take(it.index()).unref().push(*k));
        }
        keys.push(*k);
    }
    proof {
        let all = spec_keys_iter(m).remaining();
        assert(all.take(all.len() as int) =~= all);
        assert(keys@ =~= all.unref());
    }
    keys
}

} // verus!
