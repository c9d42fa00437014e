//! The keys of a hash map, which the standard library hands out in no
//! particular order.

use std::collections::HashMap;
use std::hash::Hash;
use vstd::prelude::*;
use vstd::std_specs::hash::obeys_key_model;
use vstd::std_specs::iter::IteratorSpec;

verus! {

/// The keys of `map`, each once.
pub fn keys_of<K: Copy + Eq + Hash, V>(map: &HashMap<K, V>) -> (keys: Vec<K>)
    requires
        obeys_key_model::<K>(),
    ensures
        keys@.to_set() == map@.dom(),
        keys@.no_duplicates(),
{
    broadcast use vstd::std_specs::hash::group_hash_axioms;

    let mut keys: Vec<K> = Vec::new();
    for key in it: map.keys()
        invariant
            it.seq().unref().to_set() == map@.dom(),
            it.seq().no_duplicates(),
            keys@ == it.seq().unref().take(it.index() as int),
            it.index() == it.seq().len() ==> keys@ == it.seq().unref(),
    {
        keys.push(*key);
        proof {
            let all = it.seq().unref();
            assert(all.take(all.len() as int) == all);
        }
    }
    proof {
        let found = keys@;
        assert forall|i: int, j: int| 0 <= i < j < found.len() implies found[i] != found[j] by {}
    }
    keys
}

} // verus!
