//! The ids under which an ordered map holds its values.

use std::collections::BTreeMap;
use vstd::prelude::*;
use vstd::std_specs::btree::spec_keys_iter;
use vstd::std_specs::cmp::OrdSpec;
use vstd::std_specs::iter::IteratorSpec;

verus! {

/// Whether `ids` lists the members of `dom` from the smallest up, each of
/// them once.
pub open spec fn lists_ids(ids: Seq<u64>, dom: Set<u64>) -> bool {
    &&& ids.len() == dom.len()
    &&& forall|i: int, j: int| 0 <= i < j < ids.len() ==> ids[i] < ids[j]
    &&& forall|id: u64| ids.contains(id) <==> dom.contains(id)
}

/// The keys of `map` from the smallest up.
pub fn map_keys<V>(map: &BTreeMap<u64, V>) -> (ids: Vec<u64>)
    ensures
        lists_ids(ids@, map@.dom()),
{
    let mut ids: Vec<u64> = Vec::new();
    for key in it: map.keys()
        invariant
            it.seq() == spec_keys_iter(map).remaining(),
            ids@.len() == it.index(),
            forall|i: int| 0 <= i < ids@.len() ==> ids@[i] == *it.seq()[i],
    {
        ids.push(*key);
    }
    proof {
        let keys = spec_keys_iter(map).remaining();
        assert(ids@ =~= keys.unref());
        assert(keys.unref().to_set() == map@.dom());
        broadcast use vstd::laws_cmp::lemma_ref_obeys_cmp_spec;
        vstd::std_specs::btree::axiom_increasing_seq_meaning(keys);
        assert forall|i: int, j: int| 0 <= i < j < ids@.len() implies ids@[i] < ids@[j] by {
            assert(OrdSpec::cmp_spec(&keys[i], &keys[j]) is Less);
        }
        assert forall|id: u64| ids@.contains(id) <==> map@.dom().contains(id) by {
            assert(ids@.to_set().contains(id) <==> ids@.contains(id));
        }
    }
    ids
}

} // verus!
