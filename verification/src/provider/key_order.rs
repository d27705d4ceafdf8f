//! The keys of a `BTreeMap` with integer keys, in ascending order.

use std::collections::BTreeMap;
use vstd::prelude::*;
use vstd::std_specs::cmp::OrdSpec;
use vstd::std_specs::iter::IteratorSpec;

verus! {

broadcast use {vstd::std_specs::btree::group_btree_axioms, vstd::laws_cmp::group_laws_cmp};

spec fn keys_seq<V>(m: &BTreeMap<u64, V>) -> Seq<u64> {
    vstd::std_specs::btree::into_iter_keys(vstd::std_specs::btree::spec_keys_iter(m))
}

/// Every key of `m`, once each, ascending.
pub fn sorted_keys<V>(m: &BTreeMap<u64, V>) -> (r: Vec<u64>)
    ensures
        r@.to_set() == m@.dom(),
        r@.len() == m@.dom().len(),
        forall|i: int, j: int| 0 <= i < j < r@.len() ==> r@[i] < r@[j],
{
    let mut out: Vec<u64> = Vec::new();
    for k in it: m.keys()
        invariant
            it.seq().map_values(|x: &u64| *x) == keys_seq(m),
            out@ == keys_seq(m).subrange(0, it.index()),
    {
        out.push(*k);
    }
    assert(out@ == keys_seq(m));
    proof {
        let rem = vstd::std_specs::btree::spec_keys_iter(m).remaining();
        assert(vstd::laws_cmp::obeys_cmp::<u64>());
        assert(vstd::laws_cmp::obeys_cmp::<&u64>());
        assert(vstd::std_specs::btree::increasing_seq(rem));
        assert(rem.unref() == out@);
        assert forall|i: int, j: int| 0 <= i < j < out@.len() implies out@[i] < out@[j] by {
            assert(OrdSpec::cmp_spec(&rem[i], &rem[j]) is Less);
        }
    }
    out
}

} // verus!
