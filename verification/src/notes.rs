//! Sets of held MIDI notes.

use vstd::prelude::*;
use vstd::std_specs::btree::{group_btree_axioms, increasing_seq, spec_btree_keys_iter};
use vstd::std_specs::iter::IteratorSpec;
use vstd::std_specs::cmp::OrdSpec;
use std::collections::BTreeSet;

verus! {

broadcast use group_btree_axioms, vstd::laws_cmp::group_laws_cmp;

/// Strictly increasing.
pub open spec fn strictly_increasing(s: Seq<u8>) -> bool {
    forall|i: int, j: int| 0 <= i < j < s.len() ==> s[i] < s[j]
}

/// Two borrowed notes in increasing order.
spec fn ordered_before(a: &u8, b: &u8) -> bool {
    (&a).cmp_spec(&b) is Less
}

/// The notes of a set in increasing order.
pub fn sorted_notes(notes: &BTreeSet<u8>) -> (r: Vec<u8>)
    ensures
        strictly_increasing(r@),
        r@.to_set() == notes@,
        r@.len() == notes@.len(),
{
    let mut r: Vec<u8> = Vec::new();
    let ghost s = spec_btree_keys_iter(notes).remaining();
    for x in it: notes.iter()
        invariant
            s == spec_btree_keys_iter(notes).remaining(),
            it.seq() == s,
            r@.len() == it.index(),
            forall|k: int| 0 <= k < it.index() ==> r@[k] == *s[k],
    {
        r.push(*x);
    }
    proof {
        assert(increasing_seq(s));
        assert forall|i: int, j: int| 0 <= i < j < r@.len() implies r@[i] < r@[j] by {
            assert(ordered_before(s[i], s[j]));
        }
        assert(r@ =~= s.unref());
    }
    r
}

} // verus!
