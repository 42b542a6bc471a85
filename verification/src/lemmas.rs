//! Facts about sequences that the proofs of this crate share.

use vstd::prelude::*;

verus! {

/// Appending an element adds it to the set of elements.
pub proof fn lemma_push_to_set<A>(s: Seq<A>, x: A)
    ensures
        s.push(x).to_set() == s.to_set().insert(x),
{
    let t = s.push(x);
    assert forall|y: A| #![auto] t.to_set().contains(y) <==> s.to_set().insert(x).contains(y) by {
        if t.contains(y) && y != x {
            let j = choose|j: int| 0 <= j < t.len() && t[j] == y;
            assert(s[j] == y);
        }
        if s.contains(y) {
            let j = choose|j: int| 0 <= j < s.len() && s[j] == y;
            assert(t[j] == y);
        }
        if y == x {
            assert(t[t.len() - 1] == y);
        }
    }
    assert(t.to_set() =~= s.to_set().insert(x));
}

} // verus!
