use vstd::prelude::*;

verus! {

/// Some element among the first `n` of `s` satisfies `p`.
pub open spec fn some_before<A>(s: Seq<A>, n: int, p: spec_fn(A) -> bool) -> bool {
    exists|k: int| 0 <= k < n && #[trigger] p(s[k])
}

/// Updating element `i` in place extends what the first `i` elements showed by
/// that element alone.
pub proof fn lemma_some_before_step<A>(prev: Seq<A>, next: Seq<A>, i: int, p: spec_fn(A) -> bool)
    requires
        0 <= i < prev.len(),
        next.len() == prev.len(),
        forall|k: int| 0 <= k < i ==> next[k] == prev[k],
    ensures
        some_before(next, i + 1, p) == (some_before(prev, i, p) || p(next[i])),
{
    if some_before(prev, i, p) {
        let w = choose|k: int| 0 <= k < i && #[trigger] p(prev[k]);
        assert(p(next[w]));
    }
    if !some_before(prev, i, p) && !p(next[i]) {
        assert forall|k: int| 0 <= k < i + 1 implies !(#[trigger] p(next[k])) by {
            if k < i {
                assert(next[k] == prev[k]);
            }
        }
    }
}

} // verus!
