//! Facts about `Seq::filter` that the window manager's proofs use.

use vstd::prelude::*;

verus! {

/// Filtering with a predicate that every element meets changes nothing.
pub proof fn lemma_filter_keeps_all<A>(s: Seq<A>, p: spec_fn(A) -> bool)
    requires
        forall|j: int| 0 <= j < s.len() ==> p(s[j]),
    ensures
        s.filter(p) == s,
    decreases s.len(),
{
    reveal(Seq::filter);
    if s.len() > 0 {
        lemma_filter_keeps_all(s.drop_last(), p);
        assert(s.drop_last().push(s.last()) =~= s);
    }
}

/// Filtering out the one element that fails the predicate is removing it.
pub proof fn lemma_filter_removes_one<A>(s: Seq<A>, i: int, p: spec_fn(A) -> bool)
    requires
        0 <= i < s.len(),
        !p(s[i]),
        forall|j: int| 0 <= j < s.len() && j != i ==> p(s[j]),
    ensures
        s.filter(p) == s.remove(i),
    decreases s.len(),
{
    reveal(Seq::filter);
    let init = s.drop_last();
    if i == s.len() - 1 {
        lemma_filter_keeps_all(init, p);
        assert(s.remove(i) =~= init);
    } else {
        lemma_filter_removes_one(init, i, p);
        assert(s.remove(i) =~= init.remove(i).push(s.last()));
    }
}

} // verus!
