//! Looking a record up by a key in a list: the first record that matches.

use vstd::prelude::*;

verus! {

/// `i` is the position of the first element of `s` that satisfies `p`.
pub open spec fn is_first_match<A>(s: Seq<A>, p: spec_fn(A) -> bool, i: int) -> bool {
    &&& 0 <= i < s.len()
    &&& p(s[i])
    &&& forall|k: int| 0 <= k < i ==> !p(#[trigger] s[k])
}

/// The first element of `s` that satisfies `p`, if any does.
pub open spec fn first_match<A>(s: Seq<A>, p: spec_fn(A) -> bool) -> Option<A> {
    if exists|i: int| is_first_match(s, p, i) {
        Some(s[choose|i: int| is_first_match(s, p, i)])
    } else {
        None
    }
}

/// No element of `s` satisfies `p`.
pub open spec fn none_match<A>(s: Seq<A>, p: spec_fn(A) -> bool) -> bool {
    forall|k: int| 0 <= k < s.len() ==> !p(#[trigger] s[k])
}

pub proof fn lemma_first_match_at<A>(s: Seq<A>, p: spec_fn(A) -> bool, i: int)
    requires
        is_first_match(s, p, i),
    ensures
        first_match(s, p) == Some(s[i]),
{
    let j = choose|j: int| is_first_match(s, p, j);
    if j < i {
        assert(!p(s[j]));
    } else if j > i {
        assert(!p(s[i]));
    }
}

pub proof fn lemma_first_match_none<A>(s: Seq<A>, p: spec_fn(A) -> bool)
    requires
        none_match(s, p),
    ensures
        first_match(s, p) == None::<A>,
{
    if exists|i: int| is_first_match(s, p, i) {
        let j = choose|j: int| is_first_match(s, p, j);
        assert(!p(s[j]));
    }
}

} // verus!
