//! First-match search over sequences: the model of every "find the first
//! entry that satisfies ..." lookup in the library.

use vstd::prelude::*;

verus! {

/// `i` is the position of the first element of `s` that satisfies `p`.
pub open spec fn is_first_match<A>(s: Seq<A>, p: spec_fn(A) -> bool, i: int) -> bool {
    &&& 0 <= i < s.len()
    &&& p(s[i])
    &&& forall|j: int| 0 <= j < i ==> !p(#[trigger] s[j])
}

/// The position of the first element of `s` that satisfies `p`, if any.
pub open spec fn first_match<A>(s: Seq<A>, p: spec_fn(A) -> bool) -> Option<int> {
    if exists|i: int| is_first_match(s, p, i) {
        Some(choose|i: int| is_first_match(s, p, i))
    } else {
        None
    }
}

/// Whether some element of `s` satisfies `p`.
pub open spec fn any_match<A>(s: Seq<A>, p: spec_fn(A) -> bool) -> bool {
    exists|i: int| 0 <= i < s.len() && p(#[trigger] s[i])
}

pub proof fn lemma_first_match_unique<A>(s: Seq<A>, p: spec_fn(A) -> bool, i: int, k: int)
    requires
        is_first_match(s, p, i),
        is_first_match(s, p, k),
    ensures
        i == k,
{
    if i < k {
        assert(!p(s[i]));
    } else if k < i {
        assert(!p(s[k]));
    }
}

/// A first match found by a scan is the one `first_match` names.
pub proof fn lemma_first_match_found<A>(s: Seq<A>, p: spec_fn(A) -> bool, i: int)
    requires
        is_first_match(s, p, i),
    ensures
        first_match(s, p) == Some(i),
{
    let k = choose|k: int| is_first_match(s, p, k);
    lemma_first_match_unique(s, p, i, k);
}

/// A scan that saw no match finds none.
pub proof fn lemma_first_match_none<A>(s: Seq<A>, p: spec_fn(A) -> bool)
    requires
        forall|j: int| 0 <= j < s.len() ==> !p(#[trigger] s[j]),
    ensures
        first_match(s, p) == None::<int>,
        !any_match(s, p),
{
    if exists|i: int| is_first_match(s, p, i) {
        let i = choose|i: int| is_first_match(s, p, i);
        assert(p(s[i]));
    }
}

/// When something matches, the first match exists and is at or before it.
pub proof fn lemma_first_match_exists<A>(s: Seq<A>, p: spec_fn(A) -> bool, i: int)
    requires
        0 <= i < s.len(),
        p(s[i]),
    ensures
        first_match(s, p) is Some,
        0 <= first_match(s, p)->0 <= i,
        is_first_match(s, p, first_match(s, p)->0),
    decreases i,
{
    if forall|j: int| 0 <= j < i ==> !p(#[trigger] s[j]) {
        lemma_first_match_found(s, p, i);
    } else {
        let j = choose|j: int| 0 <= j < i && p(#[trigger] s[j]);
        lemma_first_match_exists(s, p, j);
    }
}

/// The result of `first_match`, when there is one, satisfies the predicate and
/// nothing before it does.
pub proof fn lemma_first_match_spec<A>(s: Seq<A>, p: spec_fn(A) -> bool)
    ensures
        first_match(s, p) matches Some(i) ==> is_first_match(s, p, i),
        first_match(s, p) is None <==> !any_match(s, p),
{
    if any_match(s, p) {
        let i = choose|i: int| 0 <= i < s.len() && p(#[trigger] s[i]);
        lemma_first_match_exists(s, p, i);
    } else {
        assert(forall|j: int| 0 <= j < s.len() ==> !p(#[trigger] s[j]));
        lemma_first_match_none(s, p);
    }
}

} // verus!
