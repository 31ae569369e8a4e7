//! First-match search over sequences, shared by the lookups that resolve
//! manifest entries against release assets and declared archives.

use vstd::prelude::*;

verus! {

/// `i` is the index of the first element of `s` satisfying `pred`.
pub open spec fn is_first_match<T>(s: Seq<T>, pred: spec_fn(T) -> bool, i: int) -> bool {
    &&& 0 <= i < s.len()
    &&& pred(s[i])
    &&& forall|j: int| 0 <= j < i ==> !pred(#[trigger] s[j])
}

/// The index of the first element satisfying `pred`, if any element does.
pub open spec fn first_match_index<T>(s: Seq<T>, pred: spec_fn(T) -> bool) -> Option<int> {
    if exists|i: int| is_first_match(s, pred, i) {
        Some(choose|i: int| is_first_match(s, pred, i))
    } else {
        None
    }
}

/// At most one index is the first match.
pub proof fn lemma_first_match_unique<T>(s: Seq<T>, pred: spec_fn(T) -> bool, i: int, j: int)
    requires
        is_first_match(s, pred, i),
        is_first_match(s, pred, j),
    ensures
        i == j,
{
    if i < j {
        assert(!pred(s[i]));
    }
    if j < i {
        assert(!pred(s[j]));
    }
}

/// What `first_match_index` returns when an explicit first match is known.
pub proof fn lemma_first_match_index_of<T>(s: Seq<T>, pred: spec_fn(T) -> bool, i: int)
    requires
        is_first_match(s, pred, i),
    ensures
        first_match_index(s, pred) == Some(i),
{
    let k = choose|k: int| is_first_match(s, pred, k);
    lemma_first_match_unique(s, pred, i, k);
}

/// With no match anywhere, there is no first match.
pub proof fn lemma_no_match_no_first<T>(s: Seq<T>, pred: spec_fn(T) -> bool)
    requires
        forall|j: int| 0 <= j < s.len() ==> !pred(#[trigger] s[j]),
    ensures
        first_match_index(s, pred) is None,
{
    if exists|i: int| is_first_match(s, pred, i) {
        let i = choose|i: int| is_first_match(s, pred, i);
        assert(!pred(s[i]));
    }
}

} // verus!
