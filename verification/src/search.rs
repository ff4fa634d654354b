//! The first place in a sequence at which something holds.

use vstd::prelude::*;

verus! {

/// Whether `i` is the first index of `s` at which `p` holds.
pub open spec fn is_first<T>(s: Seq<T>, p: spec_fn(int, T) -> bool, i: int) -> bool {
    &&& 0 <= i < s.len()
    &&& p(i, s[i])
    &&& forall|j: int| 0 <= j < i ==> !#[trigger] p(j, s[j])
}

/// The first index of `s` at which `p` holds, if it holds anywhere.
pub open spec fn first_index<T>(s: Seq<T>, p: spec_fn(int, T) -> bool) -> Option<int> {
    if exists|i: int| is_first(s, p, i) {
        Some(choose|i: int| is_first(s, p, i))
    } else {
        None
    }
}

/// An index that is the first is the one that `first_index` names.
pub proof fn lemma_first_index_found<T>(s: Seq<T>, p: spec_fn(int, T) -> bool, i: int)
    requires
        is_first(s, p, i),
    ensures
        first_index(s, p) == Some(i),
{
}

/// `first_index` finds nothing exactly where `p` holds nowhere.
pub proof fn lemma_first_index_none<T>(s: Seq<T>, p: spec_fn(int, T) -> bool)
    ensures
        first_index(s, p) is None <==> forall|j: int| 0 <= j < s.len() ==> !#[trigger] p(j, s[j]),
{
    if exists|j: int| 0 <= j < s.len() && #[trigger] p(j, s[j]) {
        let j = choose|j: int| 0 <= j < s.len() && #[trigger] p(j, s[j]);
        lemma_least_exists(s, p, j);
    }
}

/// Below any index at which `p` holds lies a first one.
pub proof fn lemma_least_exists<T>(s: Seq<T>, p: spec_fn(int, T) -> bool, j: int)
    requires
        0 <= j < s.len(),
        p(j, s[j]),
    ensures
        exists|i: int| is_first(s, p, i) && i <= j,
    decreases j,
{
    if exists|k: int| 0 <= k < j && #[trigger] p(k, s[k]) {
        let k = choose|k: int| 0 <= k < j && #[trigger] p(k, s[k]);
        lemma_least_exists(s, p, k);
    } else {
        assert(is_first(s, p, j));
    }
}

} // verus!
