//! The first position in a sequence at which a predicate holds.
//!
//! Every lookup in the catalog is "the first entry, in order, that matches",
//! so the notion is defined once here and shared by all contracts.

use vstd::prelude::*;

verus! {

/// `i` is a position of `s` where `p` holds, and `p` holds nowhere before it.
pub open spec fn is_first_at<T>(s: Seq<T>, p: spec_fn(T) -> bool, i: int) -> bool {
    &&& 0 <= i < s.len()
    &&& p(s[i])
    &&& forall|j: int| 0 <= j < i ==> !p(#[trigger] s[j])
}

/// The least position of `s` at which `p` holds, if there is one.
pub open spec fn first_index<T>(s: Seq<T>, p: spec_fn(T) -> bool) -> Option<int> {
    if exists|i: int| is_first_at(s, p, i) {
        Some(choose|i: int| is_first_at(s, p, i))
    } else {
        None
    }
}

/// `p` holds for no element of `s`.
pub open spec fn none_match<T>(s: Seq<T>, p: spec_fn(T) -> bool) -> bool {
    forall|j: int| 0 <= j < s.len() ==> !p(#[trigger] s[j])
}

/// A position that is first is the first position.
pub proof fn lemma_first_index_at<T>(s: Seq<T>, p: spec_fn(T) -> bool, i: int)
    requires
        is_first_at(s, p, i),
    ensures
        first_index(s, p) == Some(i),
{
    let k = choose|k: int| is_first_at(s, p, k);
    assert(is_first_at(s, p, k));
    if k < i {
        assert(!p(s[k]));
    }
    if i < k {
        assert(!p(s[i]));
    }
}

/// Where nothing matches, there is no first position.
pub proof fn lemma_first_index_none<T>(s: Seq<T>, p: spec_fn(T) -> bool)
    requires
        none_match(s, p),
    ensures
        first_index(s, p) is None,
{
    assert forall|i: int| !is_first_at(s, p, i) by {
        if 0 <= i < s.len() {
            assert(!p(s[i]));
        }
    }
}

/// What `first_index` answers is right: a position it names is first, and
/// when it names none, nothing matches.
pub proof fn lemma_first_index_sound<T>(s: Seq<T>, p: spec_fn(T) -> bool)
    ensures
        match first_index(s, p) {
            Some(i) => is_first_at(s, p, i),
            None => none_match(s, p),
        },
{
    if first_index(s, p) is None {
        lemma_some_match_has_first(s, p, s.len() as int);
    }
}

/// If `p` holds somewhere among the first `n` elements, some position is first.
proof fn lemma_some_match_has_first<T>(s: Seq<T>, p: spec_fn(T) -> bool, n: int)
    requires
        0 <= n <= s.len(),
    ensures
        (exists|i: int| is_first_at(s, p, i)) || (forall|j: int| 0 <= j < n ==> !p(#[trigger] s[j])),
    decreases n,
{
    if n > 0 {
        lemma_some_match_has_first(s, p, n - 1);
        if !(exists|i: int| is_first_at(s, p, i)) {
            if p(s[n - 1]) {
                assert(is_first_at(s, p, n - 1));
            }
        }
    }
}

} // verus!
