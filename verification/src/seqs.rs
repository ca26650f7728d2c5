//! Generic facts about searching sequences front to back.

use vstd::prelude::*;

verus! {

/// The first element of `s` that satisfies `p`, if any.
pub open spec fn first_match<T>(s: Seq<T>, p: spec_fn(T) -> bool) -> Option<T>
    decreases s.len(),
{
    if s.len() == 0 {
        None
    } else if p(s[0]) {
        Some(s[0])
    } else {
        first_match(s.drop_first(), p)
    }
}

/// The index of the first element of `s` that satisfies `p`, if any.
pub open spec fn first_index<T>(s: Seq<T>, p: spec_fn(T) -> bool) -> Option<int>
    decreases s.len(),
{
    if s.len() == 0 {
        None
    } else if p(s[0]) {
        Some(0int)
    } else {
        match first_index(s.drop_first(), p) {
            Some(i) => Some(i + 1),
            None => None,
        }
    }
}

/// One step of a front-to-back search: the first match in `s.skip(i)` is
/// `s[i]` when it matches, and otherwise the first match in `s.skip(i + 1)`.
pub proof fn lemma_first_match_step<T>(s: Seq<T>, p: spec_fn(T) -> bool, i: int)
    requires
        0 <= i < s.len(),
    ensures
        first_match(s.skip(i), p) == (if p(s[i]) {
            Some(s[i])
        } else {
            first_match(s.skip(i + 1), p)
        }),
{
    assert(s.skip(i).drop_first() =~= s.skip(i + 1));
}

/// A search over the whole sequence starts at offset zero.
pub proof fn lemma_skip_zero<T>(s: Seq<T>)
    ensures
        s.skip(0) == s,
{
    assert(s.skip(0) =~= s);
}

/// A search past the end finds nothing.
pub proof fn lemma_first_match_end<T>(s: Seq<T>, p: spec_fn(T) -> bool)
    ensures
        first_match(s.skip(s.len() as int), p) == None::<T>,
{
    assert(s.skip(s.len() as int) =~= Seq::<T>::empty());
}

/// `first_match` returns an element that satisfies the predicate and lies in
/// the sequence, and finds nothing only when no element satisfies it.
pub proof fn lemma_first_match_spec<T>(s: Seq<T>, p: spec_fn(T) -> bool)
    ensures
        first_match(s, p) matches Some(x) ==> p(x) && s.contains(x),
        first_match(s, p) is None <==> (forall|j: int| 0 <= j < s.len() ==> !p(#[trigger] s[j])),
    decreases s.len(),
{
    if s.len() > 0 {
        lemma_first_match_spec(s.drop_first(), p);
        if !p(s[0]) {
            if let Some(x) = first_match(s.drop_first(), p) {
                let k = choose|k: int| 0 <= k < s.drop_first().len() && s.drop_first()[k] == x;
                assert(s[k + 1] == x);
            }
            if first_match(s, p) is None {
                assert forall|j: int| 0 <= j < s.len() implies !p(#[trigger] s[j]) by {
                    if j > 0 {
                        assert(s[j] == s.drop_first()[j - 1]);
                    }
                }
            }
        } else {
            assert(s[0] == s[0]);
        }
    }
}


/// `first_index` picks the smallest index whose element satisfies `p`.
pub proof fn lemma_first_index_spec<T>(s: Seq<T>, p: spec_fn(T) -> bool)
    ensures
        first_index(s, p) matches Some(i) ==> 0 <= i < s.len() && p(s[i]) && forall|j: int|
            0 <= j < i ==> !p(#[trigger] s[j]),
        first_index(s, p) is None ==> forall|j: int| 0 <= j < s.len() ==> !p(#[trigger] s[j]),
    decreases s.len(),
{
    if s.len() > 0 {
        lemma_first_index_spec(s.drop_first(), p);
        if !p(s[0]) {
            assert forall|j: int| 0 < j < s.len() implies s[j] == s.drop_first()[j - 1] by {}
        }
    }
}

/// Characterises `first_index` by its defining property.
pub proof fn lemma_first_index_unique<T>(s: Seq<T>, p: spec_fn(T) -> bool, i: int)
    requires
        0 <= i < s.len(),
        p(s[i]),
        forall|j: int| 0 <= j < i ==> !p(#[trigger] s[j]),
    ensures
        first_index(s, p) == Some(i),
{
    lemma_first_index_spec(s, p);
    if let Some(k) = first_index(s, p) {
        if k < i {
            assert(!p(s[k]));
        }
        if k > i {
            assert(!p(s[i]));
        }
    }
}

/// Characterises a search that finds nothing.
pub proof fn lemma_first_index_none<T>(s: Seq<T>, p: spec_fn(T) -> bool)
    requires
        forall|j: int| 0 <= j < s.len() ==> !p(#[trigger] s[j]),
    ensures
        first_index(s, p) is None,
{
    lemma_first_index_spec(s, p);
    if let Some(k) = first_index(s, p) {
        assert(!p(s[k]));
    }
}

} // verus!
