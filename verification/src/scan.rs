//! Searching a sequence from the front: the position of the first element
//! with a given property, and what follows from it.

use vstd::prelude::*;

verus! {

/// The index of the first element of `s` that satisfies `p`, or `s.len()`
/// where no element does.
pub open spec fn first_where<T>(s: Seq<T>, p: spec_fn(T) -> bool) -> int
    decreases s.len(),
{
    if s.len() == 0 {
        0
    } else if p(s[0]) {
        0
    } else {
        1 + first_where(s.drop_first(), p)
    }
}

/// `first_where` stays within the sequence, passes over elements that fail
/// `p` only, and stops at one that satisfies it.
pub proof fn lemma_first_where<T>(s: Seq<T>, p: spec_fn(T) -> bool)
    ensures
        0 <= first_where(s, p) <= s.len(),
        forall|j: int| 0 <= j < first_where(s, p) ==> !p(#[trigger] s[j]),
        first_where(s, p) < s.len() ==> p(s[first_where(s, p)]),
    decreases s.len(),
{
    if s.len() > 0 && !p(s[0]) {
        let t = s.drop_first();
        lemma_first_where(t, p);
        assert forall|j: int| 0 <= j < first_where(s, p) implies !p(#[trigger] s[j]) by {
            if j > 0 {
                assert(s[j] == t[j - 1]);
            }
        }
        if first_where(s, p) < s.len() {
            assert(s[first_where(s, p)] == t[first_where(t, p)]);
        }
    }
}

/// An index `k` before which every element fails `p`, and which is the end
/// of `s` or holds an element that satisfies `p`, is `first_where(s, p)`.
pub proof fn lemma_first_where_is<T>(s: Seq<T>, p: spec_fn(T) -> bool, k: int)
    requires
        0 <= k <= s.len(),
        forall|j: int| 0 <= j < k ==> !p(#[trigger] s[j]),
        k < s.len() ==> p(s[k]),
    ensures
        first_where(s, p) == k,
{
    lemma_first_where(s, p);
    let f = first_where(s, p);
    if f < k {
        assert(!p(s[f]));
    } else if f > k {
        assert(!p(s[k]));
    }
}

/// The index of the last element of `s` that satisfies `p`, plus one; 0
/// where no element does.
pub open spec fn end_of_last_where<T>(s: Seq<T>, p: spec_fn(T) -> bool) -> int
    decreases s.len(),
{
    if s.len() == 0 {
        0
    } else if p(s.last()) {
        s.len() as int
    } else {
        end_of_last_where(s.drop_last(), p)
    }
}

/// `end_of_last_where` stays within the sequence; every element from it on
/// fails `p`, and the element before it, if any, satisfies `p`.
pub proof fn lemma_end_of_last_where<T>(s: Seq<T>, p: spec_fn(T) -> bool)
    ensures
        0 <= end_of_last_where(s, p) <= s.len(),
        forall|j: int| end_of_last_where(s, p) <= j < s.len() ==> !p(#[trigger] s[j]),
        end_of_last_where(s, p) > 0 ==> p(s[end_of_last_where(s, p) - 1]),
    decreases s.len(),
{
    if s.len() > 0 && !p(s.last()) {
        let t = s.drop_last();
        lemma_end_of_last_where(t, p);
        assert forall|j: int| end_of_last_where(s, p) <= j < s.len() implies !p(
            #[trigger] s[j],
        ) by {
            if j < s.len() - 1 {
                assert(s[j] == t[j]);
            }
        }
        if end_of_last_where(s, p) > 0 {
            assert(s[end_of_last_where(s, p) - 1] == t[end_of_last_where(t, p) - 1]);
        }
    }
}

/// An index `k` from which on every element fails `p`, and which is 0 or
/// follows an element that satisfies `p`, is `end_of_last_where(s, p)`.
pub proof fn lemma_end_of_last_where_is<T>(s: Seq<T>, p: spec_fn(T) -> bool, k: int)
    requires
        0 <= k <= s.len(),
        forall|j: int| k <= j < s.len() ==> !p(#[trigger] s[j]),
        k > 0 ==> p(s[k - 1]),
    ensures
        end_of_last_where(s, p) == k,
{
    lemma_end_of_last_where(s, p);
    let e = end_of_last_where(s, p);
    if e > k {
        assert(!p(s[e - 1]));
    } else if e < k {
        assert(!p(s[k - 1]));
    }
}

} // verus!
