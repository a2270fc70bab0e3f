//! Where the first element of a sequence with some property stands.

use vstd::prelude::*;

verus! {

/// The index of the first element of `s` at or after `from` that satisfies
/// `p`, if there is one.
pub open spec fn first_from<T>(s: Seq<T>, p: spec_fn(T) -> bool, from: int) -> Option<int>
    decreases s.len() - from,
{
    if from < 0 || from >= s.len() {
        None
    } else if p(s[from]) {
        Some(from)
    } else {
        first_from(s, p, from + 1)
    }
}

/// The index of the first element of `s` that satisfies `p`, if there is one.
pub open spec fn first_where<T>(s: Seq<T>, p: spec_fn(T) -> bool) -> Option<int> {
    first_from(s, p, 0)
}

/// What `first_from` finds satisfies `p` and nothing between `from` and it does.
pub proof fn lemma_first_from_some<T>(s: Seq<T>, p: spec_fn(T) -> bool, from: int)
    requires
        first_from(s, p, from) is Some,
    ensures
        0 <= from <= first_from(s, p, from)->0 < s.len(),
        p(s[first_from(s, p, from)->0]),
        forall|j: int| from <= j < first_from(s, p, from)->0 ==> !p(#[trigger] s[j]),
    decreases s.len() - from,
{
    if !p(s[from]) {
        lemma_first_from_some(s, p, from + 1);
    }
}

/// Where `first_from` finds nothing, no element at or after `from` satisfies `p`.
pub proof fn lemma_first_from_none<T>(s: Seq<T>, p: spec_fn(T) -> bool, from: int)
    requires
        0 <= from,
        first_from(s, p, from) is None,
    ensures
        forall|j: int| from <= j < s.len() ==> !p(#[trigger] s[j]),
    decreases s.len() - from,
{
    if from < s.len() {
        lemma_first_from_none(s, p, from + 1);
    }
}

/// An element that satisfies `p` with none before it from `from` on is what
/// `first_from` finds.
pub proof fn lemma_first_from_is<T>(s: Seq<T>, p: spec_fn(T) -> bool, from: int, i: int)
    requires
        0 <= from <= i < s.len(),
        p(s[i]),
        forall|j: int| from <= j < i ==> !p(#[trigger] s[j]),
    ensures
        first_from(s, p, from) == Some(i),
    decreases i - from,
{
    if from < i {
        lemma_first_from_is(s, p, from + 1, i);
    }
}

/// A search finds something exactly when some element satisfies `p`.
pub proof fn lemma_first_where_exists<T>(s: Seq<T>, p: spec_fn(T) -> bool)
    ensures
        first_where(s, p) is Some <==> exists|j: int| 0 <= j < s.len() && p(#[trigger] s[j]),
{
    if first_where(s, p) is Some {
        lemma_first_from_some(s, p, 0);
    } else {
        lemma_first_from_none(s, p, 0);
    }
}

/// Two searches that agree on each position agree on what they find.
pub proof fn lemma_first_from_same<S, T>(
    s: Seq<S>,
    p: spec_fn(S) -> bool,
    t: Seq<T>,
    q: spec_fn(T) -> bool,
    from: int,
)
    requires
        s.len() == t.len(),
        forall|j: int| 0 <= j < s.len() ==> p(#[trigger] s[j]) == q(t[j]),
    ensures
        first_from(s, p, from) == first_from(t, q, from),
    decreases s.len() - from,
{
    if 0 <= from < s.len() && !p(s[from]) {
        lemma_first_from_same(s, p, t, q, from + 1);
    }
}

} // verus!
