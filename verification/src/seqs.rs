//! Sequence specifications shared by the state logic: first match, stable
//! insertion order, and their lemmas.
use vstd::prelude::*;

verus! {

/// The first index at or after `from` whose element satisfies `p`, or the length.
pub open spec fn first_idx<T>(s: Seq<T>, p: spec_fn(T) -> bool, from: int) -> int
    decreases s.len() - from,
{
    if from < 0 || from >= s.len() {
        s.len() as int
    } else if p(s[from]) {
        from
    } else {
        first_idx(s, p, from + 1)
    }
}

pub proof fn lemma_first_idx_bounds<T>(s: Seq<T>, p: spec_fn(T) -> bool, from: int)
    requires
        0 <= from <= s.len(),
    ensures
        from <= first_idx(s, p, from) <= s.len(),
        first_idx(s, p, from) < s.len() ==> p(s[first_idx(s, p, from)]),
        forall|k: int| from <= k < first_idx(s, p, from) ==> !p(#[trigger] s[k]),
    decreases s.len() - from,
{
    if from < s.len() && !p(s[from]) {
        lemma_first_idx_bounds(s, p, from + 1);
    }
}

/// Two searches agree when their predicates agree position by position.
pub proof fn lemma_first_idx_congr<T, U>(s1: Seq<T>, s2: Seq<U>, p1: spec_fn(T) -> bool, p2: spec_fn(U) -> bool, from: int)
    requires
        s1.len() == s2.len(),
        forall|i: int| from <= i < s1.len() ==> p1(#[trigger] s1[i]) == p2(s2[i]),
    ensures
        first_idx(s1, p1, from) == first_idx(s2, p2, from),
    decreases s1.len() - from,
{
    if 0 <= from < s1.len() && !p1(s1[from]) {
        lemma_first_idx_congr(s1, s2, p1, p2, from + 1);
    }
}

/// `first_idx` is the least matching index.
pub proof fn lemma_first_idx_is<T>(s: Seq<T>, p: spec_fn(T) -> bool, from: int, i: int)
    requires
        0 <= from <= i <= s.len(),
        i < s.len() ==> p(s[i]),
        forall|k: int| from <= k < i ==> !p(#[trigger] s[k]),
    ensures
        first_idx(s, p, from) == i,
    decreases i - from,
{
    if from < i {
        lemma_first_idx_is(s, p, from + 1, i);
    }
}

/// Position at which a stable insertion puts `x` into `r`: before the first
/// element that `x` must precede.
pub open spec fn ins_pos(r: Seq<usize>, x: usize, before: spec_fn(usize, usize) -> bool) -> int {
    first_idx(r, |y: usize| before(x, y), 0)
}

/// Stable insertion sort of `s` under the strict order `before`.
pub open spec fn isort(s: Seq<usize>, before: spec_fn(usize, usize) -> bool) -> Seq<usize>
    decreases s.len(),
{
    if s.len() == 0 {
        Seq::empty()
    } else {
        let r = isort(s.drop_last(), before);
        r.insert(ins_pos(r, s.last(), before), s.last())
    }
}

pub proof fn lemma_isort_len(s: Seq<usize>, before: spec_fn(usize, usize) -> bool)
    ensures
        isort(s, before).len() == s.len(),
    decreases s.len(),
{
    if s.len() > 0 {
        let r = isort(s.drop_last(), before);
        lemma_isort_len(s.drop_last(), before);
        lemma_first_idx_bounds(r, |y: usize| before(s.last(), y), 0);
    }
}

/// Every element of the sorted sequence comes from the input, and back.
pub proof fn lemma_isort_elems(s: Seq<usize>, before: spec_fn(usize, usize) -> bool)
    ensures
        forall|x: usize| #[trigger] isort(s, before).contains(x) <==> s.contains(x),
    decreases s.len(),
{
    if s.len() > 0 {
        let r = isort(s.drop_last(), before);
        lemma_isort_elems(s.drop_last(), before);
        lemma_isort_len(s.drop_last(), before);
        let p = ins_pos(r, s.last(), before);
        lemma_first_idx_bounds(r, |y: usize| before(s.last(), y), 0);
        let t = r.insert(p, s.last());
        assert forall|x: usize| #[trigger] t.contains(x) <==> s.contains(x) by {
            if t.contains(x) {
                let k = choose|k: int| 0 <= k < t.len() && t[k] == x;
                if k < p {
                    assert(r[k] == x);
                    assert(r.contains(x));
                } else if k > p {
                    assert(r[k - 1] == x);
                    assert(r.contains(x));
                }
                if x != s.last() {
                    assert(s.drop_last().contains(x));
                    let j = choose|j: int| 0 <= j < s.drop_last().len() && s.drop_last()[j] == x;
                    assert(s[j] == x);
                } else {
                    assert(s[s.len() - 1] == x);
                }
            }
            if s.contains(x) {
                let j = choose|j: int| 0 <= j < s.len() && s[j] == x;
                if j == s.len() - 1 {
                    assert(t[p] == x);
                } else {
                    assert(s.drop_last()[j] == x);
                    assert(r.contains(x));
                    let k = choose|k: int| 0 <= k < r.len() && r[k] == x;
                    if k < p {
                        assert(t[k] == x);
                    } else {
                        assert(t[k + 1] == x);
                    }
                }
            }
        }
    }
}

/// The sequence `0, 1, .., n - 1`.
pub open spec fn range_seq(n: int) -> Seq<usize> {
    Seq::new(n as nat, |i: int| i as usize)
}

} // verus!
