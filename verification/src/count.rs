use vstd::prelude::*;

verus! {

/// `f(lo) + f(lo + 1) + ... + f(hi - 1)`.
pub open spec fn sum(f: spec_fn(int) -> int, lo: int, hi: int) -> int
    decreases hi - lo,
{
    if hi <= lo {
        0
    } else {
        sum(f, lo, hi - 1) + f(hi - 1)
    }
}

/// 1 where `p` holds, 0 elsewhere.
pub open spec fn indicator(p: spec_fn(int) -> bool) -> spec_fn(int) -> int {
    |i: int| if p(i) { 1int } else { 0int }
}

/// The number of `i` in `lo .. hi` for which `p(i)` holds.
pub open spec fn count(p: spec_fn(int) -> bool, lo: int, hi: int) -> int {
    sum(indicator(p), lo, hi)
}

/// Sums of functions that agree on the range are equal.
pub proof fn lemma_sum_ext(f: spec_fn(int) -> int, g: spec_fn(int) -> int, lo: int, hi: int)
    requires
        forall|i: int| lo <= i < hi ==> #[trigger] f(i) == g(i),
    ensures
        sum(f, lo, hi) == sum(g, lo, hi),
    decreases hi - lo,
{
    if hi > lo {
        lemma_sum_ext(f, g, lo, hi - 1);
    }
}

/// A sum of zeros is zero.
pub proof fn lemma_sum_zero(f: spec_fn(int) -> int, lo: int, hi: int)
    requires
        forall|i: int| lo <= i < hi ==> #[trigger] f(i) == 0,
    ensures
        sum(f, lo, hi) == 0,
    decreases hi - lo,
{
    if hi > lo {
        lemma_sum_zero(f, lo, hi - 1);
    }
}

/// A sum of ones is the length of the range.
pub proof fn lemma_sum_ones(f: spec_fn(int) -> int, lo: int, hi: int)
    requires
        lo <= hi,
        forall|i: int| lo <= i < hi ==> #[trigger] f(i) == 1,
    ensures
        sum(f, lo, hi) == hi - lo,
    decreases hi - lo,
{
    if hi > lo {
        lemma_sum_ones(f, lo, hi - 1);
    }
}

/// A sum splits at any point of its range.
pub proof fn lemma_sum_split(f: spec_fn(int) -> int, lo: int, m: int, hi: int)
    requires
        lo <= m <= hi,
    ensures
        sum(f, lo, hi) == sum(f, lo, m) + sum(f, m, hi),
    decreases hi - m,
{
    if hi > m {
        lemma_sum_split(f, lo, m, hi - 1);
    }
}

/// The sum of a pointwise sum is the sum of the sums.
pub proof fn lemma_sum_add(f: spec_fn(int) -> int, g: spec_fn(int) -> int, h: spec_fn(int) -> int, lo: int, hi: int)
    requires
        forall|i: int| lo <= i < hi ==> #[trigger] h(i) == f(i) + g(i),
    ensures
        sum(h, lo, hi) == sum(f, lo, hi) + sum(g, lo, hi),
    decreases hi - lo,
{
    if hi > lo {
        lemma_sum_add(f, g, h, lo, hi - 1);
    }
}

/// Shifting the range and the argument by the same amount keeps a sum.
pub proof fn lemma_sum_shift(f: spec_fn(int) -> int, g: spec_fn(int) -> int, d: int, lo: int, hi: int)
    requires
        forall|i: int| lo <= i < hi ==> g(i + d) == #[trigger] f(i),
    ensures
        sum(g, lo + d, hi + d) == sum(f, lo, hi),
    decreases hi - lo,
{
    if hi > lo {
        lemma_sum_shift(f, g, d, lo, hi - 1);
        assert(hi - 1 + d == (hi + d) - 1);
    }
}

/// A sum over a range equals the sum over a wider range when the function is zero
/// on the added parts.
pub proof fn lemma_sum_widen(f: spec_fn(int) -> int, lo: int, hi: int, lo2: int, hi2: int)
    requires
        lo2 <= lo <= hi <= hi2,
        forall|i: int| lo2 <= i < lo ==> #[trigger] f(i) == 0,
        forall|i: int| hi <= i < hi2 ==> #[trigger] f(i) == 0,
    ensures
        sum(f, lo2, hi2) == sum(f, lo, hi),
{
    lemma_sum_split(f, lo2, lo, hi2);
    lemma_sum_split(f, lo, hi, hi2);
    lemma_sum_zero(f, lo2, lo);
    lemma_sum_zero(f, hi, hi2);
}

} // verus!
