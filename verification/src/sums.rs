//! Finite sums used by the counting specifications.
use vstd::prelude::*;

verus! {

/// `f(0) + f(1) + ... + f(m - 1)`.
pub open spec fn sum_to(f: spec_fn(int) -> int, m: int) -> int
    decreases m,
{
    if m <= 0 {
        0
    } else {
        sum_to(f, m - 1) + f(m - 1)
    }
}

/// A sum of terms each in `[0, b]` lies in `[0, m * b]`.
pub proof fn lemma_sum_bounds(f: spec_fn(int) -> int, m: int, b: int)
    requires
        0 <= m,
        0 <= b,
        forall|x: int| 0 <= x < m ==> 0 <= #[trigger] f(x) <= b,
    ensures
        0 <= sum_to(f, m) <= m * b,
    decreases m,
{
    if m > 0 {
        lemma_sum_bounds(f, m - 1, b);
        assert((m - 1) * b + b == m * b) by (nonlinear_arith);
    }
}

/// Partial sums of nonnegative terms grow with the bound.
pub proof fn lemma_sum_monotone(f: spec_fn(int) -> int, i: int, j: int)
    requires
        0 <= i <= j,
        forall|x: int| 0 <= x < j ==> 0 <= #[trigger] f(x),
    ensures
        sum_to(f, i) <= sum_to(f, j),
    decreases j - i,
{
    if i < j {
        lemma_sum_monotone(f, i, j - 1);
    }
}

/// Sums of pointwise-equal terms are equal.
pub proof fn lemma_sum_ext(f: spec_fn(int) -> int, g: spec_fn(int) -> int, m: int)
    requires
        forall|x: int| 0 <= x < m ==> #[trigger] f(x) == g(x),
    ensures
        sum_to(f, m) == sum_to(g, m),
    decreases m,
{
    if m > 0 {
        lemma_sum_ext(f, g, m - 1);
    }
}

/// A sum whose only nonzero term is at `j` equals that term.
pub proof fn lemma_sum_single(f: spec_fn(int) -> int, m: int, j: int)
    requires
        0 <= j < m,
        forall|x: int| 0 <= x < m && x != j ==> #[trigger] f(x) == 0,
    ensures
        sum_to(f, m) == f(j),
    decreases m,
{
    if m - 1 > j {
        lemma_sum_single(f, m - 1, j);
    } else {
        lemma_sum_zero(f, m - 1);
    }
}

/// A sum of zero terms is zero.
pub proof fn lemma_sum_zero(f: spec_fn(int) -> int, m: int)
    requires
        forall|x: int| 0 <= x < m ==> #[trigger] f(x) == 0,
    ensures
        sum_to(f, m) == 0,
    decreases m,
{
    if m > 0 {
        lemma_sum_zero(f, m - 1);
    }
}

/// The sum of `f + g` is the sum of `f` plus the sum of `g`.
pub proof fn lemma_sum_add(f: spec_fn(int) -> int, g: spec_fn(int) -> int, h: spec_fn(int) -> int, m: int)
    requires
        forall|x: int| 0 <= x < m ==> #[trigger] h(x) == f(x) + g(x),
    ensures
        sum_to(h, m) == sum_to(f, m) + sum_to(g, m),
    decreases m,
{
    if m > 0 {
        lemma_sum_add(f, g, h, m - 1);
    }
}

/// Scaling every term scales the sum.
pub proof fn lemma_sum_scale(f: spec_fn(int) -> int, g: spec_fn(int) -> int, a: int, m: int)
    requires
        forall|x: int| 0 <= x < m ==> #[trigger] g(x) == a * f(x),
    ensures
        sum_to(g, m) == a * sum_to(f, m),
    decreases m,
{
    if m > 0 {
        lemma_sum_scale(f, g, a, m - 1);
        assert(a * sum_to(f, m - 1) + a * f(m - 1) == a * (sum_to(f, m - 1) + f(m - 1))) by (nonlinear_arith);
    }
}

/// Pointwise smaller terms give a smaller sum.
pub proof fn lemma_sum_le(f: spec_fn(int) -> int, g: spec_fn(int) -> int, m: int)
    requires
        forall|x: int| 0 <= x < m ==> #[trigger] f(x) <= g(x),
    ensures
        sum_to(f, m) <= sum_to(g, m),
    decreases m,
{
    if m > 0 {
        lemma_sum_le(f, g, m - 1);
    }
}

/// Sums whose terms agree except at `j` differ by the difference at `j`.
pub proof fn lemma_sum_replace(f: spec_fn(int) -> int, g: spec_fn(int) -> int, m: int, j: int)
    requires
        0 <= j < m,
        forall|x: int| 0 <= x < m && x != j ==> #[trigger] f(x) == g(x),
    ensures
        sum_to(f, m) - f(j) == sum_to(g, m) - g(j),
    decreases m,
{
    if m - 1 > j {
        lemma_sum_replace(f, g, m - 1, j);
    } else {
        lemma_sum_ext(f, g, m - 1);
    }
}

/// A sum over `a + b` terms splits into the first `a` and the next `b`.
pub proof fn lemma_sum_split(f: spec_fn(int) -> int, g: spec_fn(int) -> int, a: int, b: int)
    requires
        0 <= a,
        0 <= b,
        forall|x: int| 0 <= x < b ==> #[trigger] g(x) == f(a + x),
    ensures
        sum_to(f, a + b) == sum_to(f, a) + sum_to(g, b),
    decreases b,
{
    if b > 0 {
        lemma_sum_split(f, g, a, b - 1);
    }
}

} // verus!
