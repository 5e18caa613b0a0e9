//! Exact probabilities of the opening cards: pairs, colours, monkey and
//! fortune pairs, as ratios of ordered deals.
use vstd::prelude::*;
use vstd::arithmetic::mul::*;

use crate::bet_registry::{BetDefinition, BetId, BetVariant, Fortune4PairVariant, TigerPairVariant};
use crate::cards::{Card, CardRank, CardSuit};
use crate::shoe::{rank_from_cards, ShoeCounts};
use crate::sums::{
    lemma_sum_add, lemma_sum_bounds, lemma_sum_ext, lemma_sum_le, lemma_sum_replace, lemma_sum_scale,
    lemma_sum_single, lemma_sum_split, lemma_sum_zero, sum_to,
};

verus! {

/// A probability as an exact ratio of counts of ordered deals.
#[derive(Clone, Copy, Debug, PartialEq, Eq, Structural)]
pub struct ProbabilityRatio {
    pub numerator: u128,
    pub denominator: u128,
}

/// The ratio `numerator / denominator`, or `0 / 1` where the denominator is
/// zero.
pub open spec fn spec_ratio(numerator: int, denominator: int) -> ProbabilityRatio {
    if denominator == 0 {
        ProbabilityRatio { numerator: 0, denominator: 1 }
    } else {
        ProbabilityRatio { numerator: numerator as u128, denominator: denominator as u128 }
    }
}

impl ProbabilityRatio {
    /// The ratio `0 / 1`.
    pub fn zero() -> (r: ProbabilityRatio)
        ensures
            r == spec_ratio(0, 0),
    {
        ProbabilityRatio { numerator: 0, denominator: 1 }
    }

    /// The ratio `numerator / denominator`; a zero denominator gives `0 / 1`.
    pub fn new(numerator: u128, denominator: u128) -> (r: ProbabilityRatio)
        ensures
            r == spec_ratio(numerator as int, denominator as int),
    {
        if denominator == 0 {
            ProbabilityRatio::zero()
        } else {
            ProbabilityRatio { numerator, denominator }
        }
    }
}

impl Default for ProbabilityRatio {
    /// The ratio `0 / 1`.
    fn default() -> (r: ProbabilityRatio)
        ensures
            r == spec_ratio(0, 0),
    {
        ProbabilityRatio::zero()
    }
}

/// Ordered pairs of distinct cards among `c`: `c * (c - 1)`.
pub open spec fn f2(c: int) -> int {
    c * (c - 1)
}

/// Ordered four-tuples of distinct cards among `c`.
pub open spec fn f4(c: int) -> int {
    c * (c - 1) * (c - 2) * (c - 3)
}

/// Number of cards counted by the first `m` entries.
pub open spec fn count_to(s: Seq<u16>, m: int) -> int {
    sum_to(|i: int| s[i] as int, m)
}

/// Ordered same-entry pairs over the first `m` entries.
pub open spec fn pairs_to(s: Seq<u16>, m: int) -> int {
    sum_to(|i: int| f2(s[i] as int), m)
}

/// Squares of the same-entry pair counts over the first `m` entries.
pub open spec fn squares_to(s: Seq<u16>, m: int) -> int {
    sum_to(|i: int| f2(s[i] as int) * f2(s[i] as int), m)
}

/// Ordered same-entry four-tuples over the first `m` entries.
pub open spec fn fours_to(s: Seq<u16>, m: int) -> int {
    sum_to(|i: int| f4(s[i] as int), m)
}

/// Number of cards counted by `s`.
pub open spec fn card_count(s: Seq<u16>) -> int {
    count_to(s, s.len() as int)
}

/// Ordered pairs of two cards of the same entry.
pub open spec fn pair_orders(s: Seq<u16>) -> int {
    pairs_to(s, s.len() as int)
}

/// Ordered four-card deals whose first two cards share an entry and whose
/// last two cards share an entry.
pub open spec fn both_pair_orders_of(s: Seq<u16>) -> int {
    let p = pair_orders(s);
    p * p - squares_to(s, s.len() as int) + fours_to(s, s.len() as int)
}

/// Ordered deals of two cards of entry `i` followed by two cards of entry
/// `j`: `f2(c_i) * f2(c_j)`, or `f4(c_i)` when both pairs come from the same
/// entry.
pub open spec fn pair_then_pair(s: Seq<u16>, i: int, j: int) -> int {
    if i == j {
        f4(s[i] as int)
    } else {
        f2(s[i] as int) * f2(s[j] as int)
    }
}

/// The sum over the entry `i` of a first pair and the entry `j` of a second
/// pair of the ways to deal them.
pub open spec fn both_pairs_by_entry(s: Seq<u16>) -> int {
    sum_to(|i: int| sum_to(|j: int| pair_then_pair(s, i, j), s.len() as int), s.len() as int)
}

/// Ordered four-card deals whose first two and last two cards each share an
/// entry, counted entry by entry: the sum over the entry `i` of the first
/// pair and the entry `j` of the second of the ways to deal them.
pub proof fn lemma_both_pairs_count(s: Seq<u16>)
    ensures
        both_pair_orders_of(s) == both_pairs_by_entry(s),
{
    let m = s.len() as int;
    let p = pairs_to(s, m);
    let f = |i: int| f2(s[i] as int);
    let sq = |i: int| f2(s[i] as int) * f2(s[i] as int);
    let fo = |i: int| f4(s[i] as int);
    let pf = |i: int| p * f2(s[i] as int);
    let h1 = |i: int| p * f2(s[i] as int) - f2(s[i] as int) * f2(s[i] as int);
    let h = |i: int| h1(i) + fo(i);
    let outer = |i: int| sum_to(|j: int| pair_then_pair(s, i, j), m);
    assert forall|x: int| 0 <= x < m implies #[trigger] outer(x) == h(x) by {
        let g = |j: int| f2(s[x] as int) * f2(s[j] as int);
        lemma_sum_replace(|j: int| pair_then_pair(s, x, j), g, m, x);
        lemma_sum_scale(f, g, f2(s[x] as int), m);
        assert(f2(s[x] as int) * p == p * f2(s[x] as int)) by (nonlinear_arith);
    }
    lemma_sum_ext(outer, h, m);
    lemma_sum_add(h1, fo, h, m);
    lemma_sum_add(h1, sq, pf, m);
    lemma_sum_scale(f, pf, p, m);
}

/// Ordered two-card deals from `n` cards.
pub open spec fn spec_ordered2(n: int) -> int {
    n * (n - 1)
}

/// Ordered four-card deals from `n` cards.
pub open spec fn spec_ordered4(n: int) -> int {
    n * (n - 1) * (n - 2) * (n - 3)
}

/// Ordered four-card deals where one named side opens with a pair, counted
/// once for each side: `2 * pairs * (n - 2) * (n - 3)`.
pub open spec fn one_side_scaled(p: int, n: int) -> int {
    2 * p * (n - 2) * (n - 3)
}

proof fn lemma_f2_bounds(c: int)
    requires
        0 <= c <= 0xffff,
    ensures
        0 <= f2(c) <= 0xffff * 0xffff,
        0 <= f2(c) * f2(c) <= 0xffff * 0xffff * 0xffff * 0xffff,
        0 <= f4(c) <= 0xffff * 0xffff * 0xffff * 0xffff,
        f4(c) == f2(c) * ((c - 2) * (c - 3)),
{
    assert(0 <= f2(c) <= 0xffff * 0xffff) by (nonlinear_arith)
        requires
            0 <= c <= 0xffff,
    ;
    let x = f2(c);
    assert(0 <= x * x <= 0xffff * 0xffff * 0xffff * 0xffff) by (nonlinear_arith)
        requires
            0 <= x <= 0xffff * 0xffff,
    ;
    assert(f4(c) == f2(c) * ((c - 2) * (c - 3))) by (nonlinear_arith);
    assert(0 <= f4(c) <= 0xffff * 0xffff * 0xffff * 0xffff) by (nonlinear_arith)
        requires
            0 <= c <= 0xffff,
            f4(c) == c * (c - 1) * (c - 2) * (c - 3),
    {
        if c >= 3 {
            assert(0 <= c - 3 <= 0xffff);
            assert(0 <= c * (c - 1) <= 0xffff * 0xffff);
            assert(0 <= (c - 2) * (c - 3) <= 0xffff * 0xffff);
        } else {
            assert(c == 0 || c == 1 || c == 2);
        }
    }
}

/// `a * b` where `a` and `b` are known to lie under bounds whose product
/// fits.
fn mul_bounded(a: u128, b: u128, bound_a: u128, bound_b: u128) -> (r: u128)
    requires
        a <= bound_a,
        b <= bound_b,
        bound_a * bound_b <= u128::MAX,
    ensures
        r == a * b,
        r <= bound_a * bound_b,
{
    proof {
        lemma_mul_upper_bound(a as int, bound_a as int, b as int, bound_b as int);
    }
    a * b
}

/// `n * (n - 1)` with `n - 1` saturating at zero.
pub fn ordered2(total_cards: u16) -> (r: u128)
    ensures
        r == spec_ordered2(total_cards as int),
{
    let n = total_cards as u128;
    if n == 0 {
        0
    } else {
        proof {
            assert(n * (n - 1) <= 0xffff * 0xffff) by (nonlinear_arith)
                requires
                    1 <= n <= 0xffff,
            ;
        }
        n * (n - 1)
    }
}

/// `n * (n - 1) * (n - 2) * (n - 3)` with each factor saturating at zero.
pub fn ordered4(total_cards: u16) -> (r: u128)
    ensures
        r == spec_ordered4(total_cards as int),
        r == 0 <==> total_cards < 4,
{
    let n = total_cards as u128;
    if n < 4 {
        proof {
            assert(spec_ordered4(total_cards as int) == 0) by (nonlinear_arith)
                requires
                    0 <= total_cards < 4,
            ;
        }
        0
    } else {
        let a = mul_bounded(n, n - 1, 0xffff, 0xffff);
        let b = mul_bounded(a, n - 2, 0xffff * 0xffff, 0xffff);
        let c = mul_bounded(b, n - 3, 0xffff * 0xffff * 0xffff, 0xffff);
        proof {
            assert(0 < n * (n - 1) * (n - 2) * (n - 3)) by (nonlinear_arith)
                requires
                    4 <= n,
            ;
        }
        c
    }
}

/// Ordered pairs of two copies among `count` copies.
pub fn falling2(count: u16) -> (r: u128)
    ensures
        r == f2(count as int),
{
    proof {
        lemma_f2_bounds(count as int);
    }
    let c = count as u128;
    if c == 0 {
        0
    } else {
        mul_bounded(c, c - 1, 0xffff, 0xffff)
    }
}

/// Ordered four-tuples of distinct copies among `count` copies.
pub fn falling4_from_count(count: u128) -> (r: u128)
    requires
        count <= 0xffff_ffff,
    ensures
        r == f4(count as int),
{
    if count < 4 {
        proof {
            assert(f4(count as int) == 0) by (nonlinear_arith)
                requires
                    0 <= count < 4,
            ;
        }
        0
    } else {
        let a = mul_bounded(count, count - 1, 0xffff_ffff, 0xffff_ffff);
        let b = mul_bounded(a, count - 2, 0xffff_ffff * 0xffff_ffff, 0xffff_ffff);
        mul_bounded(b, count - 3, 0xffff_ffff * 0xffff_ffff * 0xffff_ffff, 0xffff_ffff)
    }
}

/// Ordered pairs of two copies of the same entry, summed over the entries.
pub fn sum_falling2(counts: &[u16]) -> (r: u128)
    requires
        counts@.len() <= 52,
    ensures
        r == pair_orders(counts@),
        r <= 52 * (0xffff * 0xffff),
{
    let mut acc: u128 = 0;
    let mut i: usize = 0;
    while i < counts.len()
        invariant
            i <= counts@.len() <= 52,
            acc == pairs_to(counts@, i as int),
            acc <= i * (0xffff * 0xffff),
        decreases counts@.len() - i,
    {
        proof {
            lemma_f2_bounds(counts@[i as int] as int);
        }
        assert(i * (0xffff * 0xffff) + 0xffff * 0xffff == (i + 1) * (0xffff * 0xffff)) by (nonlinear_arith);
        acc = acc + falling2(counts[i]);
        i = i + 1;
    }
    assert(i * (0xffff * 0xffff) <= 52 * (0xffff * 0xffff)) by (nonlinear_arith)
        requires
            i <= 52,
    ;
    acc
}

/// Squares of the pair counts and four-tuples of each entry, summed over the
/// entries.
fn square_and_four_sums(counts: &[u16]) -> (r: (u128, u128))
    requires
        counts@.len() <= 52,
    ensures
        r.0 == squares_to(counts@, counts@.len() as int),
        r.1 == fours_to(counts@, counts@.len() as int),
        r.1 <= 52 * (0xffff * 0xffff * 0xffff * 0xffff),
{
    let mut squares: u128 = 0;
    let mut fours: u128 = 0;
    let mut i: usize = 0;
    while i < counts.len()
        invariant
            i <= counts@.len() <= 52,
            squares == squares_to(counts@, i as int),
            fours == fours_to(counts@, i as int),
            squares <= i * (0xffff * 0xffff * 0xffff * 0xffff),
            fours <= i * (0xffff * 0xffff * 0xffff * 0xffff),
        decreases counts@.len() - i,
    {
        proof {
            lemma_f2_bounds(counts@[i as int] as int);
        }
        assert(i * (0xffff * 0xffff * 0xffff * 0xffff) + 0xffff * 0xffff * 0xffff * 0xffff == (i + 1) * (0xffff
            * 0xffff * 0xffff * 0xffff) <= 52 * (0xffff * 0xffff * 0xffff * 0xffff)) by (nonlinear_arith)
            requires
                i < 52,
        ;
        let orders = falling2(counts[i]);
        squares = squares + mul_bounded(orders, orders, 0xffff * 0xffff, 0xffff * 0xffff);
        fours = fours + falling4_from_count(counts[i] as u128);
        i = i + 1;
    }
    assert(i * (0xffff * 0xffff * 0xffff * 0xffff) <= 52 * (0xffff * 0xffff * 0xffff * 0xffff)) by (
    nonlinear_arith)
        requires
            i <= 52,
    ;
    (squares, fours)
}

proof fn lemma_pairs_nonneg(s: Seq<u16>, m: int)
    requires
        0 <= m <= s.len(),
    ensures
        0 <= pairs_to(s, m),
        0 <= count_to(s, m),
    decreases m,
{
    if m > 0 {
        lemma_pairs_nonneg(s, m - 1);
        lemma_f2_bounds(s[m - 1] as int);
    }
}

/// The squares of the pair counts add up to at most the square of their sum.
proof fn lemma_squares_le(s: Seq<u16>, m: int)
    requires
        0 <= m <= s.len(),
    ensures
        squares_to(s, m) <= pairs_to(s, m) * pairs_to(s, m),
    decreases m,
{
    if m > 0 {
        lemma_squares_le(s, m - 1);
        lemma_pairs_nonneg(s, m - 1);
        lemma_f2_bounds(s[m - 1] as int);
        let p = pairs_to(s, m - 1);
        let a = f2(s[m - 1] as int);
        assert((p + a) * (p + a) == p * p + 2 * p * a + a * a) by (nonlinear_arith);
        assert(0 <= p * a) by (nonlinear_arith)
            requires
                0 <= p,
                0 <= a,
        ;
    }
}

/// Pairs within separate entries are at most the pairs of all their cards
/// together.
proof fn lemma_pairs_superadditive(s: Seq<u16>, m: int)
    requires
        0 <= m <= s.len(),
    ensures
        pairs_to(s, m) <= f2(count_to(s, m)),
    decreases m,
{
    if m > 0 {
        lemma_pairs_superadditive(s, m - 1);
        lemma_pairs_nonneg(s, m - 1);
        let n = count_to(s, m - 1);
        let c = s[m - 1] as int;
        assert(f2(n + c) == f2(n) + f2(c) + 2 * n * c) by (nonlinear_arith);
        assert(0 <= n * c) by (nonlinear_arith)
            requires
                0 <= n,
                0 <= c,
        ;
    }
}

/// Removing one entry removes its cards and its pairs.
proof fn lemma_remove_entry(s: Seq<u16>, r: int)
    requires
        0 <= r < s.len(),
    ensures
        card_count(s.update(r, 0u16)) == card_count(s) - s[r],
        pair_orders(s.update(r, 0u16)) == pair_orders(s) - f2(s[r] as int),
{
    let t = s.update(r, 0u16);
    let m = s.len() as int;
    lemma_sum_replace(|i: int| s[i] as int, |i: int| t[i] as int, m, r);
    lemma_sum_replace(|i: int| f2(s[i] as int), |i: int| f2(t[i] as int), m, r);
}

/// Ordered four-card deals in which both sides open with a pair number at
/// most the deals in which the first side opens with a pair.
pub proof fn lemma_both_pairs_bound(s: Seq<u16>)
    ensures
        0 <= squares_to(s, s.len() as int) <= pair_orders(s) * pair_orders(s),
        0 <= both_pair_orders_of(s),
        both_pair_orders_of(s) <= pair_orders(s) * ((card_count(s) - 2) * (card_count(s) - 3)),
{
    let m = s.len() as int;
    let n = card_count(s);
    let p = pair_orders(s);
    let k = (n - 2) * (n - 3);
    lemma_squares_le(s, m);
    lemma_pairs_nonneg(s, m);
    let fp = |i: int| f2(s[i] as int);
    let gp = |i: int| p * f2(s[i] as int);
    let sq = |i: int| f2(s[i] as int) * f2(s[i] as int);
    let fo = |i: int| f4(s[i] as int);
    let t = |i: int| f2(s[i] as int) * p - f2(s[i] as int) * f2(s[i] as int) + f4(s[i] as int);
    let u = |i: int| p * f2(s[i] as int) + f4(s[i] as int);
    let kb = |i: int| k * f2(s[i] as int);
    assert forall|i: int| 0 <= i < m implies 0 <= #[trigger] sq(i) <= 0xffff * 0xffff * 0xffff * 0xffff by {
        lemma_f2_bounds(s[i] as int);
    }
    assert forall|i: int| 0 <= i < m implies 0 <= #[trigger] fo(i) <= 0xffff * 0xffff * 0xffff * 0xffff by {
        lemma_f2_bounds(s[i] as int);
    }
    lemma_sum_bounds(sq, m, 0xffff * 0xffff * 0xffff * 0xffffint);
    lemma_sum_bounds(fo, m, 0xffff * 0xffff * 0xffff * 0xffffint);
    lemma_sum_scale(fp, gp, p, m);
    assert forall|i: int| 0 <= i < m implies #[trigger] u(i) == t(i) + sq(i) by {
        assert(f2(s[i] as int) * p == p * f2(s[i] as int)) by (nonlinear_arith);
    }
    lemma_sum_add(t, sq, u, m);
    lemma_sum_add(gp, fo, u, m);
    assert(sum_to(t, m) == both_pair_orders_of(s));
    assert forall|r: int| 0 <= r < m implies #[trigger] t(r) <= kb(r) by {
        let c = s[r] as int;
        lemma_f2_bounds(c);
        let rest = s.update(r, 0u16);
        lemma_remove_entry(s, r);
        lemma_pairs_superadditive(rest, m);
        let others = p - f2(c);
        assert(others <= f2(n - c));
        assert(t(r) == f2(c) * (others + (c - 2) * (c - 3))) by (nonlinear_arith)
            requires
                t(r) == f2(c) * p - f2(c) * f2(c) + f4(c),
                f4(c) == f2(c) * ((c - 2) * (c - 3)),
                others == p - f2(c),
        ;
        if c >= 2 {
            lemma_pairs_nonneg(rest, m);
            assert(n - c >= 0);
            assert(f2(n - c) + (c - 2) * (c - 3) <= k) by (nonlinear_arith)
                requires
                    c >= 2,
                    n - c >= 0,
                    k == (n - 2) * (n - 3),
            ;
            let x = others + (c - 2) * (c - 3);
            let y = f2(c);
            assert(y * x <= k * y) by (nonlinear_arith)
                requires
                    x <= k,
                    0 <= y,
            ;
        } else {
            assert(f2(c) == 0) by (nonlinear_arith)
                requires
                    0 <= c < 2,
            ;
            assert(t(r) == 0 && kb(r) == 0) by (nonlinear_arith)
                requires
                    f2(c) == 0,
                    t(r) == f2(c) * (others + (c - 2) * (c - 3)),
                    kb(r) == k * f2(c),
            ;
        }
    }
    lemma_sum_le(t, kb, m);
    lemma_sum_scale(fp, kb, k, m);
    assert(k * p == p * k) by (nonlinear_arith);
}

/// The ranks of a consistent shoe count every card once.
pub proof fn lemma_rank_total(counts: ShoeCounts)
    requires
        counts.wf(),
    ensures
        card_count(counts.rank@) == counts.total,
        card_count(counts.card@) == counts.total,
{
    let c = counts.card@;
    let f = |k: int| c[k] as int;
    let g0 = |i: int| f(i);
    let g1 = |i: int| f(13 + i);
    let g2 = |i: int| f(26 + i);
    let g3 = |i: int| f(39 + i);
    let f26 = |i: int| f(i);
    let f39 = |i: int| f(i);
    lemma_sum_split(f, g3, 39, 13);
    lemma_sum_split(f, g2, 26, 13);
    lemma_sum_split(f, g1, 13, 13);
    lemma_sum_ext(f, g0, 13);
    let h01 = |i: int| g0(i) + g1(i);
    let h012 = |i: int| h01(i) + g2(i);
    let h = |i: int| h012(i) + g3(i);
    lemma_sum_add(g0, g1, h01, 13);
    lemma_sum_add(h01, g2, h012, 13);
    lemma_sum_add(h012, g3, h, 13);
    let rk = counts.rank@;
    assert forall|r: int| 0 <= r < 13 implies #[trigger] h(r) == rk[r] as int by {
        assert(rk[r] == rank_from_cards(c, r));
    }
    lemma_sum_ext(h, |i: int| rk[i] as int, 13);
}

/// Exact probability that one named side opens with two cards of the same
/// rank: `pairs / ordered2(n)`.
pub open spec fn spec_same_rank_pair(rank_counts: Seq<u16>, n: int) -> ProbabilityRatio {
    spec_ratio(pair_orders(rank_counts), spec_ordered2(n))
}

/// Exact probability that at least one side opens with a pair.
pub open spec fn spec_any_pair(rank_counts: Seq<u16>, n: int) -> ProbabilityRatio {
    let d = spec_ordered4(n);
    if d == 0 {
        spec_ratio(0, 0)
    } else {
        spec_ratio(one_side_scaled(pair_orders(rank_counts), n) - both_pair_orders_of(rank_counts), d)
    }
}

/// Same-rank pair probability of one named side.
pub fn same_rank_pair_probability(counts: &[u16], total_cards: u16) -> (r: ProbabilityRatio)
    requires
        counts@.len() <= 52,
    ensures
        r == spec_same_rank_pair(counts@, total_cards as int),
{
    ProbabilityRatio::new(sum_falling2(counts), ordered2(total_cards))
}

/// `2 * pairs * (n - 2) * (n - 3)`.
fn one_side_pair_orders(pair_orders: u128, total_cards: u16) -> (r: u128)
    requires
        pair_orders <= 52 * (0xffff * 0xffff),
        total_cards >= 4,
    ensures
        r == one_side_scaled(pair_orders as int, total_cards as int),
        r <= 2 * (52 * (0xffff * 0xffff)) * 0xffff * 0xffff,
{
    let n = total_cards as u128;
    let a = 2 * pair_orders;
    let b = mul_bounded(a, n - 2, 2 * (52 * (0xffff * 0xffff)), 0xffff);
    mul_bounded(b, n - 3, 2 * (52 * (0xffff * 0xffff)) * 0xffff, 0xffff)
}

/// Ordered four-card deals in which both sides open with a pair of the same
/// entry: `pairs^2 - sum of squared pair counts + sum of four-tuples`.
pub fn both_pair_orders(counts: &[u16]) -> (r: u128)
    requires
        counts@.len() <= 52,
    ensures
        r == both_pair_orders_of(counts@),
{
    let pairs = sum_falling2(counts);
    let (squares, fours) = square_and_four_sums(counts);
    proof {
        lemma_both_pairs_bound(counts@);
        assert(fours_to(counts@, counts@.len() as int) <= 52 * (0xffff * 0xffff * 0xffff * 0xffff)) by {
            let fo = |i: int| f4(counts@[i] as int);
            assert forall|i: int| 0 <= i < counts@.len() implies 0 <= #[trigger] fo(i) <= 0xffff * 0xffff * 0xffff
                * 0xffff by {
                lemma_f2_bounds(counts@[i] as int);
            }
            lemma_sum_bounds(fo, counts@.len() as int, 0xffff * 0xffff * 0xffff * 0xffffint);
            assert(counts@.len() * (0xffff * 0xffff * 0xffff * 0xffffint) <= 52 * (0xffff * 0xffff * 0xffff
                * 0xffffint)) by (nonlinear_arith)
                requires
                    counts@.len() <= 52,
            ;
        }
    }
    assert(52 * (0xffff * 0xffff) * (52 * (0xffff * 0xffff)) <= 0x1_0000_0000_0000_0000_0000_0000) by (
    nonlinear_arith);
    let p2 = mul_bounded(pairs, pairs, 52 * (0xffff * 0xffff), 52 * (0xffff * 0xffff));
    p2 - squares + fours
}

/// Ordered four-card deals in which both sides open with a perfect pair.
pub fn both_perfect_pair_orders(card_counts: &[u16]) -> (r: u128)
    requires
        card_counts@.len() == 52,
    ensures
        r == both_pair_orders_of(card_counts@),
{
    both_pair_orders(card_counts)
}

proof fn lemma_one_side_covers_both(s: Seq<u16>, n: int)
    requires
        card_count(s) == n,
        n >= 4,
    ensures
        0 <= both_pair_orders_of(s),
        2 * both_pair_orders_of(s) <= one_side_scaled(pair_orders(s), n),
{
    lemma_both_pairs_bound(s);
    let p = pair_orders(s);
    lemma_pairs_nonneg(s, s.len() as int);
    assert(one_side_scaled(p, n) == 2 * (p * ((n - 2) * (n - 3)))) by (nonlinear_arith);
}

/// Probability that at least one side opens with a same-rank pair.
pub fn any_pair_probability(rank_counts: &[u16], total_cards: u16) -> (r: ProbabilityRatio)
    requires
        rank_counts@.len() <= 52,
        card_count(rank_counts@) == total_cards,
    ensures
        r == spec_any_pair(rank_counts@, total_cards as int),
{
    let denominator = ordered4(total_cards);
    let pair_orders = sum_falling2(rank_counts);
    let both = both_pair_orders(rank_counts);
    if denominator == 0 {
        return ProbabilityRatio::zero();
    }
    proof {
        lemma_one_side_covers_both(rank_counts@, total_cards as int);
    }
    let one_side = one_side_pair_orders(pair_orders, total_cards);
    ProbabilityRatio::new(one_side - both, denominator)
}

/// Perfect-pair ratios: at least one side, exactly one side, both sides.
#[derive(Clone, Copy, Debug, PartialEq, Eq, Structural)]
pub struct PerfectPairStats {
    pub any: ProbabilityRatio,
    pub single: ProbabilityRatio,
    pub both: ProbabilityRatio,
}

/// Bound on the numerators of the opening-card ratios of any shoe.
pub const OPENING_NUMERATOR_BOUND: u128 = 0x1_0000_0000_0000_0000_0000;

/// Perfect pairs (two identical cards) of the opening four cards.
pub open spec fn spec_perfect_pair_stats(card_counts: Seq<u16>, n: int) -> PerfectPairStats {
    let d = spec_ordered4(n);
    let one = one_side_scaled(pair_orders(card_counts), n);
    let both = both_pair_orders_of(card_counts);
    if d == 0 {
        PerfectPairStats { any: spec_ratio(0, 0), single: spec_ratio(0, 0), both: spec_ratio(0, 0) }
    } else {
        PerfectPairStats {
            any: spec_ratio(one - both, d),
            single: spec_ratio(one - 2 * both, d),
            both: spec_ratio(both, d),
        }
    }
}

/// Perfect-pair probabilities of the opening four cards.
pub fn perfect_pair_stats(card_counts: &[u16], total_cards: u16) -> (r: PerfectPairStats)
    requires
        card_counts@.len() <= 52,
        card_count(card_counts@) == total_cards,
    ensures
        r == spec_perfect_pair_stats(card_counts@, total_cards as int),
{
    let denominator = ordered4(total_cards);
    let pair_orders = sum_falling2(card_counts);
    let both = both_pair_orders(card_counts);
    if denominator == 0 {
        return PerfectPairStats {
            any: ProbabilityRatio::zero(),
            single: ProbabilityRatio::zero(),
            both: ProbabilityRatio::zero(),
        };
    }
    proof {
        lemma_one_side_covers_both(card_counts@, total_cards as int);
    }
    let one_side = one_side_pair_orders(pair_orders, total_cards);
    PerfectPairStats {
        any: ProbabilityRatio::new(one_side - both, denominator),
        single: ProbabilityRatio::new(one_side - 2 * both, denominator),
        both: ProbabilityRatio::new(both, denominator),
    }
}

/// Tiger-pair ratios by variant.
#[derive(Clone, Copy, Debug, PartialEq, Eq, Structural)]
pub struct TigerPairStats {
    pub perfect: ProbabilityRatio,
    pub both: ProbabilityRatio,
    pub single: ProbabilityRatio,
}

/// Tiger pairs: four identical cards, both sides with rank pairs, or exactly
/// one side with a rank pair.
pub open spec fn spec_tiger_pair_stats(rank_counts: Seq<u16>, card_counts: Seq<u16>, n: int) -> TigerPairStats {
    let d = spec_ordered4(n);
    let both = both_pair_orders_of(rank_counts);
    let any = one_side_scaled(pair_orders(rank_counts), n) - both;
    if d == 0 {
        TigerPairStats { perfect: spec_ratio(0, 0), both: spec_ratio(0, 0), single: spec_ratio(0, 0) }
    } else {
        TigerPairStats {
            perfect: spec_ratio(fours_to(card_counts, card_counts.len() as int), d),
            both: spec_ratio(both, d),
            single: spec_ratio(any - both, d),
        }
    }
}

/// Tiger-pair probabilities of the opening four cards.
pub fn tiger_pair_stats(rank_counts: &[u16], card_counts: &[u16], total_cards: u16) -> (r: TigerPairStats)
    requires
        rank_counts@.len() <= 52,
        card_counts@.len() <= 52,
        card_count(rank_counts@) == total_cards,
    ensures
        r == spec_tiger_pair_stats(rank_counts@, card_counts@, total_cards as int),
        r.perfect.numerator <= OPENING_NUMERATOR_BOUND,
        r.both.numerator <= OPENING_NUMERATOR_BOUND,
        r.single.numerator <= OPENING_NUMERATOR_BOUND,
{
    let denominator = ordered4(total_cards);
    if denominator == 0 {
        return TigerPairStats {
            perfect: ProbabilityRatio::zero(),
            both: ProbabilityRatio::zero(),
            single: ProbabilityRatio::zero(),
        };
    }
    let both = both_pair_orders(rank_counts);
    let pair_orders = sum_falling2(rank_counts);
    proof {
        lemma_one_side_covers_both(rank_counts@, total_cards as int);
    }
    let any = one_side_pair_orders(pair_orders, total_cards) - both;
    let (_, perfect) = square_and_four_sums(card_counts);
    TigerPairStats {
        perfect: ProbabilityRatio::new(perfect, denominator),
        both: ProbabilityRatio::new(both, denominator),
        single: ProbabilityRatio::new(any - both, denominator),
    }
}

/// Fortune-4 pair ratios by variant.
#[derive(Clone, Copy, Debug, PartialEq, Eq, Structural)]
pub struct Fortune4PairStats {
    pub fortune30: ProbabilityRatio,
    pub fortune15: ProbabilityRatio,
    pub fortune12: ProbabilityRatio,
    pub fortune9: ProbabilityRatio,
}

/// The fortune-4 class of the exact card with index `k`: 30 for the four of
/// diamonds, 15 for another four, 12 for another diamond, 9 otherwise.
pub open spec fn fortune_class(k: int) -> int {
    let diamond = k / 13 == 1;
    let four = k % 13 == 3;
    if diamond && four {
        30
    } else if four {
        15
    } else if diamond {
        12
    } else {
        9
    }
}

/// Perfect pairs of the cards of one fortune-4 class.
pub open spec fn fortune_pairs(card_counts: Seq<u16>, class: int, m: int) -> int {
    sum_to(|k: int| if fortune_class(k) == class { f2(card_counts[k] as int) } else { 0 }, m)
}

/// Fortune-4 pairs of one named side's opening two cards.
pub open spec fn spec_fortune4_pair_stats(card_counts: Seq<u16>, n: int) -> Fortune4PairStats {
    let d = spec_ordered2(n);
    if d == 0 {
        Fortune4PairStats {
            fortune30: spec_ratio(0, 0),
            fortune15: spec_ratio(0, 0),
            fortune12: spec_ratio(0, 0),
            fortune9: spec_ratio(0, 0),
        }
    } else {
        Fortune4PairStats {
            fortune30: spec_ratio(f2(card_counts[16] as int), d),
            fortune15: spec_ratio(fortune_pairs(card_counts, 15, 52), d),
            fortune12: spec_ratio(fortune_pairs(card_counts, 12, 52), d),
            fortune9: spec_ratio(fortune_pairs(card_counts, 9, 52), d),
        }
    }
}

/// The fortune-4 class of an exact card by its suit and rank: 30 for the
/// four of diamonds, 15 for a four of another suit, 12 for a diamond of
/// another rank, 9 for the rest.
pub proof fn lemma_fortune_class_by_card(k: int)
    requires
        0 <= k < 52,
    ensures
        fortune_class(k) == (if CardSuit::spec_from_index(k / 13) == CardSuit::Diamonds && CardRank::spec_from_index(
            k % 13,
        ) == CardRank::Four {
            30int
        } else if CardRank::spec_from_index(k % 13) == CardRank::Four {
            15int
        } else if CardSuit::spec_from_index(k / 13) == CardSuit::Diamonds {
            12int
        } else {
            9int
        }),
{
}

/// The fortune-4 numerators count the ordered pairs of identical cards of
/// each class: the four of diamonds for 30, the other fours for 15, the
/// other diamonds for 12 and every other card for 9.
pub proof fn lemma_fortune4_numerators_by_card(card_counts: Seq<u16>, n: int)
    requires
        card_counts.len() == 52,
        spec_ordered2(n) != 0,
    ensures
        spec_fortune4_pair_stats(card_counts, n).fortune30.numerator == f2(
            card_counts[Card { suit: CardSuit::Diamonds, rank: CardRank::Four }.spec_index()] as int,
        ),
        spec_fortune4_pair_stats(card_counts, n).fortune15.numerator == sum_to(
            |k: int|
                if CardSuit::spec_from_index(k / 13) != CardSuit::Diamonds && CardRank::spec_from_index(k % 13)
                    == CardRank::Four {
                    f2(card_counts[k] as int)
                } else {
                    0
                },
            52,
        ),
        spec_fortune4_pair_stats(card_counts, n).fortune12.numerator == sum_to(
            |k: int|
                if CardSuit::spec_from_index(k / 13) == CardSuit::Diamonds && CardRank::spec_from_index(k % 13)
                    != CardRank::Four {
                    f2(card_counts[k] as int)
                } else {
                    0
                },
            52,
        ),
        spec_fortune4_pair_stats(card_counts, n).fortune9.numerator == sum_to(
            |k: int|
                if CardSuit::spec_from_index(k / 13) != CardSuit::Diamonds && CardRank::spec_from_index(k % 13)
                    != CardRank::Four {
                    f2(card_counts[k] as int)
                } else {
                    0
                },
            52,
        ),
{
    let by_class = |c: int| |k: int| if fortune_class(k) == c { f2(card_counts[k] as int) } else { 0 };
    let g15 = |k: int|
        if CardSuit::spec_from_index(k / 13) != CardSuit::Diamonds && CardRank::spec_from_index(k % 13)
            == CardRank::Four {
            f2(card_counts[k] as int)
        } else {
            0
        };
    let g12 = |k: int|
        if CardSuit::spec_from_index(k / 13) == CardSuit::Diamonds && CardRank::spec_from_index(k % 13)
            != CardRank::Four {
            f2(card_counts[k] as int)
        } else {
            0
        };
    let g9 = |k: int|
        if CardSuit::spec_from_index(k / 13) != CardSuit::Diamonds && CardRank::spec_from_index(k % 13)
            != CardRank::Four {
            f2(card_counts[k] as int)
        } else {
            0
        };
    assert forall|k: int| 0 <= k < 52 implies #[trigger] by_class(15)(k) == g15(k) && by_class(12)(k) == g12(k)
        && by_class(9)(k) == g9(k) by {
        lemma_fortune_class_by_card(k);
    }
    lemma_sum_ext(by_class(15), g15, 52);
    lemma_sum_ext(by_class(12), g12, 52);
    lemma_sum_ext(by_class(9), g9, 52);
    assert forall|k: int| 0 <= k < 52 implies 0 <= #[trigger] by_class(15)(k) <= 0xffff * 0xffff by {
        lemma_f2_bounds(card_counts[k] as int);
    }
    assert forall|k: int| 0 <= k < 52 implies 0 <= #[trigger] by_class(12)(k) <= 0xffff * 0xffff by {
        lemma_f2_bounds(card_counts[k] as int);
    }
    assert forall|k: int| 0 <= k < 52 implies 0 <= #[trigger] by_class(9)(k) <= 0xffff * 0xffff by {
        lemma_f2_bounds(card_counts[k] as int);
    }
    lemma_sum_bounds(by_class(15), 52, 0xffff * 0xffffint);
    lemma_sum_bounds(by_class(12), 52, 0xffff * 0xffffint);
    lemma_sum_bounds(by_class(9), 52, 0xffff * 0xffffint);
    lemma_f2_bounds(card_counts[16] as int);
}

/// Index of the exact card of the given suit and rank indices.
pub fn card_index(suit_index: usize, rank_index: usize) -> (r: usize)
    requires
        suit_index < 4,
        rank_index < 13,
    ensures
        r == suit_index * 13 + rank_index,
{
    suit_index * 13 + rank_index
}

/// Fortune-4 pair probabilities of one named side's opening two cards.
pub fn fortune4_pair_stats(card_counts: &[u16], total_cards: u16) -> (r: Fortune4PairStats)
    requires
        card_counts@.len() == 52,
    ensures
        r == spec_fortune4_pair_stats(card_counts@, total_cards as int),
        r.fortune30.numerator <= OPENING_NUMERATOR_BOUND,
        r.fortune15.numerator <= OPENING_NUMERATOR_BOUND,
        r.fortune12.numerator <= OPENING_NUMERATOR_BOUND,
        r.fortune9.numerator <= OPENING_NUMERATOR_BOUND,
{
    let denominator = ordered2(total_cards);
    if denominator == 0 {
        return Fortune4PairStats {
            fortune30: ProbabilityRatio::zero(),
            fortune15: ProbabilityRatio::zero(),
            fortune12: ProbabilityRatio::zero(),
            fortune9: ProbabilityRatio::zero(),
        };
    }
    let diamond_index: usize = 1;
    let rank_four_index: usize = 3;
    let mut fortune15: u128 = 0;
    let mut fortune12: u128 = 0;
    let mut fortune9: u128 = 0;
    let mut k: usize = 0;
    while k < 52
        invariant
            k <= 52,
            card_counts@.len() == 52,
            diamond_index == 1,
            rank_four_index == 3,
            fortune15 == fortune_pairs(card_counts@, 15, k as int),
            fortune12 == fortune_pairs(card_counts@, 12, k as int),
            fortune9 == fortune_pairs(card_counts@, 9, k as int),
            fortune15 <= k * (0xffff * 0xffff),
            fortune12 <= k * (0xffff * 0xffff),
            fortune9 <= k * (0xffff * 0xffff),
        decreases 52 - k,
    {
        let suit_index = k / 13;
        let rank_index = k % 13;
        let orders = falling2(card_counts[card_index(suit_index, rank_index)]);
        proof {
            lemma_f2_bounds(card_counts@[k as int] as int);
        }
        assert(k * (0xffff * 0xffff) + 0xffff * 0xffff == (k + 1) * (0xffff * 0xffff)) by (nonlinear_arith);
        let is_diamond = suit_index == diamond_index;
        let is_rank_four = rank_index == rank_four_index;
        if is_diamond && is_rank_four {
        } else if is_rank_four {
            fortune15 = fortune15 + orders;
        } else if is_diamond {
            fortune12 = fortune12 + orders;
        } else {
            fortune9 = fortune9 + orders;
        }
        k = k + 1;
    }
    proof {
        lemma_f2_bounds(card_counts@[16] as int);
    }
    let fortune30 = falling2(card_counts[card_index(diamond_index, rank_four_index)]);
    Fortune4PairStats {
        fortune30: ProbabilityRatio::new(fortune30, denominator),
        fortune15: ProbabilityRatio::new(fortune15, denominator),
        fortune12: ProbabilityRatio::new(fortune12, denominator),
        fortune9: ProbabilityRatio::new(fortune9, denominator),
    }
}

/// Monkey ratios: all four opening cards court cards, or none of them.
#[derive(Clone, Copy, Debug, PartialEq, Eq, Structural)]
pub struct MonkeyStats {
    pub monkey: ProbabilityRatio,
    pub no_monkey: ProbabilityRatio,
}

impl MonkeyStats {
    /// Either branch: the sum of the two ratios when they share a
    /// denominator, zero otherwise.
    pub fn probability(self) -> (r: ProbabilityRatio)
        requires
            self.monkey.numerator + self.no_monkey.numerator <= u128::MAX,
        ensures
            r == (if self.monkey.denominator != self.no_monkey.denominator {
                spec_ratio(0, 0)
            } else {
                spec_ratio(self.monkey.numerator + self.no_monkey.numerator, self.monkey.denominator as int)
            }),
    {
        if self.monkey.denominator != self.no_monkey.denominator {
            return ProbabilityRatio::zero();
        }
        ProbabilityRatio::new(self.monkey.numerator + self.no_monkey.numerator, self.monkey.denominator)
    }
}

/// Court cards (Jack, Queen, King) among the rank counts.
pub open spec fn court_count(rank_counts: Seq<u16>) -> int {
    rank_counts[10] + rank_counts[11] + rank_counts[12]
}

/// Monkey ratios of the opening four cards.
pub open spec fn spec_monkey_stats(rank_counts: Seq<u16>, n: int) -> MonkeyStats {
    let d = spec_ordered4(n);
    if d == 0 {
        MonkeyStats { monkey: spec_ratio(0, 0), no_monkey: spec_ratio(0, 0) }
    } else {
        MonkeyStats {
            monkey: spec_ratio(f4(court_count(rank_counts)), d),
            no_monkey: spec_ratio(f4(count_to(rank_counts, 10)), d),
        }
    }
}

/// The monkey numerators count ordered four-card deals drawn only from the
/// Jacks, Queens and Kings, and only from the other ranks.
pub proof fn lemma_monkey_numerators_by_rank(rank_counts: Seq<u16>, n: int)
    requires
        rank_counts.len() == 13,
        spec_ordered4(n) != 0,
    ensures
        spec_monkey_stats(rank_counts, n).monkey.numerator == f4(
            sum_to(
                |r: int|
                    if CardRank::spec_from_index(r) == CardRank::Jack || CardRank::spec_from_index(r)
                        == CardRank::Queen || CardRank::spec_from_index(r) == CardRank::King {
                        rank_counts[r] as int
                    } else {
                        0
                    },
                13,
            ),
        ),
        spec_monkey_stats(rank_counts, n).no_monkey.numerator == f4(
            sum_to(
                |r: int|
                    if CardRank::spec_from_index(r) != CardRank::Jack && CardRank::spec_from_index(r)
                        != CardRank::Queen && CardRank::spec_from_index(r) != CardRank::King {
                        rank_counts[r] as int
                    } else {
                        0
                    },
                13,
            ),
        ),
{
    let court = |r: int|
        if CardRank::spec_from_index(r) == CardRank::Jack || CardRank::spec_from_index(r) == CardRank::Queen
            || CardRank::spec_from_index(r) == CardRank::King {
            rank_counts[r] as int
        } else {
            0
        };
    let plain = |r: int|
        if CardRank::spec_from_index(r) != CardRank::Jack && CardRank::spec_from_index(r) != CardRank::Queen
            && CardRank::spec_from_index(r) != CardRank::King {
            rank_counts[r] as int
        } else {
            0
        };
    reveal_with_fuel(sum_to, 14);
    let c = court_count(rank_counts);
    let m = count_to(rank_counts, 10);
    assert(sum_to(court, 13) == c);
    assert(sum_to(plain, 10) == m) by {
        lemma_sum_ext(plain, |r: int| rank_counts[r] as int, 10);
    }
    assert(sum_to(plain, 13) == m);
    assert(0 <= c <= 3 * 0xffff);
    assert(0 <= m);
    lemma_sum_bounds(|r: int| rank_counts[r] as int, 10, 0xffff);
    assert(0 <= f4(c) <= u128::MAX) by (nonlinear_arith)
        requires
            0 <= c <= 3 * 0xffff,
    {
        assert(0 <= c * (c - 1) * (c - 2) * (c - 3) || c < 3);
    }
    assert(0 <= f4(m) <= u128::MAX) by (nonlinear_arith)
        requires
            0 <= m <= 10 * 0xffff,
    {
    }
}

/// Monkey probabilities of the opening four cards.
pub fn monkey_stats(rank_counts: &[u16], total_cards: u16) -> (r: MonkeyStats)
    requires
        rank_counts@.len() == 13,
    ensures
        r == spec_monkey_stats(rank_counts@, total_cards as int),
{
    let denominator = ordered4(total_cards);
    if denominator == 0 {
        return MonkeyStats { monkey: ProbabilityRatio::zero(), no_monkey: ProbabilityRatio::zero() };
    }
    let monkey_count = rank_counts[10] as u128 + rank_counts[11] as u128 + rank_counts[12] as u128;
    let mut no_monkey_count: u128 = 0;
    let mut i: usize = 0;
    while i < 10
        invariant
            i <= 10,
            rank_counts@.len() == 13,
            no_monkey_count == count_to(rank_counts@, i as int),
            no_monkey_count <= i * 0xffff,
        decreases 10 - i,
    {
        no_monkey_count = no_monkey_count + rank_counts[i] as u128;
        i = i + 1;
    }
    MonkeyStats {
        monkey: ProbabilityRatio::new(falling4_from_count(monkey_count), denominator),
        no_monkey: ProbabilityRatio::new(falling4_from_count(no_monkey_count), denominator),
    }
}

/// Card colours of the opening cards.
#[derive(Clone, Copy, Debug, PartialEq, Eq, Structural)]
pub enum CardColor {
    Red,
    Black,
}

/// Whether the suit with index `suit_index` has the colour: diamonds and
/// hearts are red, clubs and spades black.
pub open spec fn spec_color_matches(suit_index: int, color: CardColor) -> bool {
    match color {
        CardColor::Red => suit_index == 1 || suit_index == 2,
        CardColor::Black => suit_index == 0 || suit_index == 3,
    }
}

/// Whether the suit with index `suit_index` has the colour.
pub fn card_color_matches(suit_index: usize, color: CardColor) -> (r: bool)
    ensures
        r == spec_color_matches(suit_index as int, color),
        suit_index < 4 ==> (r <==> suit_color(CardSuit::spec_from_index(suit_index as int)) == color),
{
    match color {
        CardColor::Red => suit_index == 1 || suit_index == 2,
        CardColor::Black => suit_index == 0 || suit_index == 3,
    }
}

/// The colour of a suit: diamonds and hearts are red, clubs and spades
/// black.
pub open spec fn suit_color(suit: CardSuit) -> CardColor {
    match suit {
        CardSuit::Diamonds | CardSuit::Hearts => CardColor::Red,
        CardSuit::Clubs | CardSuit::Spades => CardColor::Black,
    }
}

/// The colour test on suit positions agrees with the colour of each suit.
pub proof fn lemma_color_matches_suit_color(suit: CardSuit, color: CardColor)
    ensures
        spec_color_matches(suit.spec_index(), color) <==> suit_color(suit) == color,
{
}

/// Cards of the colour among the first `m` exact cards.
pub open spec fn color_count_to(card_counts: Seq<u16>, color: CardColor, m: int) -> int {
    sum_to(|k: int| if spec_color_matches(k / 13, color) { card_counts[k] as int } else { 0 }, m)
}

/// Probability that one named side opens with two cards of the colour.
pub open spec fn spec_color_probability(card_counts: Seq<u16>, n: int, color: CardColor) -> ProbabilityRatio {
    spec_ratio(f2(color_count_to(card_counts, color, 52)), spec_ordered2(n))
}

/// Probability that one named side opens with two cards of the colour.
pub fn color_probability(card_counts: &[u16], total_cards: u16, color: CardColor) -> (r: ProbabilityRatio)
    requires
        card_counts@.len() == 52,
    ensures
        r == spec_color_probability(card_counts@, total_cards as int, color),
{
    let mut color_count: u128 = 0;
    let mut k: usize = 0;
    while k < 52
        invariant
            k <= 52,
            card_counts@.len() == 52,
            color_count == color_count_to(card_counts@, color, k as int),
            color_count <= k * 0xffff,
        decreases 52 - k,
    {
        if card_color_matches(k / 13, color) {
            color_count = color_count + card_counts[k] as u128;
        }
        k = k + 1;
    }
    let numerator: u128 = if color_count == 0 {
        assert(f2(color_count as int) == 0) by (nonlinear_arith)
            requires
                color_count == 0,
        ;
        0
    } else {
        mul_bounded(color_count, color_count - 1, 52 * 0xffff, 52 * 0xffff)
    };
    assert(numerator == f2(color_count_to(card_counts@, color, 52)));
    ProbabilityRatio::new(numerator, ordered2(total_cards))
}

/// The numerator of a colour probability is the number of ordered pairs of
/// cards whose suit has that colour: for red, the diamond and heart cards.
pub proof fn lemma_color_numerator_counts_suits(card_counts: Seq<u16>, n: int, color: CardColor)
    requires
        card_counts.len() == 52,
        spec_ordered2(n) != 0,
    ensures
        spec_color_probability(card_counts, n, color).numerator == f2(
            sum_to(
                |k: int|
                    if suit_color(CardSuit::spec_from_index(k / 13)) == color {
                        card_counts[k] as int
                    } else {
                        0
                    },
                52,
            ),
        ),
{
    let f = |k: int| if spec_color_matches(k / 13, color) { card_counts[k] as int } else { 0 };
    let g = |k: int|
        if suit_color(CardSuit::spec_from_index(k / 13)) == color {
            card_counts[k] as int
        } else {
            0
        };
    assert forall|k: int| 0 <= k < 52 implies #[trigger] f(k) == g(k) by {
        lemma_color_matches_suit_color(CardSuit::spec_from_index(k / 13), color);
    }
    lemma_sum_ext(f, g, 52);
    lemma_sum_bounds(f, 52, 0xffff);
    let x = color_count_to(card_counts, color, 52);
    assert(0 <= f2(x) <= u128::MAX) by (nonlinear_arith)
        requires
            0 <= x <= 52 * 0xffff,
    {
        if x >= 1 {
            assert(x * (x - 1) <= x * (52 * 0xffff));
            assert(x * (52 * 0xffff) <= (52 * 0xffff) * (52 * 0xffff));
        }
    }
}

impl Fortune4PairStats {
    /// The ratio of one fortune-4 variant.
    pub fn probability(self, variant: Fortune4PairVariant) -> (r: ProbabilityRatio)
        ensures
            r == self.spec_probability(variant),
    {
        match variant {
            Fortune4PairVariant::Fortune30 => self.fortune30,
            Fortune4PairVariant::Fortune15 => self.fortune15,
            Fortune4PairVariant::Fortune12 => self.fortune12,
            Fortune4PairVariant::Fortune9 => self.fortune9,
        }
    }

    pub open spec fn spec_probability(self, variant: Fortune4PairVariant) -> ProbabilityRatio {
        match variant {
            Fortune4PairVariant::Fortune30 => self.fortune30,
            Fortune4PairVariant::Fortune15 => self.fortune15,
            Fortune4PairVariant::Fortune12 => self.fortune12,
            Fortune4PairVariant::Fortune9 => self.fortune9,
        }
    }
}

impl TigerPairStats {
    /// The ratio of one tiger-pair variant.
    pub fn probability(self, variant: TigerPairVariant) -> (r: ProbabilityRatio)
        ensures
            r == self.spec_probability(variant),
    {
        match variant {
            TigerPairVariant::Perfect => self.perfect,
            TigerPairVariant::Both => self.both,
            TigerPairVariant::Single => self.single,
        }
    }

    pub open spec fn spec_probability(self, variant: TigerPairVariant) -> ProbabilityRatio {
        match variant {
            TigerPairVariant::Perfect => self.perfect,
            TigerPairVariant::Both => self.both,
            TigerPairVariant::Single => self.single,
        }
    }
}

/// Every exact probability of the opening cards of a shoe.
#[derive(Clone, Copy, Debug, PartialEq, Eq, Structural)]
pub struct OpeningTwoStats {
    pub player_pair: ProbabilityRatio,
    pub banker_pair: ProbabilityRatio,
    pub any_pair: ProbabilityRatio,
    pub perfect_pair: PerfectPairStats,
    pub player_red: ProbabilityRatio,
    pub banker_red: ProbabilityRatio,
    pub player_black: ProbabilityRatio,
    pub banker_black: ProbabilityRatio,
    pub monkey: MonkeyStats,
    pub tiger_pair: TigerPairStats,
    pub player_fortune4_pair: Fortune4PairStats,
    pub banker_fortune4_pair: Fortune4PairStats,
}

/// The opening-card probabilities of the shoe `c`.
pub open spec fn spec_opening_two_stats(c: ShoeCounts) -> OpeningTwoStats {
    let n = c.total as int;
    let pair = spec_same_rank_pair(c.rank@, n);
    let red = spec_color_probability(c.card@, n, CardColor::Red);
    let black = spec_color_probability(c.card@, n, CardColor::Black);
    let fortune = spec_fortune4_pair_stats(c.card@, n);
    OpeningTwoStats {
        player_pair: pair,
        banker_pair: pair,
        any_pair: spec_any_pair(c.rank@, n),
        perfect_pair: spec_perfect_pair_stats(c.card@, n),
        player_red: red,
        banker_red: red,
        player_black: black,
        banker_black: black,
        monkey: spec_monkey_stats(c.rank@, n),
        tiger_pair: spec_tiger_pair_stats(c.rank@, c.card@, n),
        player_fortune4_pair: fortune,
        banker_fortune4_pair: fortune,
    }
}

/// The ratio that an opening-card bet reads from the statistics, if the
/// bet is one of them (variant rows need their own variant).
pub open spec fn spec_opening_probability_for(s: OpeningTwoStats, d: BetDefinition) -> Option<ProbabilityRatio> {
    match d.id {
        BetId::AnyPair => Some(s.any_pair),
        BetId::PlayerPair => Some(s.player_pair),
        BetId::BankerPair => Some(s.banker_pair),
        BetId::PerfectPair => Some(s.perfect_pair.any),
        BetId::PlayerRed => Some(s.player_red),
        BetId::BankerRed => Some(s.banker_red),
        BetId::PlayerBlack => Some(s.player_black),
        BetId::BankerBlack => Some(s.banker_black),
        BetId::Monkey => Some(
            if s.monkey.monkey.denominator != s.monkey.no_monkey.denominator {
                spec_ratio(0, 0)
            } else {
                spec_ratio(
                    s.monkey.monkey.numerator + s.monkey.no_monkey.numerator,
                    s.monkey.monkey.denominator as int,
                )
            },
        ),
        BetId::TigerPairPerfect | BetId::TigerPairBoth | BetId::TigerPairSingle => match d.variant {
            Some(BetVariant::TigerPair(v)) => Some(s.tiger_pair.spec_probability(v)),
            _ => None,
        },
        BetId::BankerFortune4PairFortune30 | BetId::BankerFortune4PairFortune15
        | BetId::BankerFortune4PairFortune12 | BetId::BankerFortune4PairFortune9 => match d.variant {
            Some(BetVariant::Fortune4Pair(v)) => Some(s.banker_fortune4_pair.spec_probability(v)),
            _ => None,
        },
        BetId::PlayerFortune4PairFortune30 | BetId::PlayerFortune4PairFortune15
        | BetId::PlayerFortune4PairFortune12 | BetId::PlayerFortune4PairFortune9 => match d.variant {
            Some(BetVariant::Fortune4Pair(v)) => Some(s.player_fortune4_pair.spec_probability(v)),
            _ => None,
        },
        _ => None,
    }
}

proof fn lemma_f4_small(c: int)
    requires
        0 <= c <= 0xfffff,
    ensures
        0 <= f4(c) <= 0xfffff * 0xfffff * 0xfffff * 0xfffff,
{
    assert(0 <= f4(c) <= 0xfffff * 0xfffff * 0xfffff * 0xfffff) by (nonlinear_arith)
        requires
            0 <= c <= 0xfffff,
            f4(c) == c * (c - 1) * (c - 2) * (c - 3),
    {
        if c >= 3 {
            assert(0 <= c * (c - 1) <= 0xfffff * 0xfffff);
            assert(0 <= (c - 2) * (c - 3) <= 0xfffff * 0xfffff);
        } else {
            assert(c == 0 || c == 1 || c == 2);
        }
    }
}

impl OpeningTwoStats {
    /// The tiger-pair ratios share one denominator, and so do the fortune-4
    /// ratios of each side.
    pub open spec fn families_share_denominators(self) -> bool {
        &&& self.tiger_pair.perfect.denominator == self.tiger_pair.both.denominator
        &&& self.tiger_pair.perfect.denominator == self.tiger_pair.single.denominator
        &&& self.player_fortune4_pair.fortune30.denominator == self.player_fortune4_pair.fortune15.denominator
        &&& self.player_fortune4_pair.fortune30.denominator == self.player_fortune4_pair.fortune12.denominator
        &&& self.player_fortune4_pair.fortune30.denominator == self.player_fortune4_pair.fortune9.denominator
        &&& self.banker_fortune4_pair.fortune30.denominator == self.banker_fortune4_pair.fortune15.denominator
        &&& self.banker_fortune4_pair.fortune30.denominator == self.banker_fortune4_pair.fortune12.denominator
        &&& self.banker_fortune4_pair.fortune30.denominator == self.banker_fortune4_pair.fortune9.denominator
    }
}

/// The opening-card ratios of every shoe count each bet family over one
/// denominator: the ordered four-card deals for tiger pairs, the ordered
/// two-card deals for fortune-4 pairs.
pub proof fn lemma_opening_families_share_denominators(c: ShoeCounts)
    ensures
        spec_opening_two_stats(c).families_share_denominators(),
{
}

impl OpeningTwoStats {
    /// The monkey numerators can be added, and the tiger-pair and fortune-4
    /// numerators lie under the opening bound.
    pub open spec fn is_bounded(self) -> bool {
        &&& self.monkey.monkey.numerator + self.monkey.no_monkey.numerator <= u128::MAX
        &&& self.tiger_pair.perfect.numerator <= OPENING_NUMERATOR_BOUND
        &&& self.tiger_pair.both.numerator <= OPENING_NUMERATOR_BOUND
        &&& self.tiger_pair.single.numerator <= OPENING_NUMERATOR_BOUND
        &&& self.player_fortune4_pair.fortune30.numerator <= OPENING_NUMERATOR_BOUND
        &&& self.player_fortune4_pair.fortune15.numerator <= OPENING_NUMERATOR_BOUND
        &&& self.player_fortune4_pair.fortune12.numerator <= OPENING_NUMERATOR_BOUND
        &&& self.player_fortune4_pair.fortune9.numerator <= OPENING_NUMERATOR_BOUND
        &&& self.banker_fortune4_pair.fortune30.numerator <= OPENING_NUMERATOR_BOUND
        &&& self.banker_fortune4_pair.fortune15.numerator <= OPENING_NUMERATOR_BOUND
        &&& self.banker_fortune4_pair.fortune12.numerator <= OPENING_NUMERATOR_BOUND
        &&& self.banker_fortune4_pair.fortune9.numerator <= OPENING_NUMERATOR_BOUND
    }

    /// Computes every opening-card probability of a shoe.
    pub fn from_counts(counts: &ShoeCounts) -> (r: OpeningTwoStats)
        requires
            counts.wf(),
        ensures
            r == spec_opening_two_stats(*counts),
            r.is_bounded(),
    {
        proof {
            lemma_rank_total(*counts);
            let rk = counts.rank@;
            assert forall|i: int| 0 <= i < 13 implies 0 <= #[trigger] rk[i] <= 0xffff by {}
            lemma_sum_bounds(|i: int| rk[i] as int, 10, 0xffff);
            lemma_f4_small(court_count(rk));
            lemma_f4_small(count_to(rk, 10));
        }
        let pair = same_rank_pair_probability(&counts.rank, counts.total);
        let any_pair = any_pair_probability(&counts.rank, counts.total);
        let perfect_pair = perfect_pair_stats(&counts.card, counts.total);
        let red = color_probability(&counts.card, counts.total, CardColor::Red);
        let black = color_probability(&counts.card, counts.total, CardColor::Black);
        let monkey = monkey_stats(&counts.rank, counts.total);
        let tiger_pair = tiger_pair_stats(&counts.rank, &counts.card, counts.total);
        let fortune4_pair = fortune4_pair_stats(&counts.card, counts.total);
        OpeningTwoStats {
            player_pair: pair,
            banker_pair: pair,
            any_pair,
            perfect_pair,
            player_red: red,
            banker_red: red,
            player_black: black,
            banker_black: black,
            monkey,
            tiger_pair,
            player_fortune4_pair: fortune4_pair,
            banker_fortune4_pair: fortune4_pair,
        }
    }

    /// The ratio an opening-card bet reads from the statistics; `None` for
    /// a bet that is not one of them, or a variant row without its variant.
    pub fn probability_for(self, definition: &BetDefinition) -> (r: Option<ProbabilityRatio>)
        requires
            self.is_bounded(),
        ensures
            r == spec_opening_probability_for(self, *definition),
    {
        match definition.id {
            BetId::AnyPair => Some(self.any_pair),
            BetId::PlayerPair => Some(self.player_pair),
            BetId::BankerPair => Some(self.banker_pair),
            BetId::PerfectPair => Some(self.perfect_pair.any),
            BetId::PlayerRed => Some(self.player_red),
            BetId::BankerRed => Some(self.banker_red),
            BetId::PlayerBlack => Some(self.player_black),
            BetId::BankerBlack => Some(self.banker_black),
            BetId::Monkey => Some(self.monkey.probability()),
            BetId::TigerPairPerfect | BetId::TigerPairBoth | BetId::TigerPairSingle => match definition.variant {
                Some(BetVariant::TigerPair(variant)) => Some(self.tiger_pair.probability(variant)),
                _ => None,
            },
            BetId::BankerFortune4PairFortune30 | BetId::BankerFortune4PairFortune15
            | BetId::BankerFortune4PairFortune12 | BetId::BankerFortune4PairFortune9 => match definition.variant {
                Some(BetVariant::Fortune4Pair(variant)) => Some(self.banker_fortune4_pair.probability(variant)),
                _ => None,
            },
            BetId::PlayerFortune4PairFortune30 | BetId::PlayerFortune4PairFortune15
            | BetId::PlayerFortune4PairFortune12 | BetId::PlayerFortune4PairFortune9 => match definition.variant {
                Some(BetVariant::Fortune4Pair(variant)) => Some(self.player_fortune4_pair.probability(variant)),
                _ => None,
            },
            _ => None,
        }
    }
}

/// Perfect-pair buckets are mutually exclusive and cover the bet: the
/// single-side and both-sides numerators add up to the any-side numerator,
/// over the same denominator.
pub proof fn lemma_perfect_pair_buckets(card_counts: Seq<u16>, n: int)
    requires
        card_counts.len() <= 52,
        card_count(card_counts) == n,
        n >= 4,
    ensures
        spec_perfect_pair_stats(card_counts, n).any.numerator == spec_perfect_pair_stats(card_counts, n).single.numerator
            + spec_perfect_pair_stats(card_counts, n).both.numerator,
        spec_perfect_pair_stats(card_counts, n).any.denominator == spec_perfect_pair_stats(card_counts, n).single.denominator,
        spec_perfect_pair_stats(card_counts, n).any.denominator == spec_perfect_pair_stats(card_counts, n).both.denominator,
{
    lemma_one_side_covers_both(card_counts, n);
    assert(spec_ordered4(n) > 0) by (nonlinear_arith)
        requires
            n >= 4,
    ;
    let one = one_side_scaled(pair_orders(card_counts), n);
    let both = both_pair_orders_of(card_counts);
    lemma_pairs_nonneg(card_counts, card_counts.len() as int);
    assert(one <= u128::MAX && both <= u128::MAX) by {
        lemma_pairs_superadditive(card_counts, card_counts.len() as int);
        let p = pair_orders(card_counts);
        assert(p <= f2(n));
        assert(one <= 2 * (n * n) * (n * n)) by (nonlinear_arith)
            requires
                0 <= p <= n * (n - 1),
                one == 2 * p * (n - 2) * (n - 3),
                n >= 4,
        ;
        lemma_count_bound(card_counts);
        assert(n <= 52 * 0xffff) by (nonlinear_arith)
            requires
                n <= card_counts.len() * 0xffff,
                card_counts.len() <= 52,
        ;
        let nn = n * n;
        assert(0 <= nn <= (52 * 0xffff) * (52 * 0xffff)) by (nonlinear_arith)
            requires
                0 <= n <= 52 * 0xffff,
                nn == n * n,
        ;
        assert(2 * nn * nn <= u128::MAX) by (nonlinear_arith)
            requires
                0 <= nn <= (52 * 0xffff) * (52 * 0xffff),
        ;
    }
}

proof fn lemma_count_bound(s: Seq<u16>)
    ensures
        0 <= card_count(s) <= s.len() * 0xffff,
{
    let f = |i: int| s[i] as int;
    assert forall|i: int| 0 <= i < s.len() implies 0 <= #[trigger] f(i) <= 0xffff by {}
    lemma_sum_bounds(f, s.len() as int, 0xffff);
}

/// A named side's same-rank pair probability is at most one: the ordered
/// same-rank pairs are among all ordered pairs.
pub proof fn lemma_same_rank_pair_at_most_one(rank_counts: Seq<u16>, n: int)
    requires
        rank_counts.len() <= 52,
        card_count(rank_counts) == n,
        n >= 2,
    ensures
        spec_same_rank_pair(rank_counts, n).numerator <= spec_same_rank_pair(rank_counts, n).denominator,
{
    lemma_pairs_superadditive(rank_counts, rank_counts.len() as int);
    lemma_pairs_nonneg(rank_counts, rank_counts.len() as int);
    assert(spec_ordered2(n) > 0) by (nonlinear_arith)
        requires
            n >= 2,
    ;
    lemma_count_bound(rank_counts);
    assert(spec_ordered2(n) <= u128::MAX) by (nonlinear_arith)
        requires
            2 <= n <= rank_counts.len() * 0xffff,
            rank_counts.len() <= 52,
    ;
}

/// `c^2`, `c^3` and `c^4` summed over the first `m` entries.
spec fn sq_to(s: Seq<u16>, m: int) -> int {
    sum_to(|i: int| (s[i] as int) * (s[i] as int), m)
}

spec fn cube_to(s: Seq<u16>, m: int) -> int {
    sum_to(|i: int| (s[i] as int) * (s[i] as int) * (s[i] as int), m)
}

spec fn quart_to(s: Seq<u16>, m: int) -> int {
    sum_to(|i: int| (s[i] as int) * (s[i] as int) * (s[i] as int) * (s[i] as int), m)
}

/// A polynomial in the entry, summed over the entries, is the same
/// combination of the power sums.
proof fn lemma_poly_sum(s: Seq<u16>, m: int, a1: int, a2: int, a3: int, a4: int)
    requires
        0 <= m <= s.len(),
    ensures
        sum_to(
            |i: int|
                a1 * (s[i] as int) + a2 * ((s[i] as int) * (s[i] as int)) + a3 * ((s[i] as int) * (s[i] as int) * (
                s[i] as int)) + a4 * ((s[i] as int) * (s[i] as int) * (s[i] as int) * (s[i] as int)),
            m,
        ) == a1 * count_to(s, m) + a2 * sq_to(s, m) + a3 * cube_to(s, m) + a4 * quart_to(s, m),
    decreases m,
{
    if m > 0 {
        lemma_poly_sum(s, m - 1, a1, a2, a3, a4);
        let c = s[m - 1] as int;
        let (x1, x2, x3, x4) = (count_to(s, m - 1), sq_to(s, m - 1), cube_to(s, m - 1), quart_to(s, m - 1));
        lemma_mul_is_distributive_add(a1, x1, c);
        lemma_mul_is_distributive_add(a2, x2, c * c);
        lemma_mul_is_distributive_add(a3, x3, c * c * c);
        lemma_mul_is_distributive_add(a4, x4, c * c * c * c);
    }
}

/// The pair, squared-pair and four-tuple sums as combinations of the power
/// sums.
proof fn lemma_pair_sums_as_powers(s: Seq<u16>)
    ensures
        pairs_to(s, s.len() as int) == sq_to(s, s.len() as int) - count_to(s, s.len() as int),
        squares_to(s, s.len() as int) == quart_to(s, s.len() as int) - 2 * cube_to(s, s.len() as int) + sq_to(
            s,
            s.len() as int,
        ),
        fours_to(s, s.len() as int) == quart_to(s, s.len() as int) - 6 * cube_to(s, s.len() as int) + 11 * sq_to(
            s,
            s.len() as int,
        ) - 6 * count_to(s, s.len() as int),
{
    let m = s.len() as int;
    let poly = |a1: int, a2: int, a3: int, a4: int|
        |i: int|
            a1 * (s[i] as int) + a2 * ((s[i] as int) * (s[i] as int)) + a3 * ((s[i] as int) * (s[i] as int) * (
            s[i] as int)) + a4 * ((s[i] as int) * (s[i] as int) * (s[i] as int) * (s[i] as int));
    lemma_poly_sum(s, m, -1, 1, 0, 0);
    lemma_poly_sum(s, m, 0, 1, -2, 1);
    lemma_poly_sum(s, m, -6, 11, -6, 1);
    assert forall|i: int| 0 <= i < m implies #[trigger] f2(s[i] as int) == (poly(-1, 1, 0, 0))(i) by {
        let c = s[i] as int;
        assert(c * (c - 1) == -1 * c + 1 * (c * c) + 0 * (c * c * c) + 0 * (c * c * c * c)) by (nonlinear_arith);
    }
    assert forall|i: int| 0 <= i < m implies #[trigger] (f2(s[i] as int) * f2(s[i] as int)) == (poly(0, 1, -2, 1))(
        i) by {
        let c = s[i] as int;
        assert(c * (c - 1) * (c * (c - 1)) == 0 * c + 1 * (c * c) + -2 * (c * c * c) + 1 * (c * c * c * c)) by (
        nonlinear_arith);
    }
    assert forall|i: int| 0 <= i < m implies #[trigger] f4(s[i] as int) == (poly(-6, 11, -6, 1))(i) by {
        let c = s[i] as int;
        assert(c * (c - 1) * (c - 2) * (c - 3) == -6 * c + 11 * (c * c) + -6 * (c * c * c) + 1 * (c * c * c * c))
            by (nonlinear_arith);
    }
    lemma_sum_ext(|i: int| f2(s[i] as int), poly(-1, 1, 0, 0), m);
    lemma_sum_ext(|i: int| f2(s[i] as int) * f2(s[i] as int), poly(0, 1, -2, 1), m);
    lemma_sum_ext(|i: int| f4(s[i] as int), poly(-6, 11, -6, 1), m);
}

/// One entry's share of the deals where neither side opens with a pair,
/// with the entry's count `c`, the other entries' count `rest_n` and their
/// ordered pairs `rest_p`: nonnegative for a present entry.
proof fn lemma_no_pair_share(c: int, rest_n: int, rest_p: int)
    requires
        c >= 1,
        rest_n >= 0,
        0 <= rest_p <= f2(rest_n),
    ensures
        rest_n * rest_n * rest_n - 5 * (rest_n * rest_n) + 4 * rest_n - (rest_n - 2) * rest_p + 2 * c * (rest_n * (
        rest_n - 1)) >= 0,
{
    let x = rest_n;
    let q = rest_p;
    if x >= 2 {
        assert(x * x * x - 5 * (x * x) + 4 * x - (x - 2) * q + 2 * c * (x * (x - 1)) >= 0) by (nonlinear_arith)
            requires
                x >= 2,
                c >= 1,
                0 <= q <= x * (x - 1),
        {
            assert((x - 2) * q <= (x - 2) * (x * (x - 1)));
            assert(x * x * x - 5 * (x * x) + 4 * x - (x - 2) * (x * (x - 1)) + 2 * c * (x * (x - 1)) == 2 * (x * (x
                - 1)) * (c - 1));
            assert(2 * (x * (x - 1)) * (c - 1) >= 0);
        }
    } else {
        assert(x * (x - 1) == 0) by (nonlinear_arith)
            requires
                0 <= x < 2,
        ;
        assert(q == 0);
        assert(x * x * x - 5 * (x * x) + 4 * x - (x - 2) * q + 2 * c * (x * (x - 1)) == 0) by (nonlinear_arith)
            requires
                0 <= x < 2,
                q == 0,
        ;
    }
}

/// An entry's share in terms of the other entries: with `n` cards of which
/// `c` in the entry, `s2` the sum of squared counts and `p` the ordered
/// pairs, the share is that of `lemma_no_pair_share`.
proof fn lemma_share_in_rest(n: int, c: int, s2: int, p: int, a: int, inner: int)
    requires
        p == s2 - n,
        a == n * n - s2 + 2 - 4 * n,
        inner == (n - c) * (a + 2 * c) + 2 * (s2 - c * c),
    ensures
        inner == (n - c) * (n - c) * (n - c) - 5 * ((n - c) * (n - c)) + 4 * (n - c) - ((n - c) - 2) * (p - c * (c
            - 1)) + 2 * c * ((n - c) * ((n - c) - 1)),
{
    let x = n - c;
    let q = p - c * (c - 1);
    assert(s2 == q + c * c + x) by (nonlinear_arith)
        requires
            p == s2 - n,
            q == p - c * (c - 1),
            x == n - c,
    ;
    assert(a == x * x + 2 * x * c - q - 5 * x + 2 - 4 * c) by (nonlinear_arith)
        requires
            a == n * n - s2 + 2 - 4 * n,
            s2 == q + c * c + x,
            n == x + c,
    ;
    assert(inner == x * (a + 2 * c) + 2 * (q + x)) by (nonlinear_arith)
        requires
            inner == (n - c) * (a + 2 * c) + 2 * (s2 - c * c),
            x == n - c,
            s2 == q + c * c + x,
    ;
    assert(x * (a + 2 * c) + 2 * (q + x) == x * x * x - 5 * (x * x) + 4 * x - (x - 2) * q + 2 * c * (x * (x - 1)))
        by (nonlinear_arith)
        requires
            a == x * x + 2 * x * c - q - 5 * x + 2 - 4 * c,
    ;
}

/// The count of deals without a pair on either side, as a polynomial in the
/// card count `n`, the ordered non-pairs `m` and the sum of cubed counts.
proof fn lemma_no_pair_identity(n: int, m: int, s3: int, p: int, both: int)
    requires
        p == n * n - m - n,
        both == p * p - 4 * s3 + 10 * (n * n - m) - 6 * n,
    ensures
        n * (n - 1) * ((n - 2) * (n - 3)) - (2 * p * (n - 2) * (n - 3) - both) == (m + 2 - 4 * n) * m + 4 * n * (n
            * n - m) - 4 * s3,
{
    let u = n * n - n;
    let k = (n - 2) * (n - 3);
    assert(k == u - 4 * n + 6) by (nonlinear_arith)
        requires
            u == n * n - n,
            k == (n - 2) * (n - 3),
    ;
    assert(n * (n - 1) * ((n - 2) * (n - 3)) == u * k) by (nonlinear_arith)
        requires
            u == n * n - n,
            k == (n - 2) * (n - 3),
    ;
    assert(2 * p * (n - 2) * (n - 3) == 2 * p * k) by (nonlinear_arith)
        requires
            k == (n - 2) * (n - 3),
    ;
    assert(p == u - m);
    assert(u * k - 2 * (u - m) * k + (u - m) * (u - m) == m * m + m * (2 * k - 2 * u) + u * (u - k)) by (
    nonlinear_arith);
    assert(m * (2 * k - 2 * u) - 10 * m == m * (2 - 8 * n)) by (nonlinear_arith)
        requires
            k == u - 4 * n + 6,
    ;
    assert(u * (u - k) == (n * n - n) * (4 * n - 6)) by (nonlinear_arith)
        requires
            k == u - 4 * n + 6,
            u == n * n - n,
    ;
    assert((n * n - n) * (4 * n - 6) + 10 * (n * n) - 6 * n == 4 * n * (n * n)) by (nonlinear_arith);
    assert((m + 2 - 4 * n) * m + 4 * n * (n * n - m) == m * m + m * (2 - 8 * n) + 4 * n * (n * n)) by (
    nonlinear_arith);
}

/// At most every ordered four-card deal has a pair on at least one side:
/// the deals with a pair on one named side, counted for both sides, less
/// those with pairs on both, number at most all ordered four-card deals.
proof fn lemma_pair_on_either_side_bound(s: Seq<u16>)
    ensures
        one_side_scaled(pair_orders(s), card_count(s)) - both_pair_orders_of(s) <= spec_ordered4(card_count(s)),
{
    let m = s.len() as int;
    let n = card_count(s);
    let p = pair_orders(s);
    let s2 = sq_to(s, m);
    let s3 = cube_to(s, m);
    let s4 = quart_to(s, m);
    lemma_pair_sums_as_powers(s);
    let both = both_pair_orders_of(s);
    assert(both == p * p - 4 * s3 + 10 * s2 - 6 * n);
    let big_m = n * n - s2;
    let a = big_m + 2 - 4 * n;
    let a1 = a * n + 2 * s2;
    let a2 = 2 * n - a;
    let g = |i: int|
        a1 * (s[i] as int) + a2 * ((s[i] as int) * (s[i] as int)) + -4 * ((s[i] as int) * (s[i] as int) * (
        s[i] as int)) + 0 * ((s[i] as int) * (s[i] as int) * (s[i] as int) * (s[i] as int));
    lemma_poly_sum(s, m, a1, a2, -4, 0);
    assert(sum_to(g, m) == a1 * n + a2 * s2 + -4 * s3 + 0 * s4);
    assert forall|i: int| 0 <= i < m implies 0 <= #[trigger] g(i) by {
        let c = s[i] as int;
        let rest = s.update(i, 0u16);
        lemma_remove_entry(s, i);
        lemma_pairs_superadditive(rest, m);
        lemma_pairs_nonneg(rest, m);
        let rest_n = n - c;
        let rest_p = p - f2(c);
        assert(rest_n == card_count(rest));
        assert(rest_p == pair_orders(rest));
        lemma_pairs_nonneg(s, m);
        let inner = (n - c) * (a + 2 * c) + 2 * (s2 - c * c);
        assert(g(i) == c * inner) by (nonlinear_arith)
            requires
                g(i) == a1 * c + a2 * (c * c) + -4 * (c * c * c) + 0 * (c * c * c * c),
                a1 == a * n + 2 * s2,
                a2 == 2 * n - a,
                inner == (n - c) * (a + 2 * c) + 2 * (s2 - c * c),
        ;
        if c >= 1 {
            lemma_share_in_rest(n, c, s2, p, a, inner);
            assert(0 <= rest_p <= f2(rest_n));
            lemma_no_pair_share(c, rest_n, rest_p);
            assert(inner >= 0);
            assert(0 <= c * inner) by (nonlinear_arith)
                requires
                    c >= 1,
                    inner >= 0,
            ;
        } else {
            assert(c * inner == 0) by (nonlinear_arith)
                requires
                    c == 0,
            ;
        }
    }
    let zero = |i: int| 0int;
    lemma_sum_zero(zero, m);
    lemma_sum_le(zero, g, m);
    lemma_no_pair_identity(n, big_m, s3, p, both);
    assert(a1 * n + a2 * s2 + -4 * s3 == a * big_m + 4 * n * s2 - 4 * s3) by (nonlinear_arith)
        requires
            a1 == a * n + 2 * s2,
            a2 == 2 * n - a,
            big_m == n * n - s2,
    ;
    assert(spec_ordered4(n) == n * (n - 1) * ((n - 2) * (n - 3))) by (nonlinear_arith);
}

/// The deals with a pair on either side, over all ordered four-card deals,
/// form a ratio within `[0, 1]` whose terms fit the ratio's integers.
proof fn lemma_pair_on_either_side_ratio(s: Seq<u16>, n: int)
    requires
        s.len() <= 52,
        card_count(s) == n,
    ensures
        spec_ordered4(n) == 0 || (0 <= one_side_scaled(pair_orders(s), n) - both_pair_orders_of(s) <= spec_ordered4(n)
            <= u128::MAX),
{
    lemma_count_bound(s);
    if n < 4 {
        assert(spec_ordered4(n) == 0) by (nonlinear_arith)
            requires
                0 <= n < 4,
        ;
    } else {
        lemma_one_side_covers_both(s, n);
        lemma_pair_on_either_side_bound(s);
        assert(n <= 52 * 0xffff) by (nonlinear_arith)
            requires
                n <= s.len() * 0xffff,
                s.len() <= 52,
        ;
        assert(spec_ordered4(n) <= u128::MAX) by (nonlinear_arith)
            requires
                4 <= n <= 52 * 0xffff,
        {
            assert(n * (n - 1) <= (52 * 0xffff) * (52 * 0xffff));
            assert((n - 2) * (n - 3) <= (52 * 0xffff) * (52 * 0xffff));
            assert(n * (n - 1) * (n - 2) * (n - 3) == (n * (n - 1)) * ((n - 2) * (n - 3)));
        }
    }
}

/// The probability that at least one side opens with a same-rank pair is at
/// most one.
pub proof fn lemma_any_pair_at_most_one(rank_counts: Seq<u16>, n: int)
    requires
        rank_counts.len() <= 52,
        card_count(rank_counts) == n,
    ensures
        spec_any_pair(rank_counts, n).numerator <= spec_any_pair(rank_counts, n).denominator,
{
    lemma_pair_on_either_side_ratio(rank_counts, n);
}

/// The perfect-pair probability (a perfect pair on at least one side) is
/// at most one; with `lemma_perfect_pair_buckets`, so are its single-side
/// and both-sides buckets.
pub proof fn lemma_perfect_pair_at_most_one(card_counts: Seq<u16>, n: int)
    requires
        card_counts.len() <= 52,
        card_count(card_counts) == n,
    ensures
        spec_perfect_pair_stats(card_counts, n).any.numerator <= spec_perfect_pair_stats(card_counts, n).any.denominator,
{
    lemma_pair_on_either_side_ratio(card_counts, n);
}

/// Ordered two-card deals from `n` cards fit the ratio's integers.
proof fn lemma_ordered2_fits(s: Seq<u16>, n: int)
    requires
        s.len() <= 52,
        card_count(s) == n,
    ensures
        0 <= spec_ordered2(n) <= u128::MAX,
{
    lemma_count_bound(s);
    assert(0 <= spec_ordered2(n) <= u128::MAX) by (nonlinear_arith)
        requires
            0 <= n <= s.len() * 0xffff,
            s.len() <= 52,
    {
        assert(n <= 52 * 0xffff);
    }
}

/// The probability that one named side opens with two cards of a colour is
/// at most one.
pub proof fn lemma_color_at_most_one(card_counts: Seq<u16>, n: int, color: CardColor)
    requires
        card_counts.len() == 52,
        card_count(card_counts) == n,
    ensures
        spec_color_probability(card_counts, n, color).numerator <= spec_color_probability(
            card_counts,
            n,
            color,
        ).denominator,
{
    let f = |k: int| if spec_color_matches(k / 13, color) { card_counts[k] as int } else { 0 };
    let g = |k: int| card_counts[k] as int;
    let zero = |k: int| 0int;
    lemma_sum_le(f, g, 52);
    lemma_sum_zero(zero, 52);
    lemma_sum_le(zero, f, 52);
    let x = color_count_to(card_counts, color, 52);
    assert(0 <= x <= n);
    lemma_ordered2_fits(card_counts, n);
    assert(0 <= f2(x) <= f2(n)) by (nonlinear_arith)
        requires
            0 <= x <= n,
    {
        if x >= 1 {
            assert(x * (x - 1) <= n * (x - 1));
            assert(n * (x - 1) <= n * (n - 1));
        }
    }
}

/// The fortune-4 classes split every exact card: their perfect pairs add up
/// to all the perfect pairs.
proof fn lemma_fortune_classes_cover(card_counts: Seq<u16>)
    requires
        card_counts.len() == 52,
    ensures
        fortune_pairs(card_counts, 30, 52) + fortune_pairs(card_counts, 15, 52) + fortune_pairs(card_counts, 12, 52)
            + fortune_pairs(card_counts, 9, 52) == pair_orders(card_counts),
{
    let f = |c: int| |k: int| if fortune_class(k) == c { f2(card_counts[k] as int) } else { 0 };
    let h1 = |k: int| f(30)(k) + f(15)(k);
    let h2 = |k: int| h1(k) + f(12)(k);
    let h3 = |k: int| h2(k) + f(9)(k);
    lemma_sum_add(f(30), f(15), h1, 52);
    lemma_sum_add(h1, f(12), h2, 52);
    lemma_sum_add(h2, f(9), h3, 52);
    assert forall|k: int| 0 <= k < 52 implies #[trigger] h3(k) == f2(card_counts[k] as int) by {}
    lemma_sum_ext(h3, |k: int| f2(card_counts[k] as int), 52);
}

/// The fortune-4 probabilities of one named side are mutually exclusive
/// and share one denominator: their numerators add up to at most it.
pub proof fn lemma_fortune4_pairs_at_most_one(card_counts: Seq<u16>, n: int)
    requires
        card_counts.len() == 52,
        card_count(card_counts) == n,
    ensures
        ({
            let st = spec_fortune4_pair_stats(card_counts, n);
            st.fortune30.numerator + st.fortune15.numerator + st.fortune12.numerator + st.fortune9.numerator
                <= st.fortune30.denominator
        }),
{
    lemma_ordered2_fits(card_counts, n);
    if spec_ordered2(n) != 0 {
        lemma_fortune_classes_cover(card_counts);
        let single = |k: int| if fortune_class(k) == 30 { f2(card_counts[k] as int) } else { 0 };
        assert forall|k: int| 0 <= k < 52 && k != 16 implies #[trigger] single(k) == 0 by {}
        lemma_sum_single(single, 52, 16);
        lemma_pairs_superadditive(card_counts, 52);
        let nonneg = |c: int| |k: int| if fortune_class(k) == c { f2(card_counts[k] as int) } else { 0 };
        let zero = |k: int| 0int;
        lemma_sum_zero(zero, 52);
        assert forall|c: int, k: int| 0 <= k < 52 implies 0 <= #[trigger] (nonneg(c))(k) by {
            lemma_f2_bounds(card_counts[k] as int);
        }
        lemma_sum_le(zero, nonneg(15), 52);
        lemma_sum_le(zero, nonneg(12), 52);
        lemma_sum_le(zero, nonneg(9), 52);
        lemma_f2_bounds(card_counts[16] as int);
    }
}

/// An ordered four-tuple from two disjoint groups drawn from one group
/// alone is an ordered four-tuple of the union.
#[verifier::spinoff_prover]
proof fn lemma_f4_superadditive(a: int, b: int)
    requires
        a >= 0,
        b >= 0,
    ensures
        f4(a) + f4(b) <= f4(a + b),
{
    if a == 0 || b == 0 {
        assert(f4(0) == 0) by (nonlinear_arith);
    } else if a == 1 || b == 1 {
        let (one, x) = if a == 1 {
            (a, b)
        } else {
            (b, a)
        };
        assert(f4(1) == 0) by (nonlinear_arith);
        assert(f4(x) <= f4(x + 1)) by (nonlinear_arith)
            requires
                x >= 1,
        {
            if x >= 3 {
                assert(x * (x - 1) * (x - 2) * (x - 3) <= (x + 1) * x * (x - 1) * (x - 2));
            } else {
                assert(x * (x - 1) * (x - 2) * (x - 3) == 0);
                assert((x + 1) * x * (x - 1) * (x - 2) == 0);
            }
        }
    } else {
        let t = a + b;
        let u = a * a - 3 * a;
        let v = b * b - 3 * b;
        let c = 2 * a * b;
        let w = t * t - 3 * t;
        assert(w == u + v + c) by (nonlinear_arith)
            requires
                t == a + b,
                u == a * a - 3 * a,
                v == b * b - 3 * b,
                c == 2 * a * b,
                w == t * t - 3 * t,
        ;
        assert(f4(a) == u * (u + 2)) by (nonlinear_arith)
            requires
                u == a * a - 3 * a,
        ;
        assert(f4(b) == v * (v + 2)) by (nonlinear_arith)
            requires
                v == b * b - 3 * b,
        ;
        assert(f4(t) == w * (w + 2)) by (nonlinear_arith)
            requires
                w == t * t - 3 * t,
        ;
        assert(u >= -2 && v >= -2 && c >= 8) by (nonlinear_arith)
            requires
                a >= 2,
                b >= 2,
                u == a * a - 3 * a,
                v == b * b - 3 * b,
                c == 2 * a * b,
        ;
        assert(w * (w + 2) - u * (u + 2) - v * (v + 2) >= 0) by (nonlinear_arith)
            requires
                w == u + v + c,
                u >= -2,
                v >= -2,
                c >= 8,
        {
            let u1 = u + 2;
            let v1 = v + 2;
            assert(w * (w + 2) - u * (u + 2) - v * (v + 2) == c * (c - 6) + 2 * u1 * (c - 2) + 2 * v1 * (c - 2) + 2
                * u1 * v1 + 8);
        }
    }
}

/// Monkey (all court cards) and no monkey (no court card) are mutually
/// exclusive: their numerators add up to at most the shared denominator.
pub proof fn lemma_monkey_at_most_one(rank_counts: Seq<u16>, n: int)
    requires
        rank_counts.len() == 13,
        card_count(rank_counts) == n,
    ensures
        ({
            let st = spec_monkey_stats(rank_counts, n);
            st.monkey.numerator + st.no_monkey.numerator <= st.monkey.denominator
        }),
{
    lemma_pair_on_either_side_ratio(rank_counts, n);
    if spec_ordered4(n) != 0 {
        let court = court_count(rank_counts);
        let plain = count_to(rank_counts, 10);
        assert(count_to(rank_counts, 13) == plain + court) by {
            reveal_with_fuel(sum_to, 4);
        }
        lemma_sum_bounds(|i: int| rank_counts[i] as int, 10, 0xffff);
        lemma_f4_superadditive(court, plain);
        lemma_f4_small(court);
        lemma_f4_small(plain);
    }
}

/// Same-entry ordered four-tuples are among all ordered four-tuples.
proof fn lemma_fours_superadditive(s: Seq<u16>, m: int)
    requires
        0 <= m <= s.len(),
    ensures
        0 <= fours_to(s, m) <= f4(count_to(s, m)),
        0 <= count_to(s, m),
    decreases m,
{
    if m > 0 {
        lemma_fours_superadditive(s, m - 1);
        let c = s[m - 1] as int;
        lemma_f4_small(c);
        lemma_f4_superadditive(count_to(s, m - 1), c);
        assert(count_to(s, m) == count_to(s, m - 1) + c);
        assert(fours_to(s, m) == fours_to(s, m - 1) + f4(c));
    } else {
        assert(f4(0) == 0) by (nonlinear_arith);
    }
}

/// Each tiger-pair variant on its own has probability at most one (the
/// variants overlap: four identical cards also give both sides a pair).
pub proof fn lemma_tiger_pair_variants_at_most_one(rank_counts: Seq<u16>, card_counts: Seq<u16>, n: int)
    requires
        rank_counts.len() <= 52,
        card_counts.len() <= 52,
        card_count(rank_counts) == n,
        card_count(card_counts) == n,
    ensures
        ({
            let st = spec_tiger_pair_stats(rank_counts, card_counts, n);
            &&& st.perfect.numerator <= st.perfect.denominator
            &&& st.both.numerator <= st.both.denominator
            &&& st.single.numerator <= st.single.denominator
        }),
{
    lemma_pair_on_either_side_ratio(rank_counts, n);
    if spec_ordered4(n) != 0 {
        lemma_count_bound(rank_counts);
        if n < 4 {
            assert(spec_ordered4(n) == 0) by (nonlinear_arith)
                requires
                    0 <= n < 4,
            ;
        }
        lemma_one_side_covers_both(rank_counts, n);
        lemma_fours_superadditive(card_counts, card_counts.len() as int);
        assert(f4(n) == spec_ordered4(n));
    }
}

} // verus!
