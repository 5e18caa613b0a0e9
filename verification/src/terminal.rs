//! Exact enumeration of finished baccarat hands by point value.
//!
//! Every hand is dealt from a shoe of point counts (how many remaining cards
//! are worth 0, 1, ..., 9). The enumeration weighs each finished hand by the
//! number of ordered six-card deals that produce it, so that the weights of
//! all finished hands add up to the number of ordered six-card deals.
use vstd::prelude::*;
use vstd::arithmetic::mul::*;

use crate::standard_baccarat::{
    banker_draws_third_card, is_natural_total, player_draws_third_card, spec_banker_draws,
    spec_is_natural, spec_player_draws,
};
use crate::error::CalculatorError;
use crate::shoe::ShoeCounts;
use crate::sums::{lemma_sum_bounds, lemma_sum_monotone, sum_to};

verus! {

/// Number of buckets of finished-hand outcomes: player total (10) x banker
/// total (10) x player hand length (2 or 3) x banker hand length (2 or 3) x
/// natural flag.
pub const TERMINAL_OUTCOME_BUCKETS: usize = 800;

/// Largest weight a single finished hand can carry in the last (third-card)
/// phase of the enumeration, for shoes of at most 416 cards.
pub open spec fn third_phase_bound() -> int {
    4160int * 4160int
}

/// The bucket of a finished hand.
pub open spec fn bucket(pt: int, bt: int, pl: int, bl: int, natural: bool) -> int {
    (((pt * 10 + bt) * 2 + (pl - 2)) * 2 + (bl - 2)) * 2 + if natural {
        1int
    } else {
        0int
    }
}

/// `w` in bucket `b`, nothing elsewhere.
pub open spec fn ind(k: int, b: int, w: int) -> int {
    if k == b {
        w
    } else {
        0
    }
}

/// The point counts after one card of point `x` is dealt.
pub open spec fn dec(c: Seq<int>, x: int) -> Seq<int> {
    c.update(x, c[x] - 1)
}

/// Point counts as mathematical integers.
pub open spec fn counts_int(v: Seq<u32>) -> Seq<int> {
    Seq::new(v.len(), |i: int| v[i] as int)
}

/// Point counts of a shoe with at most 416 cards per point.
pub open spec fn counts_in_range(c: Seq<int>) -> bool {
    c.len() == 10 && forall|i: int| 0 <= i < 10 ==> 0 <= #[trigger] c[i] <= 416
}

/// Whether either two-card total is a natural.
pub open spec fn natural_present(pt: int, bt: int) -> bool {
    spec_is_natural(pt) || spec_is_natural(bt)
}

/// Banker draws `y` after the player drew `x`.
pub open spec fn banker_after_player_term(
    c: Seq<int>,
    pt: int,
    bt: int,
    x: int,
    natural: bool,
    k: int,
    y: int,
) -> int {
    c[y] * ind(k, bucket((pt + x) % 10, (bt + y) % 10, 3, 3, natural), 1)
}

pub open spec fn banker_after_player_partial(
    c: Seq<int>,
    pt: int,
    bt: int,
    x: int,
    natural: bool,
    k: int,
    i: int,
) -> int {
    sum_to(|y: int| banker_after_player_term(c, pt, bt, x, natural, k, y), i)
}

/// Weight in bucket `k` after the player drew a third card `x`, with `c` and
/// `n` the shoe after that card.
pub open spec fn player_third_inner(
    c: Seq<int>,
    n: int,
    pt: int,
    bt: int,
    x: int,
    natural: bool,
    k: int,
) -> int {
    if spec_banker_draws(bt, Some(x), natural) {
        banker_after_player_partial(c, pt, bt, x, natural, k, 10)
    } else {
        ind(k, bucket((pt + x) % 10, bt, 3, 2, natural), n)
    }
}

pub open spec fn player_third_term(
    c: Seq<int>,
    n: int,
    pt: int,
    bt: int,
    natural: bool,
    k: int,
    x: int,
) -> int {
    c[x] * player_third_inner(dec(c, x), n - 1, pt, bt, x, natural, k)
}

pub open spec fn player_third_partial(
    c: Seq<int>,
    n: int,
    pt: int,
    bt: int,
    natural: bool,
    k: int,
    i: int,
) -> int {
    sum_to(|x: int| player_third_term(c, n, pt, bt, natural, k, x), i)
}

pub open spec fn banker_only_term(
    c: Seq<int>,
    n: int,
    pt: int,
    bt: int,
    natural: bool,
    k: int,
    y: int,
) -> int {
    c[y] * ind(k, bucket(pt, (bt + y) % 10, 2, 3, natural), n - 1)
}

pub open spec fn banker_only_partial(
    c: Seq<int>,
    n: int,
    pt: int,
    bt: int,
    natural: bool,
    k: int,
    i: int,
) -> int {
    sum_to(|y: int| banker_only_term(c, n, pt, bt, natural, k, y), i)
}

/// Weight in bucket `k` contributed by the third-card phase once the four
/// opening cards are out: `c` and `n` describe the remaining shoe, `pt` and
/// `bt` the two-card totals. Each finished hand is weighed by the number of
/// ways to deal its third cards and then fill the deal up to six cards.
pub open spec fn third_phase(c: Seq<int>, n: int, pt: int, bt: int, k: int) -> int {
    let natural = natural_present(pt, bt);
    if spec_player_draws(pt, natural) {
        player_third_partial(c, n, pt, bt, natural, k, 10)
    } else if spec_banker_draws(bt, None, natural) {
        banker_only_partial(c, n, pt, bt, natural, k, 10)
    } else {
        ind(k, bucket(pt, bt, 2, 2, natural), n * (n - 1))
    }
}

pub open spec fn banker_second_term(c: Seq<int>, n: int, p1: int, b1: int, p2: int, k: int, b2: int) -> int {
    c[b2] * third_phase(dec(c, b2), n - 1, (p1 + p2) % 10, (b1 + b2) % 10, k)
}

pub open spec fn banker_second_partial(c: Seq<int>, n: int, p1: int, b1: int, p2: int, k: int, i: int) -> int {
    sum_to(|b2: int| banker_second_term(c, n, p1, b1, p2, k, b2), i)
}

pub open spec fn player_second_term(c: Seq<int>, n: int, p1: int, b1: int, k: int, p2: int) -> int {
    c[p2] * banker_second_partial(dec(c, p2), n - 1, p1, b1, p2, k, 10)
}

pub open spec fn player_second_partial(c: Seq<int>, n: int, p1: int, b1: int, k: int, i: int) -> int {
    sum_to(|p2: int| player_second_term(c, n, p1, b1, k, p2), i)
}

pub open spec fn banker_first_term(c: Seq<int>, n: int, p1: int, k: int, b1: int) -> int {
    c[b1] * player_second_partial(dec(c, b1), n - 1, p1, b1, k, 10)
}

pub open spec fn banker_first_partial(c: Seq<int>, n: int, p1: int, k: int, i: int) -> int {
    sum_to(|b1: int| banker_first_term(c, n, p1, k, b1), i)
}

pub open spec fn player_first_term(c: Seq<int>, n: int, k: int, p1: int) -> int {
    c[p1] * banker_first_partial(dec(c, p1), n - 1, p1, k, 10)
}

pub open spec fn player_first_partial(c: Seq<int>, n: int, k: int, i: int) -> int {
    sum_to(|p1: int| player_first_term(c, n, k, p1), i)
}

proof fn lemma_banker_second_term_bounds(c: Seq<int>, n: int, p1: int, b1: int, p2: int, k: int, v: int)
    requires
        counts_in_range(c),
        2 <= n <= 416,
        0 <= v < 10,
    ensures
        0 <= banker_second_term(c, n, p1, b1, p2, k, v) <= 416 * third_phase_bound(),
{
    let inner = third_phase(dec(c, v), n - 1, (p1 + p2) % 10, (b1 + v) % 10, k);
    if c[v] >= 1 {
        lemma_counts_dec_in_range(c, v);
        lemma_third_phase_bounds(dec(c, v), n - 1, (p1 + p2) % 10, (b1 + v) % 10, k);
        lemma_mul_upper_bound(c[v], 416, inner, third_phase_bound());
        lemma_mul_nonnegative(c[v], inner);
    } else {
        lemma_mul_by_zero_is_zero(inner);
        lemma_mul_is_commutative(c[v], inner);
    }
}

proof fn lemma_banker_second_bounds(c: Seq<int>, n: int, p1: int, b1: int, p2: int, k: int)
    requires
        counts_in_range(c),
        2 <= n <= 416,
    ensures
        0 <= banker_second_partial(c, n, p1, b1, p2, k, 10) <= 71991296000int,
        forall|i: int| 0 <= i <= 10 ==> 0 <= #[trigger] banker_second_partial(c, n, p1, b1, p2, k, i) <= banker_second_partial(c, n, p1, b1, p2, k, 10),
{
    let f = |b2: int| banker_second_term(c, n, p1, b1, p2, k, b2);
    assert forall|x: int| 0 <= x < 10 implies 0 <= #[trigger] f(x) <= 416 * third_phase_bound() by {
        lemma_banker_second_term_bounds(c, n, p1, b1, p2, k, x);
    }
    lemma_sum_bounds(f, 10, 416 * third_phase_bound());
    assert forall|i: int| 0 <= i <= 10 implies 0 <= #[trigger] banker_second_partial(c, n, p1, b1, p2, k, i) <= banker_second_partial(c, n, p1, b1, p2, k, 10) by {
        lemma_sum_monotone(f, i, 10);
        lemma_sum_monotone(f, 0, i);
    }
}

fn accumulate_banker_second(
    acc: &mut Vec<u128>,
    counts: &mut Vec<u32>,
    total: u32,
    p1: u8,
    b1: u8,
    p2: u8,
    ow: u128,
)
    requires
        old(acc)@.len() == 800,
        old(counts)@.len() == 10,
        counts_in_range(counts_int(old(counts)@)),
        3 <= total <= 416,
        p1 < 10,
        b1 < 10,
        p2 < 10,
        ow <= 71991296,
        forall|k: int|
            0 <= k < 800 ==> #[trigger] old(acc)@[k] + ow * banker_second_partial(
                counts_int(old(counts)@),
                total as int,
                p1 as int, b1 as int, p2 as int, k,
                10,
            ) <= u128::MAX,
    ensures
        final(counts)@ == old(counts)@,
        final(acc)@.len() == 800,
        forall|k: int|
            0 <= k < 800 ==> #[trigger] final(acc)@[k] == old(acc)@[k] + ow * banker_second_partial(
                counts_int(old(counts)@),
                total as int,
                p1 as int, b1 as int, p2 as int, k,
                10,
            ),
{
    let ghost acc0 = acc@;
    let ghost counts0 = counts@;
    let ghost c = counts_int(counts@);
    let ghost n = total as int;
    let mut b2: u8 = 0;
    while b2 < 10
        invariant
            0 <= b2 <= 10,
            acc@.len() == 800,
            counts@ == counts0,
            c == counts_int(counts0),
            counts_in_range(c),
            n == total,
            3 <= total <= 416,
                p1 < 10,
                b1 < 10,
                p2 < 10,
            ow <= 71991296,
            forall|k: int|
                0 <= k < 800 ==> #[trigger] acc0[k] + ow * banker_second_partial(c, n, p1 as int, b1 as int, p2 as int, k, 10) <= u128::MAX,
            forall|k: int|
                0 <= k < 800 ==> #[trigger] acc@[k] == acc0[k] + ow * banker_second_partial(c, n, p1 as int, b1 as int, p2 as int, k, b2 as int),
        decreases 10 - b2,
    {
        let vi = b2 as usize;
        if counts[vi] != 0 {
            let w = counts[vi] as u128;
            let cv = counts[vi] - 1;
            counts.set(vi, cv);
            let ghost acc_v = acc@;
            proof {
                lemma_counts_dec(counts0, vi as int);
                lemma_counts_dec_in_range(c, vi as int);
                let vi = vi as int;
                let p1 = p1 as int;
                let b1 = b1 as int;
                let p2 = p2 as int;
                assert forall|k: int| 0 <= k < 800 implies #[trigger] acc_v[k] + (ow * w) * third_phase(dec(c, vi), n - 1, (p1 + p2) % 10, (b1 + vi) % 10, k) <= u128::MAX by {
                    let s = banker_second_partial(c, n, p1 as int, b1 as int, p2 as int, k, b2 as int);
                    let inner = third_phase(dec(c, vi), n - 1, (p1 + p2) % 10, (b1 + vi) % 10, k);
                    lemma_third_phase_bounds(dec(c, vi), n - 1, (p1 + p2) % 10, (b1 + vi) % 10, k);
                    lemma_banker_second_bounds(c, n, p1 as int, b1 as int, p2 as int, k);
                    assert(banker_second_partial(c, n, p1 as int, b1 as int, p2 as int, k, b2 as int + 1) == s + w * inner);
                    lemma_mul_nonnegative(w as int, inner);
                    lemma_mul_inequality(s + w * inner, banker_second_partial(c, n, p1 as int, b1 as int, p2 as int, k, 10), ow as int);
                    lemma_mul_is_commutative(s + w * inner, ow as int);
                    lemma_mul_is_commutative(banker_second_partial(c, n, p1 as int, b1 as int, p2 as int, k, 10), ow as int);
                    lemma_mul_is_distributive_add(ow as int, s, w * inner);
                    lemma_mul_is_associative(ow as int, w as int, inner);
                }
                lemma_mul_upper_bound(ow as int, 71991296, w as int, 416);
            }
            accumulate_third_phase(acc, counts, total - 1, (p1 + p2) % 10, (b1 + b2) % 10, ow * w);
            proof {
                let vi = vi as int;
                let p1 = p1 as int;
                let b1 = b1 as int;
                let p2 = p2 as int;
                assert forall|k: int| 0 <= k < 800 implies #[trigger] acc@[k] == acc0[k] + ow * banker_second_partial(c, n, p1 as int, b1 as int, p2 as int, k, b2 as int + 1) by {
                    let s = banker_second_partial(c, n, p1 as int, b1 as int, p2 as int, k, b2 as int);
                    let inner = third_phase(dec(c, vi), n - 1, (p1 + p2) % 10, (b1 + vi) % 10, k);
                    assert(banker_second_partial(c, n, p1 as int, b1 as int, p2 as int, k, b2 as int + 1) == s + w * inner);
                    lemma_mul_is_associative(ow as int, w as int, inner);
                    lemma_mul_is_distributive_add(ow as int, s, w * inner);
                }
            }
            counts.set(vi, cv + 1);
            proof {
                assert(counts@ =~= counts0);
            }
        } else {
            proof {
                assert forall|k: int| 0 <= k < 800 implies #[trigger] acc@[k] == acc0[k] + ow * banker_second_partial(c, n, p1 as int, b1 as int, p2 as int, k, b2 as int + 1) by {
                    let inner = third_phase(dec(c, b2 as int), n - 1, (p1 as int + p2 as int) % 10, (b1 as int + b2 as int) % 10, k);
                    lemma_mul_by_zero_is_zero(inner);
                    lemma_mul_is_commutative(c[b2 as int], inner);
                    assert(banker_second_term(c, n, p1 as int, b1 as int, p2 as int, k, b2 as int) == 0);
                }
            }
        }
        b2 = b2 + 1;
    }
}

proof fn lemma_player_second_term_bounds(c: Seq<int>, n: int, p1: int, b1: int, k: int, v: int)
    requires
        counts_in_range(c),
        3 <= n <= 416,
        0 <= v < 10,
    ensures
        0 <= player_second_term(c, n, p1, b1, k, v) <= 416 * 71991296000int,
{
    let inner = banker_second_partial(dec(c, v), n - 1, p1, b1, v, k, 10);
    if c[v] >= 1 {
        lemma_counts_dec_in_range(c, v);
        lemma_banker_second_bounds(dec(c, v), n - 1, p1, b1, v, k);
        lemma_mul_upper_bound(c[v], 416, inner, 71991296000int);
        lemma_mul_nonnegative(c[v], inner);
    } else {
        lemma_mul_by_zero_is_zero(inner);
        lemma_mul_is_commutative(c[v], inner);
    }
}

proof fn lemma_player_second_bounds(c: Seq<int>, n: int, p1: int, b1: int, k: int)
    requires
        counts_in_range(c),
        3 <= n <= 416,
    ensures
        0 <= player_second_partial(c, n, p1, b1, k, 10) <= 299483791360000int,
        forall|i: int| 0 <= i <= 10 ==> 0 <= #[trigger] player_second_partial(c, n, p1, b1, k, i) <= player_second_partial(c, n, p1, b1, k, 10),
{
    let f = |p2: int| player_second_term(c, n, p1, b1, k, p2);
    assert forall|x: int| 0 <= x < 10 implies 0 <= #[trigger] f(x) <= 416 * 71991296000int by {
        lemma_player_second_term_bounds(c, n, p1, b1, k, x);
    }
    lemma_sum_bounds(f, 10, 416 * 71991296000int);
    assert forall|i: int| 0 <= i <= 10 implies 0 <= #[trigger] player_second_partial(c, n, p1, b1, k, i) <= player_second_partial(c, n, p1, b1, k, 10) by {
        lemma_sum_monotone(f, i, 10);
        lemma_sum_monotone(f, 0, i);
    }
}

fn accumulate_player_second(
    acc: &mut Vec<u128>,
    counts: &mut Vec<u32>,
    total: u32,
    p1: u8,
    b1: u8,
    ow: u128,
)
    requires
        old(acc)@.len() == 800,
        old(counts)@.len() == 10,
        counts_in_range(counts_int(old(counts)@)),
        4 <= total <= 416,
        p1 < 10,
        b1 < 10,
        ow <= 173056,
        forall|k: int|
            0 <= k < 800 ==> #[trigger] old(acc)@[k] + ow * player_second_partial(
                counts_int(old(counts)@),
                total as int,
                p1 as int, b1 as int, k,
                10,
            ) <= u128::MAX,
    ensures
        final(counts)@ == old(counts)@,
        final(acc)@.len() == 800,
        forall|k: int|
            0 <= k < 800 ==> #[trigger] final(acc)@[k] == old(acc)@[k] + ow * player_second_partial(
                counts_int(old(counts)@),
                total as int,
                p1 as int, b1 as int, k,
                10,
            ),
{
    let ghost acc0 = acc@;
    let ghost counts0 = counts@;
    let ghost c = counts_int(counts@);
    let ghost n = total as int;
    let mut p2: u8 = 0;
    while p2 < 10
        invariant
            0 <= p2 <= 10,
            acc@.len() == 800,
            counts@ == counts0,
            c == counts_int(counts0),
            counts_in_range(c),
            n == total,
            4 <= total <= 416,
                p1 < 10,
                b1 < 10,
            ow <= 173056,
            forall|k: int|
                0 <= k < 800 ==> #[trigger] acc0[k] + ow * player_second_partial(c, n, p1 as int, b1 as int, k, 10) <= u128::MAX,
            forall|k: int|
                0 <= k < 800 ==> #[trigger] acc@[k] == acc0[k] + ow * player_second_partial(c, n, p1 as int, b1 as int, k, p2 as int),
        decreases 10 - p2,
    {
        let vi = p2 as usize;
        if counts[vi] != 0 {
            let w = counts[vi] as u128;
            let cv = counts[vi] - 1;
            counts.set(vi, cv);
            let ghost acc_v = acc@;
            proof {
                lemma_counts_dec(counts0, vi as int);
                lemma_counts_dec_in_range(c, vi as int);
                let vi = vi as int;
                let p1 = p1 as int;
                let b1 = b1 as int;
                assert forall|k: int| 0 <= k < 800 implies #[trigger] acc_v[k] + (ow * w) * banker_second_partial(dec(c, vi), n - 1, p1, b1, vi, k, 10) <= u128::MAX by {
                    let s = player_second_partial(c, n, p1 as int, b1 as int, k, p2 as int);
                    let inner = banker_second_partial(dec(c, vi), n - 1, p1, b1, vi, k, 10);
                    lemma_banker_second_bounds(dec(c, vi), n - 1, p1, b1, vi, k);
                    lemma_player_second_bounds(c, n, p1 as int, b1 as int, k);
                    assert(player_second_partial(c, n, p1 as int, b1 as int, k, p2 as int + 1) == s + w * inner);
                    lemma_mul_nonnegative(w as int, inner);
                    lemma_mul_inequality(s + w * inner, player_second_partial(c, n, p1 as int, b1 as int, k, 10), ow as int);
                    lemma_mul_is_commutative(s + w * inner, ow as int);
                    lemma_mul_is_commutative(player_second_partial(c, n, p1 as int, b1 as int, k, 10), ow as int);
                    lemma_mul_is_distributive_add(ow as int, s, w * inner);
                    lemma_mul_is_associative(ow as int, w as int, inner);
                }
                lemma_mul_upper_bound(ow as int, 173056, w as int, 416);
            }
            accumulate_banker_second(acc, counts, total - 1, p1, b1, p2, ow * w);
            proof {
                let vi = vi as int;
                let p1 = p1 as int;
                let b1 = b1 as int;
                assert forall|k: int| 0 <= k < 800 implies #[trigger] acc@[k] == acc0[k] + ow * player_second_partial(c, n, p1 as int, b1 as int, k, p2 as int + 1) by {
                    let s = player_second_partial(c, n, p1 as int, b1 as int, k, p2 as int);
                    let inner = banker_second_partial(dec(c, vi), n - 1, p1, b1, vi, k, 10);
                    assert(player_second_partial(c, n, p1 as int, b1 as int, k, p2 as int + 1) == s + w * inner);
                    lemma_mul_is_associative(ow as int, w as int, inner);
                    lemma_mul_is_distributive_add(ow as int, s, w * inner);
                }
            }
            counts.set(vi, cv + 1);
            proof {
                assert(counts@ =~= counts0);
            }
        } else {
            proof {
                assert forall|k: int| 0 <= k < 800 implies #[trigger] acc@[k] == acc0[k] + ow * player_second_partial(c, n, p1 as int, b1 as int, k, p2 as int + 1) by {
                    let inner = banker_second_partial(dec(c, p2 as int), n - 1, p1 as int, b1 as int, p2 as int, k, 10);
                    lemma_mul_by_zero_is_zero(inner);
                    lemma_mul_is_commutative(c[p2 as int], inner);
                    assert(player_second_term(c, n, p1 as int, b1 as int, k, p2 as int) == 0);
                }
            }
        }
        p2 = p2 + 1;
    }
}

proof fn lemma_banker_first_term_bounds(c: Seq<int>, n: int, p1: int, k: int, v: int)
    requires
        counts_in_range(c),
        4 <= n <= 416,
        0 <= v < 10,
    ensures
        0 <= banker_first_term(c, n, p1, k, v) <= 416 * 299483791360000int,
{
    let inner = player_second_partial(dec(c, v), n - 1, p1, v, k, 10);
    if c[v] >= 1 {
        lemma_counts_dec_in_range(c, v);
        lemma_player_second_bounds(dec(c, v), n - 1, p1, v, k);
        lemma_mul_upper_bound(c[v], 416, inner, 299483791360000int);
        lemma_mul_nonnegative(c[v], inner);
    } else {
        lemma_mul_by_zero_is_zero(inner);
        lemma_mul_is_commutative(c[v], inner);
    }
}

proof fn lemma_banker_first_bounds(c: Seq<int>, n: int, p1: int, k: int)
    requires
        counts_in_range(c),
        4 <= n <= 416,
    ensures
        0 <= banker_first_partial(c, n, p1, k, 10) <= 1245852572057600000int,
        forall|i: int| 0 <= i <= 10 ==> 0 <= #[trigger] banker_first_partial(c, n, p1, k, i) <= banker_first_partial(c, n, p1, k, 10),
{
    let f = |b1: int| banker_first_term(c, n, p1, k, b1);
    assert forall|x: int| 0 <= x < 10 implies 0 <= #[trigger] f(x) <= 416 * 299483791360000int by {
        lemma_banker_first_term_bounds(c, n, p1, k, x);
    }
    lemma_sum_bounds(f, 10, 416 * 299483791360000int);
    assert forall|i: int| 0 <= i <= 10 implies 0 <= #[trigger] banker_first_partial(c, n, p1, k, i) <= banker_first_partial(c, n, p1, k, 10) by {
        lemma_sum_monotone(f, i, 10);
        lemma_sum_monotone(f, 0, i);
    }
}

fn accumulate_banker_first(
    acc: &mut Vec<u128>,
    counts: &mut Vec<u32>,
    total: u32,
    p1: u8,
    ow: u128,
)
    requires
        old(acc)@.len() == 800,
        old(counts)@.len() == 10,
        counts_in_range(counts_int(old(counts)@)),
        5 <= total <= 416,
        p1 < 10,
        ow <= 416,
        forall|k: int|
            0 <= k < 800 ==> #[trigger] old(acc)@[k] + ow * banker_first_partial(
                counts_int(old(counts)@),
                total as int,
                p1 as int, k,
                10,
            ) <= u128::MAX,
    ensures
        final(counts)@ == old(counts)@,
        final(acc)@.len() == 800,
        forall|k: int|
            0 <= k < 800 ==> #[trigger] final(acc)@[k] == old(acc)@[k] + ow * banker_first_partial(
                counts_int(old(counts)@),
                total as int,
                p1 as int, k,
                10,
            ),
{
    let ghost acc0 = acc@;
    let ghost counts0 = counts@;
    let ghost c = counts_int(counts@);
    let ghost n = total as int;
    let mut b1: u8 = 0;
    while b1 < 10
        invariant
            0 <= b1 <= 10,
            acc@.len() == 800,
            counts@ == counts0,
            c == counts_int(counts0),
            counts_in_range(c),
            n == total,
            5 <= total <= 416,
                p1 < 10,
            ow <= 416,
            forall|k: int|
                0 <= k < 800 ==> #[trigger] acc0[k] + ow * banker_first_partial(c, n, p1 as int, k, 10) <= u128::MAX,
            forall|k: int|
                0 <= k < 800 ==> #[trigger] acc@[k] == acc0[k] + ow * banker_first_partial(c, n, p1 as int, k, b1 as int),
        decreases 10 - b1,
    {
        let vi = b1 as usize;
        if counts[vi] != 0 {
            let w = counts[vi] as u128;
            let cv = counts[vi] - 1;
            counts.set(vi, cv);
            let ghost acc_v = acc@;
            proof {
                lemma_counts_dec(counts0, vi as int);
                lemma_counts_dec_in_range(c, vi as int);
                let vi = vi as int;
                let p1 = p1 as int;
                assert forall|k: int| 0 <= k < 800 implies #[trigger] acc_v[k] + (ow * w) * player_second_partial(dec(c, vi), n - 1, p1, vi, k, 10) <= u128::MAX by {
                    let s = banker_first_partial(c, n, p1 as int, k, b1 as int);
                    let inner = player_second_partial(dec(c, vi), n - 1, p1, vi, k, 10);
                    lemma_player_second_bounds(dec(c, vi), n - 1, p1, vi, k);
                    lemma_banker_first_bounds(c, n, p1 as int, k);
                    assert(banker_first_partial(c, n, p1 as int, k, b1 as int + 1) == s + w * inner);
                    lemma_mul_nonnegative(w as int, inner);
                    lemma_mul_inequality(s + w * inner, banker_first_partial(c, n, p1 as int, k, 10), ow as int);
                    lemma_mul_is_commutative(s + w * inner, ow as int);
                    lemma_mul_is_commutative(banker_first_partial(c, n, p1 as int, k, 10), ow as int);
                    lemma_mul_is_distributive_add(ow as int, s, w * inner);
                    lemma_mul_is_associative(ow as int, w as int, inner);
                }
                lemma_mul_upper_bound(ow as int, 416, w as int, 416);
            }
            accumulate_player_second(acc, counts, total - 1, p1, b1, ow * w);
            proof {
                let vi = vi as int;
                let p1 = p1 as int;
                assert forall|k: int| 0 <= k < 800 implies #[trigger] acc@[k] == acc0[k] + ow * banker_first_partial(c, n, p1 as int, k, b1 as int + 1) by {
                    let s = banker_first_partial(c, n, p1 as int, k, b1 as int);
                    let inner = player_second_partial(dec(c, vi), n - 1, p1, vi, k, 10);
                    assert(banker_first_partial(c, n, p1 as int, k, b1 as int + 1) == s + w * inner);
                    lemma_mul_is_associative(ow as int, w as int, inner);
                    lemma_mul_is_distributive_add(ow as int, s, w * inner);
                }
            }
            counts.set(vi, cv + 1);
            proof {
                assert(counts@ =~= counts0);
            }
        } else {
            proof {
                assert forall|k: int| 0 <= k < 800 implies #[trigger] acc@[k] == acc0[k] + ow * banker_first_partial(c, n, p1 as int, k, b1 as int + 1) by {
                    let inner = player_second_partial(dec(c, b1 as int), n - 1, p1 as int, b1 as int, k, 10);
                    lemma_mul_by_zero_is_zero(inner);
                    lemma_mul_is_commutative(c[b1 as int], inner);
                    assert(banker_first_term(c, n, p1 as int, k, b1 as int) == 0);
                }
            }
        }
        b1 = b1 + 1;
    }
}

proof fn lemma_player_first_term_bounds(c: Seq<int>, n: int, k: int, v: int)
    requires
        counts_in_range(c),
        5 <= n <= 416,
        0 <= v < 10,
    ensures
        0 <= player_first_term(c, n, k, v) <= 416 * 1245852572057600000int,
{
    let inner = banker_first_partial(dec(c, v), n - 1, v, k, 10);
    if c[v] >= 1 {
        lemma_counts_dec_in_range(c, v);
        lemma_banker_first_bounds(dec(c, v), n - 1, v, k);
        lemma_mul_upper_bound(c[v], 416, inner, 1245852572057600000int);
        lemma_mul_nonnegative(c[v], inner);
    } else {
        lemma_mul_by_zero_is_zero(inner);
        lemma_mul_is_commutative(c[v], inner);
    }
}

pub proof fn lemma_player_first_bounds(c: Seq<int>, n: int, k: int)
    requires
        counts_in_range(c),
        5 <= n <= 416,
    ensures
        0 <= player_first_partial(c, n, k, 10) <= 5182746699759616000000int,
        forall|i: int| 0 <= i <= 10 ==> 0 <= #[trigger] player_first_partial(c, n, k, i) <= player_first_partial(c, n, k, 10),
{
    let f = |p1: int| player_first_term(c, n, k, p1);
    assert forall|x: int| 0 <= x < 10 implies 0 <= #[trigger] f(x) <= 416 * 1245852572057600000int by {
        lemma_player_first_term_bounds(c, n, k, x);
    }
    lemma_sum_bounds(f, 10, 416 * 1245852572057600000int);
    assert forall|i: int| 0 <= i <= 10 implies 0 <= #[trigger] player_first_partial(c, n, k, i) <= player_first_partial(c, n, k, 10) by {
        lemma_sum_monotone(f, i, 10);
        lemma_sum_monotone(f, 0, i);
    }
}

fn accumulate_player_first(
    acc: &mut Vec<u128>,
    counts: &mut Vec<u32>,
    total: u32,
    ow: u128,
)
    requires
        old(acc)@.len() == 800,
        old(counts)@.len() == 10,
        counts_in_range(counts_int(old(counts)@)),
        6 <= total <= 416,
        ow <= 1,
        forall|k: int|
            0 <= k < 800 ==> #[trigger] old(acc)@[k] + ow * player_first_partial(
                counts_int(old(counts)@),
                total as int,
                k,
                10,
            ) <= u128::MAX,
    ensures
        final(counts)@ == old(counts)@,
        final(acc)@.len() == 800,
        forall|k: int|
            0 <= k < 800 ==> #[trigger] final(acc)@[k] == old(acc)@[k] + ow * player_first_partial(
                counts_int(old(counts)@),
                total as int,
                k,
                10,
            ),
{
    let ghost acc0 = acc@;
    let ghost counts0 = counts@;
    let ghost c = counts_int(counts@);
    let ghost n = total as int;
    let mut p1: u8 = 0;
    while p1 < 10
        invariant
            0 <= p1 <= 10,
            acc@.len() == 800,
            counts@ == counts0,
            c == counts_int(counts0),
            counts_in_range(c),
            n == total,
            6 <= total <= 416,
            ow <= 1,
            forall|k: int|
                0 <= k < 800 ==> #[trigger] acc0[k] + ow * player_first_partial(c, n, k, 10) <= u128::MAX,
            forall|k: int|
                0 <= k < 800 ==> #[trigger] acc@[k] == acc0[k] + ow * player_first_partial(c, n, k, p1 as int),
        decreases 10 - p1,
    {
        let vi = p1 as usize;
        if counts[vi] != 0 {
            let w = counts[vi] as u128;
            let cv = counts[vi] - 1;
            counts.set(vi, cv);
            let ghost acc_v = acc@;
            proof {
                lemma_counts_dec(counts0, vi as int);
                lemma_counts_dec_in_range(c, vi as int);
                let vi = vi as int;
                assert forall|k: int| 0 <= k < 800 implies #[trigger] acc_v[k] + (ow * w) * banker_first_partial(dec(c, vi), n - 1, vi, k, 10) <= u128::MAX by {
                    let s = player_first_partial(c, n, k, p1 as int);
                    let inner = banker_first_partial(dec(c, vi), n - 1, vi, k, 10);
                    lemma_banker_first_bounds(dec(c, vi), n - 1, vi, k);
                    lemma_player_first_bounds(c, n, k);
                    assert(player_first_partial(c, n, k, p1 as int + 1) == s + w * inner);
                    lemma_mul_nonnegative(w as int, inner);
                    lemma_mul_inequality(s + w * inner, player_first_partial(c, n, k, 10), ow as int);
                    lemma_mul_is_commutative(s + w * inner, ow as int);
                    lemma_mul_is_commutative(player_first_partial(c, n, k, 10), ow as int);
                    lemma_mul_is_distributive_add(ow as int, s, w * inner);
                    lemma_mul_is_associative(ow as int, w as int, inner);
                }
                lemma_mul_upper_bound(ow as int, 1, w as int, 416);
            }
            accumulate_banker_first(acc, counts, total - 1, p1, ow * w);
            proof {
                let vi = vi as int;
                assert forall|k: int| 0 <= k < 800 implies #[trigger] acc@[k] == acc0[k] + ow * player_first_partial(c, n, k, p1 as int + 1) by {
                    let s = player_first_partial(c, n, k, p1 as int);
                    let inner = banker_first_partial(dec(c, vi), n - 1, vi, k, 10);
                    assert(player_first_partial(c, n, k, p1 as int + 1) == s + w * inner);
                    lemma_mul_is_associative(ow as int, w as int, inner);
                    lemma_mul_is_distributive_add(ow as int, s, w * inner);
                }
            }
            counts.set(vi, cv + 1);
            proof {
                assert(counts@ =~= counts0);
            }
        } else {
            proof {
                assert forall|k: int| 0 <= k < 800 implies #[trigger] acc@[k] == acc0[k] + ow * player_first_partial(c, n, k, p1 as int + 1) by {
                    let inner = banker_first_partial(dec(c, p1 as int), n - 1, p1 as int, k, 10);
                    lemma_mul_by_zero_is_zero(inner);
                    lemma_mul_is_commutative(c[p1 as int], inner);
                    assert(player_first_term(c, n, k, p1 as int) == 0);
                }
            }
        }
        p1 = p1 + 1;
    }
}

/// `n * (n - 1) * ... * (n - d + 1)`.
pub open spec fn falling(n: int, d: int) -> int
    decreases d,
{
    if d <= 0 {
        1
    } else {
        falling(n, d - 1) * (n - (d - 1))
    }
}

proof fn lemma_counts_dec(v: Seq<u32>, x: int)
    requires
        0 <= x < v.len(),
        v[x] >= 1,
    ensures
        counts_int(v.update(x, (v[x] - 1) as u32)) == dec(counts_int(v), x),
{
    assert(counts_int(v.update(x, (v[x] - 1) as u32)) =~= dec(counts_int(v), x));
}

proof fn lemma_counts_dec_in_range(c: Seq<int>, x: int)
    requires
        counts_in_range(c),
        0 <= x < 10,
        c[x] >= 1,
    ensures
        counts_in_range(dec(c, x)),
{
}

proof fn lemma_banker_after_player_bounds(c: Seq<int>, pt: int, bt: int, x: int, natural: bool, k: int)
    requires
        counts_in_range(c),
    ensures
        0 <= banker_after_player_partial(c, pt, bt, x, natural, k, 10) <= 4160,
{
    let f = |y: int| banker_after_player_term(c, pt, bt, x, natural, k, y);
    assert forall|y: int| 0 <= y < 10 implies 0 <= #[trigger] f(y) <= 416 by {
        assert(0 <= c[y] <= 416);
    }
    lemma_sum_bounds(f, 10, 416);
}

proof fn lemma_player_third_inner_bounds(c: Seq<int>, n: int, pt: int, bt: int, x: int, natural: bool, k: int)
    requires
        counts_in_range(c),
        0 <= n <= 416,
    ensures
        0 <= player_third_inner(c, n, pt, bt, x, natural, k) <= 4160,
{
    lemma_banker_after_player_bounds(c, pt, bt, x, natural, k);
}

proof fn lemma_player_third_term_bounds(c: Seq<int>, n: int, pt: int, bt: int, natural: bool, k: int, x: int)
    requires
        counts_in_range(c),
        1 <= n <= 417,
        0 <= x < 10,
    ensures
        0 <= player_third_term(c, n, pt, bt, natural, k, x) <= 416 * 4160,
{
    if c[x] >= 1 {
        lemma_counts_dec_in_range(c, x);
        lemma_player_third_inner_bounds(dec(c, x), n - 1, pt, bt, x, natural, k);
        let i = player_third_inner(dec(c, x), n - 1, pt, bt, x, natural, k);
        lemma_mul_upper_bound(c[x], 416, i, 4160);
        lemma_mul_nonnegative(c[x], i);
    } else {
        let i = player_third_inner(dec(c, x), n - 1, pt, bt, x, natural, k);
        lemma_mul_by_zero_is_zero(i);
        lemma_mul_is_commutative(c[x], i);
    }
}

proof fn lemma_third_phase_bounds(c: Seq<int>, n: int, pt: int, bt: int, k: int)
    requires
        counts_in_range(c),
        1 <= n <= 416,
    ensures
        0 <= third_phase(c, n, pt, bt, k) <= third_phase_bound(),
{
    let natural = natural_present(pt, bt);
    if spec_player_draws(pt, natural) {
        let f = |x: int| player_third_term(c, n, pt, bt, natural, k, x);
        assert forall|x: int| 0 <= x < 10 implies 0 <= #[trigger] f(x) <= 416 * 4160 by {
            lemma_player_third_term_bounds(c, n, pt, bt, natural, k, x);
        }
        lemma_sum_bounds(f, 10, 416int * 4160int);
    } else if spec_banker_draws(bt, None, natural) {
        let f = |y: int| banker_only_term(c, n, pt, bt, natural, k, y);
        assert forall|y: int| 0 <= y < 10 implies 0 <= #[trigger] f(y) <= 416 * 416 by {
            let w = ind(k, bucket(pt, (bt + y) % 10, 2, 3, natural), n - 1);
            assert(0 <= w <= 416);
            lemma_mul_upper_bound(c[y], 416, w, 416);
            lemma_mul_nonnegative(c[y], w);
        }
        lemma_sum_bounds(f, 10, 416int * 416int);
    } else {
        lemma_mul_upper_bound(n, 416, n - 1, 416);
        lemma_mul_nonnegative(n, n - 1);
    }
}

/// Bucket index of a finished hand.
fn outcome_bucket(pt: u8, bt: u8, pl: u8, bl: u8, natural: bool) -> (r: usize)
    requires
        pt < 10,
        bt < 10,
        2 <= pl <= 3,
        2 <= bl <= 3,
    ensures
        r == bucket(pt as int, bt as int, pl as int, bl as int, natural),
        r < 800,
{
    let n: usize = if natural {
        1
    } else {
        0
    };
    let a = pt as usize * 10 + bt as usize;
    assert(a < 100);
    let b = a * 2 + (pl as usize - 2);
    assert(b < 200);
    let c = b * 2 + (bl as usize - 2);
    assert(c < 400);
    c * 2 + n
}

/// Adds `w` to bucket `b`.
fn add_weight(acc: &mut Vec<u128>, b: usize, w: u128)
    requires
        b < old(acc)@.len(),
        old(acc)@[b as int] + w <= u128::MAX,
    ensures
        final(acc)@ == old(acc)@.update(b as int, (old(acc)@[b as int] + w) as u128),
{
    let v = acc[b] + w;
    acc.set(b, v);
}

/// Adds, for every bucket, `ow` times the weight of the banker's third card
/// after the player drew `x`, from the shoe `counts` of `total` cards.
fn accumulate_banker_after_player(
    acc: &mut Vec<u128>,
    counts: &Vec<u32>,
    total: u32,
    pt: u8,
    bt: u8,
    x: u8,
    natural: bool,
    ow: u128,
)
    requires
        old(acc)@.len() == 800,
        counts@.len() == 10,
        counts_in_range(counts_int(counts@)),
        1 <= total <= 416,
        pt < 10,
        bt < 10,
        x < 10,
        ow <= 12458525720576,
        forall|k: int|
            0 <= k < 800 ==> #[trigger] old(acc)@[k] + ow * banker_after_player_partial(
                counts_int(counts@),
                pt as int,
                bt as int,
                x as int,
                natural,
                k,
                10,
            ) <= u128::MAX,
    ensures
        final(acc)@.len() == 800,
        forall|k: int|
            0 <= k < 800 ==> #[trigger] final(acc)@[k] == old(acc)@[k] + ow * banker_after_player_partial(
                counts_int(counts@),
                pt as int,
                bt as int,
                x as int,
                natural,
                k,
                10,
            ),
{
    let ghost acc0 = acc@;
    let ghost c = counts_int(counts@);
    let pfinal = (pt + x) % 10;
    let mut y: u8 = 0;
    while y < 10
        invariant
            0 <= y <= 10,
            acc@.len() == 800,
            c == counts_int(counts@),
            counts@.len() == 10,
            counts_in_range(c),
            1 <= total <= 416,
            pt < 10,
            bt < 10,
            x < 10,
            pfinal == (pt + x) % 10,
            ow <= 12458525720576,
            forall|k: int|
                0 <= k < 800 ==> #[trigger] acc0[k] + ow * banker_after_player_partial(
                    c,
                    pt as int,
                    bt as int,
                    x as int,
                    natural,
                    k,
                    10,
                ) <= u128::MAX,
            forall|k: int|
                0 <= k < 800 ==> #[trigger] acc@[k] == acc0[k] + ow * banker_after_player_partial(
                    c,
                    pt as int,
                    bt as int,
                    x as int,
                    natural,
                    k,
                    y as int,
                ),
        decreases 10 - y,
    {
        let yi = y as usize;
        if counts[yi] != 0 {
            let wy = counts[yi] as u128;
            let b = outcome_bucket(pfinal, (bt + y) % 10, 3, 3, natural);
            let suffix = remaining_suffix_weight(total - 1, 0);
            proof {
                let k = b as int;
                let fb = |j: int| banker_after_player_term(c, pt as int, bt as int, x as int, natural, k, j);
                assert forall|j: int| 0 <= j < 10 implies 0 <= #[trigger] fb(j) by {
                    lemma_mul_nonnegative(
                        c[j],
                        ind(k, bucket((pt as int + x as int) % 10, (bt as int + j) % 10, 3, 3, natural), 1),
                    );
                }
                lemma_sum_monotone(fb, y as int + 1, 10);
                let s = banker_after_player_partial(c, pt as int, bt as int, x as int, natural, k, y as int);
                let s1 = banker_after_player_partial(c, pt as int, bt as int, x as int, natural, k, y as int + 1);
                let s10 = banker_after_player_partial(c, pt as int, bt as int, x as int, natural, k, 10);
                assert(s1 == s + wy);
                lemma_mul_inequality(s1, s10, ow as int);
                lemma_mul_is_commutative(s1, ow as int);
                lemma_mul_is_commutative(s10, ow as int);
                lemma_mul_is_distributive_add(ow as int, s, wy as int);
                lemma_mul_upper_bound(ow as int, 12458525720576, wy as int, 416);
            }
            let add = ow * wy * suffix;
            add_weight(acc, b, add);
            proof {
                assert forall|k: int| 0 <= k < 800 implies #[trigger] acc@[k] == acc0[k] + ow
                    * banker_after_player_partial(c, pt as int, bt as int, x as int, natural, k, y as int + 1) by {
                    let s = banker_after_player_partial(c, pt as int, bt as int, x as int, natural, k, y as int);
                    if k == b {
                        lemma_mul_is_distributive_add(ow as int, s, wy as int);
                    } else {
                        assert(banker_after_player_term(c, pt as int, bt as int, x as int, natural, k, y as int) == 0);
                    }
                }
            }
        } else {
            proof {
                assert forall|k: int| 0 <= k < 800 implies #[trigger] acc@[k] == acc0[k] + ow
                    * banker_after_player_partial(c, pt as int, bt as int, x as int, natural, k, y as int + 1) by {
                    assert(banker_after_player_term(c, pt as int, bt as int, x as int, natural, k, y as int) == 0);
                }
            }
        }
        y = y + 1;
    }
}

/// Adds, for every bucket, `ow` times the third-card-phase weight of a deal
/// whose four opening cards total `pt` (player) and `bt` (banker) and leave
/// the shoe `counts` of `total` cards.
fn accumulate_third_phase(
    acc: &mut Vec<u128>,
    counts: &mut Vec<u32>,
    total: u32,
    pt: u8,
    bt: u8,
    ow: u128,
)
    requires
        old(acc)@.len() == 800,
        old(counts)@.len() == 10,
        counts_in_range(counts_int(old(counts)@)),
        2 <= total <= 416,
        pt < 10,
        bt < 10,
        ow <= 29948379136,
        forall|k: int|
            0 <= k < 800 ==> #[trigger] old(acc)@[k] + ow * third_phase(
                counts_int(old(counts)@),
                total as int,
                pt as int,
                bt as int,
                k,
            ) <= u128::MAX,
    ensures
        final(counts)@ == old(counts)@,
        final(acc)@.len() == 800,
        forall|k: int|
            0 <= k < 800 ==> #[trigger] final(acc)@[k] == old(acc)@[k] + ow * third_phase(
                counts_int(old(counts)@),
                total as int,
                pt as int,
                bt as int,
                k,
            ),
{
    let ghost acc0 = acc@;
    let ghost counts0 = counts@;
    let ghost c = counts_int(counts@);
    let ghost n = total as int;
    let natural = is_natural_total(pt) || is_natural_total(bt);
    proof {
        assert forall|k: int| 0 <= k < 800 implies 0 <= #[trigger] third_phase(c, n, pt as int, bt as int, k)
            <= third_phase_bound() by {
            lemma_third_phase_bounds(c, n, pt as int, bt as int, k);
        }
    }
    if player_draws_third_card(pt, natural) {
        let mut x: u8 = 0;
        while x < 10
            invariant
                0 <= x <= 10,
                acc@.len() == 800,
                counts@ == counts0,
                c == counts_int(counts0),
                counts_in_range(c),
                n == total,
                2 <= total <= 416,
                pt < 10,
                bt < 10,
                natural == natural_present(pt as int, bt as int),
                spec_player_draws(pt as int, natural),
                ow <= 29948379136,
                forall|k: int| 0 <= k < 800 ==> #[trigger] acc0[k] + ow * third_phase(c, n, pt as int, bt as int, k) <= u128::MAX,
                forall|k: int| 0 <= k < 800 ==> 0 <= #[trigger] third_phase(c, n, pt as int, bt as int, k)
                    <= third_phase_bound(),
                forall|k: int|
                    0 <= k < 800 ==> #[trigger] acc@[k] == acc0[k] + ow * player_third_partial(
                        c,
                        n,
                        pt as int,
                        bt as int,
                        natural,
                        k,
                        x as int,
                    ),
            decreases 10 - x,
        {
            let xi = x as usize;
            proof {
                assert forall|k: int| 0 <= k < 800 implies #[trigger] third_phase(c, n, pt as int, bt as int, k)
                    == player_third_partial(c, n, pt as int, bt as int, natural, k, 10) by {}
                assert forall|k: int| 0 <= k < 800 implies 0 <= #[trigger] player_third_partial(
                    c,
                    n,
                    pt as int,
                    bt as int,
                    natural,
                    k,
                    x as int + 1,
                ) <= player_third_partial(c, n, pt as int, bt as int, natural, k, 10) by {
                    let f = |j: int| player_third_term(c, n, pt as int, bt as int, natural, k, j);
                    assert forall|j: int| 0 <= j < 10 implies 0 <= #[trigger] f(j) by {
                        lemma_player_third_term_bounds(c, n, pt as int, bt as int, natural, k, j);
                    }
                    lemma_sum_monotone(f, x as int + 1, 10);
                    lemma_sum_monotone(f, 0, x as int + 1);
                }
            }
            if counts[xi] != 0 {
                let wx = counts[xi] as u128;
                let cx = counts[xi] - 1;
                counts.set(xi, cx);
                proof {
                    lemma_counts_dec(counts0, xi as int);
                    lemma_counts_dec_in_range(c, xi as int);
                }
                let ghost cx_seq = dec(c, xi as int);
                let pfinal = (pt + x) % 10;
                let ghost acc_x = acc@;
                if banker_draws_third_card(bt, Some(x), natural) {
                    proof {
                        assert forall|k: int| 0 <= k < 800 implies #[trigger] acc_x[k] + (ow * wx)
                            * banker_after_player_partial(cx_seq, pt as int, bt as int, x as int, natural, k, 10)
                            <= u128::MAX by {
                            let sp = player_third_partial(c, n, pt as int, bt as int, natural, k, x as int);
                            let s_b = banker_after_player_partial(
                                cx_seq,
                                pt as int,
                                bt as int,
                                x as int,
                                natural,
                                k,
                                10,
                            );
                            lemma_banker_after_player_bounds(cx_seq, pt as int, bt as int, x as int, natural, k);
                            assert(player_third_partial(c, n, pt as int, bt as int, natural, k, x as int + 1)
                                == sp + wx * s_b);
                            assert(third_phase(c, n, pt as int, bt as int, k) <= third_phase_bound());
                            lemma_mul_nonnegative(wx as int, s_b);
                            lemma_mul_inequality(sp + wx * s_b, third_phase(c, n, pt as int, bt as int, k), ow as int);
                            lemma_mul_is_commutative(sp + wx * s_b, ow as int);
                            lemma_mul_is_commutative(third_phase(c, n, pt as int, bt as int, k), ow as int);
                            lemma_mul_is_distributive_add(ow as int, sp, wx * s_b);
                            lemma_mul_is_associative(ow as int, wx as int, s_b);
                        }
                        lemma_mul_upper_bound(ow as int, 29948379136, wx as int, 416);
                    }
                    accumulate_banker_after_player(acc, counts, total - 1, pt, bt, x, natural, ow * wx);
                    proof {
                        assert forall|k: int| 0 <= k < 800 implies #[trigger] acc@[k] == acc0[k] + ow
                            * player_third_partial(c, n, pt as int, bt as int, natural, k, x as int + 1) by {
                            let sp = player_third_partial(c, n, pt as int, bt as int, natural, k, x as int);
                            let s_b = banker_after_player_partial(
                                cx_seq,
                                pt as int,
                                bt as int,
                                x as int,
                                natural,
                                k,
                                10,
                            );
                            assert(player_third_partial(c, n, pt as int, bt as int, natural, k, x as int + 1)
                                == sp + wx * s_b);
                            lemma_mul_is_associative(ow as int, wx as int, s_b);
                            lemma_mul_is_distributive_add(ow as int, sp, wx * s_b);
                        }
                    }
                } else {
                    let b = outcome_bucket(pfinal, bt, 3, 2, natural);
                    let suffix = remaining_suffix_weight(total - 1, 1);
                    proof {
                        let k = b as int;
                        let sp = player_third_partial(c, n, pt as int, bt as int, natural, k, x as int);
                        assert(player_third_partial(c, n, pt as int, bt as int, natural, k, x as int + 1)
                            == sp + wx * (n - 1));
                        assert(third_phase(c, n, pt as int, bt as int, k) <= third_phase_bound());
                        lemma_mul_nonnegative(wx as int, n - 1);
                        lemma_mul_inequality(sp + wx * (n - 1), third_phase(c, n, pt as int, bt as int, k), ow as int);
                        lemma_mul_is_commutative(sp + wx * (n - 1), ow as int);
                        lemma_mul_is_commutative(third_phase(c, n, pt as int, bt as int, k), ow as int);
                        lemma_mul_is_distributive_add(ow as int, sp, wx * (n - 1));
                        lemma_mul_is_associative(ow as int, wx as int, n - 1);
                        lemma_mul_upper_bound(ow as int, 29948379136, wx as int, 416);
                        lemma_mul_upper_bound((ow * wx) as int, 12458525720576int, n - 1, 416);
                    }
                    let add = ow * wx * suffix;
                    add_weight(acc, b, add);
                    proof {
                        assert forall|k: int| 0 <= k < 800 implies #[trigger] acc@[k] == acc0[k] + ow
                            * player_third_partial(c, n, pt as int, bt as int, natural, k, x as int + 1) by {
                            let sp = player_third_partial(c, n, pt as int, bt as int, natural, k, x as int);
                            if k == b {
                                lemma_mul_is_distributive_add(ow as int, sp, wx * (n - 1));
                                lemma_mul_is_associative(ow as int, wx as int, n - 1);
                            } else {
                                assert(player_third_partial(c, n, pt as int, bt as int, natural, k, x as int + 1)
                                    == sp + wx * 0);
                            }
                        }
                    }
                }
                counts.set(xi, cx + 1);
                proof {
                    assert(counts@ =~= counts0);
                }
            } else {
                proof {
                    assert forall|k: int| 0 <= k < 800 implies #[trigger] acc@[k] == acc0[k] + ow
                        * player_third_partial(c, n, pt as int, bt as int, natural, k, x as int + 1) by {
                        assert(player_third_term(c, n, pt as int, bt as int, natural, k, x as int) == 0);
                    }
                }
            }
            x = x + 1;
        }
    } else if banker_draws_third_card(bt, None, natural) {
        let mut y: u8 = 0;
        while y < 10
            invariant
                0 <= y <= 10,
                acc@.len() == 800,
                counts@ == counts0,
                c == counts_int(counts0),
                counts_in_range(c),
                n == total,
                2 <= total <= 416,
                pt < 10,
                bt < 10,
                natural == natural_present(pt as int, bt as int),
                !spec_player_draws(pt as int, natural),
                spec_banker_draws(bt as int, None, natural),
                ow <= 29948379136,
                forall|k: int| 0 <= k < 800 ==> #[trigger] acc0[k] + ow * third_phase(c, n, pt as int, bt as int, k) <= u128::MAX,
                forall|k: int| 0 <= k < 800 ==> 0 <= #[trigger] third_phase(c, n, pt as int, bt as int, k)
                    <= third_phase_bound(),
                forall|k: int|
                    0 <= k < 800 ==> #[trigger] acc@[k] == acc0[k] + ow * banker_only_partial(
                        c,
                        n,
                        pt as int,
                        bt as int,
                        natural,
                        k,
                        y as int,
                    ),
            decreases 10 - y,
        {
            let yi = y as usize;
            proof {
                assert forall|k: int| 0 <= k < 800 implies #[trigger] third_phase(c, n, pt as int, bt as int, k)
                    == banker_only_partial(c, n, pt as int, bt as int, natural, k, 10) by {}
            }
            if counts[yi] != 0 {
                let wy = counts[yi] as u128;
                let b = outcome_bucket(pt, (bt + y) % 10, 2, 3, natural);
                let suffix = remaining_suffix_weight(total - 1, 1);
                proof {
                    let k = b as int;
                    let f = |j: int| banker_only_term(c, n, pt as int, bt as int, natural, k, j);
                    assert forall|j: int| 0 <= j < 10 implies 0 <= #[trigger] f(j) by {
                        let w = ind(k, bucket(pt as int, (bt as int + j) % 10, 2, 3, natural), n - 1);
                        lemma_mul_nonnegative(c[j], w);
                    }
                    lemma_sum_monotone(f, y as int + 1, 10);
                    assert(third_phase(c, n, pt as int, bt as int, k) <= third_phase_bound());
                    let s = banker_only_partial(c, n, pt as int, bt as int, natural, k, y as int);
                    assert(banker_only_partial(c, n, pt as int, bt as int, natural, k, y as int + 1)
                        == s + wy * (n - 1));
                    lemma_mul_nonnegative(wy as int, n - 1);
                    lemma_mul_inequality(s + wy * (n - 1), third_phase(c, n, pt as int, bt as int, k), ow as int);
                    lemma_mul_is_commutative(s + wy * (n - 1), ow as int);
                    lemma_mul_is_commutative(third_phase(c, n, pt as int, bt as int, k), ow as int);
                    lemma_mul_is_distributive_add(ow as int, s, wy * (n - 1));
                    lemma_mul_is_associative(ow as int, wy as int, n - 1);
                    lemma_mul_upper_bound(ow as int, 29948379136, wy as int, 416);
                    lemma_mul_upper_bound((ow * wy) as int, 12458525720576int, n - 1, 416);
                }
                let add = ow * wy * suffix;
                add_weight(acc, b, add);
                proof {
                    assert forall|k: int| 0 <= k < 800 implies #[trigger] acc@[k] == acc0[k] + ow
                        * banker_only_partial(c, n, pt as int, bt as int, natural, k, y as int + 1) by {
                        let s = banker_only_partial(c, n, pt as int, bt as int, natural, k, y as int);
                        if k == b {
                            lemma_mul_is_distributive_add(ow as int, s, wy * (n - 1));
                            lemma_mul_is_associative(ow as int, wy as int, n - 1);
                        } else {
                            assert(banker_only_partial(c, n, pt as int, bt as int, natural, k, y as int + 1)
                                == s + wy * 0);
                        }
                    }
                }
            } else {
                proof {
                    assert forall|k: int| 0 <= k < 800 implies #[trigger] acc@[k] == acc0[k] + ow
                        * banker_only_partial(c, n, pt as int, bt as int, natural, k, y as int + 1) by {
                        let cy = c[y as int];
                        assert(cy == 0);
                        let w = ind(k, bucket(pt as int, (bt as int + y as int) % 10, 2, 3, natural), n - 1);
                        assert(cy * w == 0) by (nonlinear_arith)
                            requires
                                cy == 0,
                        ;
                        assert(banker_only_term(c, n, pt as int, bt as int, natural, k, y as int) == 0);
                    }
                }
            }
            y = y + 1;
        }
    } else {
        let b = outcome_bucket(pt, bt, 2, 2, natural);
        let suffix = remaining_suffix_weight(total, 2);
        proof {
            lemma_mul_upper_bound(n, 416, n - 1, 416);
            lemma_mul_nonnegative(n, n - 1);
            assert(third_phase(c, n, pt as int, bt as int, b as int) == n * (n - 1));
            lemma_mul_upper_bound(ow as int, 29948379136, n * (n - 1), 173056);
        }
        let add = ow * suffix;
        add_weight(acc, b, add);
        proof {
            assert forall|k: int| 0 <= k < 800 implies #[trigger] acc@[k] == acc0[k] + ow * third_phase(
                c,
                n,
                pt as int,
                bt as int,
                k,
            ) by {
                if k != b {
                    assert(third_phase(c, n, pt as int, bt as int, k) == 0);
                }
            }
        }
    }
}

/// `total * (total - 1) * ... * (total - draw_count + 1)`.
fn falling_product(total: u32, draw_count: u32) -> (r: u128)
    requires
        draw_count <= 6,
        draw_count <= total,
        total <= 416,
    ensures
        r == falling(total as int, draw_count as int),
        r <= 29948379136 * 173056,
{
    let mut r: u128 = 1;
    let mut i: u32 = 0;
    while i < draw_count
        invariant
            i <= draw_count,
            draw_count <= 6,
            draw_count <= total,
            total <= 416,
            r == falling(total as int, i as int),
            0 <= r,
            r <= falling(416, i as int),
        decreases draw_count - i,
    {
        proof {
            lemma_mul_inequality(r as int, falling(416, i as int), (total - i) as int);
            lemma_mul_inequality((total - i) as int, 416 - i, falling(416, i as int));
            lemma_mul_is_commutative((total - i) as int, falling(416, i as int));
            lemma_mul_is_commutative(416 - i, falling(416, i as int));
            assert(falling(416, i as int + 1) == falling(416, i as int) * (416 - i));
            lemma_falling_416_monotone(i as int);
        }
        r = r * ((total - i) as u128);
        i = i + 1;
    }
    proof {
        lemma_falling_416_monotone_to6(i as int);
    }
    r
}

proof fn lemma_falling_416_values()
    ensures
        falling(416, 0) == 1,
        falling(416, 1) == 416,
        falling(416, 2) == 172640,
        falling(416, 3) == 71472960,
        falling(416, 4) == 29518332480,
        falling(416, 5) == 12161552981760,
        falling(416, 6) == 4998398275503360,
{
    assert(falling(416, 0) == 1);
    assert(falling(416, 1) == 416);
    assert(falling(416, 2) == 172640);
    assert(falling(416, 3) == 71472960);
    assert(falling(416, 4) == 29518332480);
    assert(falling(416, 5) == 12161552981760);
    assert(falling(416, 6) == 4998398275503360);
}

proof fn lemma_falling_416_monotone(i: int)
    requires
        0 <= i < 6,
    ensures
        falling(416, i) <= 29948379136 * 173056,
        falling(416, i + 1) <= 29948379136 * 173056,
{
    lemma_falling_416_values();
}

proof fn lemma_falling_416_monotone_to6(i: int)
    requires
        0 <= i <= 6,
    ensures
        falling(416, i) <= 29948379136 * 173056,
{
    lemma_falling_416_values();
}

/// Ways to deal the `missing_draws` cards that fill a finished hand up to six
/// dealt cards.
fn remaining_suffix_weight(total_cards_after_terminal: u32, missing_draws: u32) -> (r: u128)
    requires
        missing_draws <= 2,
        missing_draws <= total_cards_after_terminal,
        total_cards_after_terminal <= 416,
    ensures
        r == falling(total_cards_after_terminal as int, missing_draws as int),
        missing_draws == 0 ==> r == 1,
        missing_draws == 1 ==> r == total_cards_after_terminal,
        missing_draws == 2 ==> r == total_cards_after_terminal * (total_cards_after_terminal - 1),
{
    proof {
        reveal_with_fuel(falling, 3);
    }
    falling_product(total_cards_after_terminal, missing_draws)
}

/// Weight of bucket `k`: the number of ordered six-card deals from a shoe
/// with point counts `c` and `n` cards whose finished hand falls in bucket
/// `k` (cards beyond the finished hand fill the deal up to six).
pub open spec fn terminal_weight(c: Seq<int>, n: int, k: int) -> int {
    player_first_partial(c, n, k, 10)
}

/// Finished-hand weights of a shoe, with the number of ordered six-card deals
/// as denominator.
#[derive(Debug)]
pub struct TerminalAccumulator {
    pub denominator: u128,
    pub weights: Vec<u128>,
}

/// Largest weight one bucket can carry for a shoe of at most 416 cards.
pub const TERMINAL_WEIGHT_BOUND: u128 = 5182746699759616000000;

impl TerminalAccumulator {
    /// Every bucket is present and carries at most the weight bound.
    pub open spec fn bounded(self) -> bool {
        &&& self.weights@.len() == 800
        &&& forall|k: int| 0 <= k < 800 ==> #[trigger] self.weights@[k] <= TERMINAL_WEIGHT_BOUND
    }

    /// The weights are those of the shoe with point counts `c` and `n` cards.
    pub open spec fn of_shoe(self, c: Seq<int>, n: int) -> bool {
        &&& self.denominator == falling(n, 6)
        &&& self.weights@.len() == 800
        &&& forall|k: int| 0 <= k < 800 ==> #[trigger] self.weights@[k] == terminal_weight(c, n, k)
    }
}

pub proof fn lemma_shoe_bounds(counts: &ShoeCounts)
    requires
        counts.wf(),
    ensures
        counts.total <= 416,
        counts_in_range(counts.spec_points()),
{
    let f = |k: int| counts.card@[k] as int;
    assert forall|k: int| 0 <= k < 52 implies 0 <= #[trigger] f(k) <= 8 by {}
    lemma_sum_bounds(f, 52, 8);
    assert forall|r: int| 0 <= r < 13 implies #[trigger] counts.rank@[r] <= 32 by {
        assert(counts.card@[r] <= 8);
        assert(counts.card@[13 + r] <= 8);
        assert(counts.card@[26 + r] <= 8);
        assert(counts.card@[39 + r] <= 8);
    }
    assert forall|p: int| 0 <= p < 10 implies 0 <= #[trigger] counts.spec_points()[p] <= 416 by {
        assert(counts.rank@[9] <= 32);
        assert(counts.rank@[10] <= 32);
        assert(counts.rank@[11] <= 32);
        assert(counts.rank@[12] <= 32);
        if p > 0 {
            assert(counts.rank@[p - 1] <= 32);
        }
    }
}

/// Enumerates every finished hand of the shoe `counts`.
///
/// Refuses a shoe of fewer than six cards, which cannot always complete a
/// hand.
pub fn calculate_terminal_accumulator(counts: &ShoeCounts) -> (r: Result<TerminalAccumulator, CalculatorError>)
    requires
        counts.wf(),
    ensures
        counts.total < 6 ==> r == Err::<TerminalAccumulator, CalculatorError>(
            CalculatorError::InsufficientCards(counts.total as u32),
        ),
        counts.total >= 6 ==> r is Ok,
        r matches Ok(a) ==> a.of_shoe(counts.spec_points(), counts.total as int) && a.bounded(),
{
    let total_cards = counts.total as u32;
    if total_cards < 6 {
        return Err(CalculatorError::InsufficientCards(total_cards));
    }
    proof {
        lemma_shoe_bounds(counts);
    }
    let mut point_counts: Vec<u32> = Vec::new();
    let mut i: usize = 0;
    while i < 10
        invariant
            i <= 10,
            counts.wf(),
            point_counts@.len() == i,
            forall|j: int| 0 <= j < i ==> #[trigger] point_counts@[j] == counts.point@[j],
        decreases 10 - i,
    {
        point_counts.push(counts.point[i] as u32);
        i = i + 1;
    }
    proof {
        assert(counts_int(point_counts@) =~= counts.spec_points());
    }
    let denominator = falling_product(total_cards, 6);
    let mut weights: Vec<u128> = Vec::new();
    let mut k: usize = 0;
    while k < 800
        invariant
            k <= 800,
            weights@.len() == k,
            forall|j: int| 0 <= j < k ==> #[trigger] weights@[j] == 0,
        decreases 800 - k,
    {
        weights.push(0);
        k = k + 1;
    }
    proof {
        let c = counts_int(point_counts@);
        assert forall|k: int| 0 <= k < 800 implies #[trigger] weights@[k] + 1 * player_first_partial(
            c,
            total_cards as int,
            k,
            10,
        ) <= u128::MAX by {
            lemma_player_first_bounds(c, total_cards as int, k);
        }
    }
    accumulate_player_first(&mut weights, &mut point_counts, total_cards, 1);
    proof {
        let c = counts_int(point_counts@);
        assert forall|k: int| 0 <= k < 800 implies #[trigger] weights@[k] <= TERMINAL_WEIGHT_BOUND by {
            lemma_player_first_bounds(c, total_cards as int, k);
        }
    }
    Ok(TerminalAccumulator { denominator, weights })
}

} // verus!
