//! Every ordered six-card deal ends in exactly one finished hand: the
//! bucket weights of a shoe add up to the number of ordered deals.
use vstd::prelude::*;

use crate::bet_registry::BetId;
use crate::bet_registry::BetDefinition;
use crate::calculation::{
    aggregate_weight, matching_weight, shoe_weights, spec_aggregate_children, spec_aggregate_terminal_breakdown,
    spec_first_match, spec_standard, spec_terminal_breakdown, AggregateTerminalResult,
};
use crate::outcome::{bucket_outcome, spec_terminal_predicate, TerminalWinner};
use crate::probability::{card_count, lemma_rank_total};
use crate::shoe::{point_from_ranks, ShoeCounts};
use crate::sums::{
    lemma_sum_add, lemma_sum_ext, lemma_sum_le, lemma_sum_replace, lemma_sum_scale, lemma_sum_single,
    lemma_sum_split, sum_to,
};
use crate::terminal::{
    banker_after_player_partial, banker_after_player_term, banker_first_partial, banker_first_term,
    banker_only_partial, banker_only_term, banker_second_partial, banker_second_term, bucket, dec, falling, ind,
    lemma_player_first_bounds, lemma_shoe_bounds, natural_present, player_first_partial, player_first_term,
    player_second_partial, player_second_term, player_third_inner, player_third_partial, player_third_term,
    terminal_weight, third_phase, TERMINAL_WEIGHT_BOUND,
};

verus! {

/// Number of cards in the point counts `c`.
pub open spec fn point_total(c: Seq<int>) -> int {
    sum_to(|i: int| c[i], 10)
}

/// Sum of a bucket function over all buckets.
pub open spec fn over_buckets(f: spec_fn(int) -> int) -> int {
    sum_to(f, 800)
}

/// Sum over all buckets of column `p` of a bucket-by-point table.
pub open spec fn column_total(g: spec_fn(int, int) -> int, p: int) -> int {
    col_total(g, p, 800)
}

/// Sum of row `k` of a table over its first `m` columns.
pub open spec fn row_total(g: spec_fn(int, int) -> int, k: int, m: int) -> int {
    sum_to(|y: int| g(k, y), m)
}

/// Sum of column `y` of a table over its first `m` rows.
pub open spec fn col_total(g: spec_fn(int, int) -> int, y: int, m: int) -> int {
    sum_to(|k: int| g(k, y), m)
}

/// Swapping the order of a double sum.
pub proof fn lemma_sum_exchange(g: spec_fn(int, int) -> int, m1: int, m2: int)
    requires
        0 <= m1,
        0 <= m2,
    ensures
        sum_to(|k: int| row_total(g, k, m2), m1) == sum_to(|y: int| col_total(g, y, m1), m2),
    decreases m1,
{
    if m1 > 0 {
        let m0 = m1 - 1;
        lemma_sum_exchange(g, m0, m2);
        let before = |y: int| col_total(g, y, m0);
        let last = |y: int| g(m0, y);
        let after = |y: int| col_total(g, y, m1);
        lemma_sum_add(before, last, after, m2);
        lemma_sum_ext(|y: int| col_total(g, y, m0), before, m2);
        lemma_sum_ext(|y: int| col_total(g, y, m1), after, m2);
        assert(row_total(g, m0, m2) == sum_to(last, m2)) by {
            lemma_sum_ext(last, |y: int| g(m0, y), m2);
        }
    } else {
        crate::sums::lemma_sum_zero(|y: int| col_total(g, y, m1), m2);
    }
}

/// A bucket indicator of a valid bucket adds up to its weight.
proof fn lemma_ind_total(b: int, w: int)
    requires
        0 <= b < 800,
    ensures
        over_buckets(|k: int| ind(k, b, w)) == w,
{
    lemma_sum_single(|k: int| ind(k, b, w), 800, b);
}

proof fn lemma_bucket_range(pt: int, bt: int, pl: int, bl: int, natural: bool)
    requires
        0 <= pt < 10,
        0 <= bt < 10,
        2 <= pl <= 3,
        2 <= bl <= 3,
    ensures
        0 <= bucket(pt, bt, pl, bl, natural) < 800,
{
}

/// Decoding a bucket index and encoding the finished hand gives the index
/// back.
pub proof fn lemma_bucket_decode_encode(k: int)
    requires
        0 <= k < 800,
    ensures
        ({
            let o = bucket_outcome(k);
            bucket(o.player_total as int, o.banker_total as int, o.player_len as int, o.banker_len as int, o.natural)
                == k
        }),
{
    let pt = k / 80;
    let bt = (k / 8) % 10;
    let pl = (k / 4) % 2 + 2;
    let bl = (k / 2) % 2 + 2;
    let natural = k % 2 == 1;
    assert(0 <= pt < 10 && 0 <= bt < 10);
    assert(k == (((pt * 10 + bt) * 2 + (pl - 2)) * 2 + (bl - 2)) * 2 + if natural {
        1int
    } else {
        0int
    });
    let o = bucket_outcome(k);
    assert(o.player_total == pt && o.banker_total == bt && o.player_len == pl && o.banker_len == bl && o.natural
        == natural);
}

/// Encoding a finished hand (totals under ten, two or three cards a side)
/// and decoding the index gives the hand back.
pub proof fn lemma_bucket_encode_decode(pt: int, bt: int, pl: int, bl: int, natural: bool)
    requires
        0 <= pt < 10,
        0 <= bt < 10,
        2 <= pl <= 3,
        2 <= bl <= 3,
    ensures
        0 <= bucket(pt, bt, pl, bl, natural) < 800,
        bucket_outcome(bucket(pt, bt, pl, bl, natural)) == crate::outcome::spec_from_totals(pt, bt, pl, bl, natural),
{
    let k = bucket(pt, bt, pl, bl, natural);
    let n: int = if natural {
        1
    } else {
        0
    };
    let low = 4 * (pl - 2) + 2 * (bl - 2) + n;
    assert(k == 8 * (10 * pt + bt) + low);
    assert(0 <= low < 8);
    assert(k / 8 == 10 * pt + bt) by (nonlinear_arith)
        requires
            k == 8 * (10 * pt + bt) + low,
            0 <= low < 8,
    ;
    assert(k / 80 == pt) by (nonlinear_arith)
        requires
            k == 80 * pt + (8 * bt + low),
            0 <= 8 * bt + low < 80,
    ;
    assert((k / 8) % 10 == bt) by (nonlinear_arith)
        requires
            k / 8 == 10 * pt + bt,
            0 <= bt < 10,
    ;
    assert(k / 4 == 2 * (10 * pt + bt) + (pl - 2) && (k / 4) % 2 == pl - 2) by (nonlinear_arith)
        requires
            k == 4 * (2 * (10 * pt + bt) + (pl - 2)) + (2 * (bl - 2) + n),
            0 <= 2 * (bl - 2) + n < 4,
            0 <= pl - 2 < 2,
    ;
    assert(k / 2 == 2 * (2 * (10 * pt + bt) + (pl - 2)) + (bl - 2) && (k / 2) % 2 == bl - 2) by (nonlinear_arith)
        requires
            k == 2 * (2 * (2 * (10 * pt + bt) + (pl - 2)) + (bl - 2)) + n,
            0 <= n < 2,
            0 <= bl - 2 < 2,
    ;
    assert(k % 2 == n) by (nonlinear_arith)
        requires
            k == 2 * (2 * (2 * (10 * pt + bt) + (pl - 2)) + (bl - 2)) + n,
            0 <= n < 2,
    ;
}

/// One card of point `x` dealt: one card fewer.
proof fn lemma_dec_total(c: Seq<int>, x: int)
    requires
        c.len() == 10,
        0 <= x < 10,
    ensures
        point_total(dec(c, x)) == point_total(c) - 1,
        dec(c, x).len() == 10,
{
    let d = dec(c, x);
    lemma_sum_replace(|i: int| c[i], |i: int| d[i], 10, x);
}

/// A double sum whose columns `p` add up to `c[p] * v` adds up to
/// `v` times the cards of `c`.
proof fn lemma_level_total(g: spec_fn(int, int) -> int, c: Seq<int>, v: int)
    requires
        c.len() == 10,
        forall|p: int| 0 <= p < 10 ==> #[trigger] column_total(g, p) == c[p] * v,
    ensures
        sum_to(|k: int| row_total(g, k, 10), 800) == v * point_total(c),
{
    lemma_sum_exchange(g, 800, 10);
    let cols = |p: int| col_total(g, p, 800);
    let scaled = |p: int| v * c[p];
    assert forall|p: int| 0 <= p < 10 implies #[trigger] cols(p) == scaled(p) by {
        assert(column_total(g, p) == c[p] * v);
        assert(c[p] * v == v * c[p]) by (nonlinear_arith);
    }
    lemma_sum_ext(cols, scaled, 10);
    lemma_sum_scale(|i: int| c[i], scaled, v, 10);
}

/// A column `c[p] * inner(k)` adds up to `c[p]` times the total of `inner`.
proof fn lemma_column(inner: spec_fn(int) -> int, col: spec_fn(int) -> int, a: int, v: int)
    requires
        over_buckets(inner) == v,
        forall|k: int| 0 <= k < 800 ==> #[trigger] col(k) == a * inner(k),
    ensures
        sum_to(col, 800) == a * v,
{
    lemma_sum_scale(inner, col, a, 800);
}

proof fn lemma_banker_after_player_total(c: Seq<int>, pt: int, bt: int, x: int, natural: bool)
    requires
        c.len() == 10,
        0 <= pt < 10,
        0 <= bt < 10,
        0 <= x < 10,
    ensures
        over_buckets(|k: int| banker_after_player_partial(c, pt, bt, x, natural, k, 10)) == point_total(c),
{
    let g = |k: int, y: int| banker_after_player_term(c, pt, bt, x, natural, k, y);
    assert forall|p: int| 0 <= p < 10 implies #[trigger] column_total(g, p) == c[p] * 1 by {
        let b = bucket((pt + x) % 10, (bt + p) % 10, 3, 3, natural);
        lemma_bucket_range((pt + x) % 10, (bt + p) % 10, 3, 3, natural);
        lemma_ind_total(b, 1);
        lemma_column(|k: int| ind(k, b, 1), |k: int| g(k, p), c[p], 1);
    }
    lemma_level_total(g, c, 1);
    assert forall|k: int| 0 <= k < 800 implies #[trigger] banker_after_player_partial(c, pt, bt, x, natural, k, 10)
        == row_total(g, k, 10) by {
        lemma_sum_ext(|y: int| banker_after_player_term(c, pt, bt, x, natural, k, y), |p: int| g(k, p), 10);
    }
    lemma_sum_ext(
        |k: int| banker_after_player_partial(c, pt, bt, x, natural, k, 10),
        |k: int| row_total(g, k, 10),
        800,
    );
}

proof fn lemma_player_third_inner_total(c: Seq<int>, n: int, pt: int, bt: int, x: int, natural: bool)
    requires
        c.len() == 10,
        point_total(c) == n,
        0 <= pt < 10,
        0 <= bt < 10,
        0 <= x < 10,
    ensures
        over_buckets(|k: int| player_third_inner(c, n, pt, bt, x, natural, k)) == n,
{
    let f = |k: int| player_third_inner(c, n, pt, bt, x, natural, k);
    if crate::standard_baccarat::spec_banker_draws(bt, Some(x), natural) {
        lemma_banker_after_player_total(c, pt, bt, x, natural);
        lemma_sum_ext(f, |k: int| banker_after_player_partial(c, pt, bt, x, natural, k, 10), 800);
    } else {
        let b = bucket((pt + x) % 10, bt, 3, 2, natural);
        lemma_bucket_range((pt + x) % 10, bt, 3, 2, natural);
        lemma_ind_total(b, n);
        lemma_sum_ext(f, |k: int| ind(k, b, n), 800);
    }
}

proof fn lemma_third_phase_total(c: Seq<int>, n: int, pt: int, bt: int)
    requires
        c.len() == 10,
        point_total(c) == n,
        0 <= pt < 10,
        0 <= bt < 10,
    ensures
        over_buckets(|k: int| third_phase(c, n, pt, bt, k)) == n * (n - 1),
{
    let natural = natural_present(pt, bt);
    let f = |k: int| third_phase(c, n, pt, bt, k);
    assert((n - 1) * n == n * (n - 1)) by (nonlinear_arith);
    if crate::standard_baccarat::spec_player_draws(pt, natural) {
        let g = |k: int, x: int| player_third_term(c, n, pt, bt, natural, k, x);
        assert forall|p: int| 0 <= p < 10 implies #[trigger] column_total(g, p) == c[p] * (n - 1) by {
            lemma_dec_total(c, p);
            lemma_player_third_inner_total(dec(c, p), n - 1, pt, bt, p, natural);
            lemma_column(
                |k: int| player_third_inner(dec(c, p), n - 1, pt, bt, p, natural, k),
                |k: int| g(k, p),
                c[p],
                n - 1,
            );
        }
        lemma_level_total(g, c, n - 1);
        assert forall|k: int| 0 <= k < 800 implies #[trigger] f(k) == row_total(g, k, 10) by {
            lemma_sum_ext(|x: int| player_third_term(c, n, pt, bt, natural, k, x), |p: int| g(k, p), 10);
        }
        lemma_sum_ext(f, |k: int| row_total(g, k, 10), 800);
    } else if crate::standard_baccarat::spec_banker_draws(bt, None, natural) {
        let g = |k: int, y: int| banker_only_term(c, n, pt, bt, natural, k, y);
        assert forall|p: int| 0 <= p < 10 implies #[trigger] column_total(g, p) == c[p] * (n - 1) by {
            let b = bucket(pt, (bt + p) % 10, 2, 3, natural);
            lemma_bucket_range(pt, (bt + p) % 10, 2, 3, natural);
            lemma_ind_total(b, n - 1);
            lemma_column(|k: int| ind(k, b, n - 1), |k: int| g(k, p), c[p], n - 1);
        }
        lemma_level_total(g, c, n - 1);
        assert forall|k: int| 0 <= k < 800 implies #[trigger] f(k) == row_total(g, k, 10) by {
            lemma_sum_ext(|y: int| banker_only_term(c, n, pt, bt, natural, k, y), |p: int| g(k, p), 10);
        }
        lemma_sum_ext(f, |k: int| row_total(g, k, 10), 800);
    } else {
        let b = bucket(pt, bt, 2, 2, natural);
        lemma_bucket_range(pt, bt, 2, 2, natural);
        lemma_ind_total(b, n * (n - 1));
        lemma_sum_ext(f, |k: int| ind(k, b, n * (n - 1)), 800);
    }
}

/// `falling(n, d) == n * falling(n - 1, d - 1)`.
proof fn lemma_falling_step(n: int, d: int)
    requires
        d >= 1,
    ensures
        falling(n, d) == n * falling(n - 1, d - 1),
    decreases d,
{
    if d > 1 {
        lemma_falling_step(n, d - 1);
        let a = falling(n - 1, d - 2);
        assert(n * a * (n - (d - 1)) == n * (a * (n - 1 - (d - 2)))) by (nonlinear_arith);
    } else {
        assert(falling(n, 1) == falling(n, 0) * n);
    }
}

proof fn lemma_banker_second_total(c: Seq<int>, n: int, p1: int, b1: int, p2: int)
    requires
        c.len() == 10,
        point_total(c) == n,
    ensures
        over_buckets(|k: int| banker_second_partial(c, n, p1, b1, p2, k, 10)) == falling(n, 3),
{
    let g = |k: int, b2: int| banker_second_term(c, n, p1, b1, p2, k, b2);
    let v = (n - 1) * (n - 2);
    assert forall|p: int| 0 <= p < 10 implies #[trigger] column_total(g, p) == c[p] * v by {
        lemma_dec_total(c, p);
        lemma_third_phase_total(dec(c, p), n - 1, (p1 + p2) % 10, (b1 + p) % 10);
        lemma_column(
            |k: int| third_phase(dec(c, p), n - 1, (p1 + p2) % 10, (b1 + p) % 10, k),
            |k: int| g(k, p),
            c[p],
            v,
        );
    }
    lemma_level_total(g, c, v);
    assert forall|k: int| 0 <= k < 800 implies #[trigger] banker_second_partial(c, n, p1, b1, p2, k, 10) == sum_to(
        |p: int| g(k, p),
        10,
    ) by {
        lemma_sum_ext(|b2: int| banker_second_term(c, n, p1, b1, p2, k, b2), |p: int| g(k, p), 10);
    }
    lemma_sum_ext(
        |k: int| banker_second_partial(c, n, p1, b1, p2, k, 10),
        |k: int| row_total(g, k, 10),
        800,
    );
    reveal_with_fuel(falling, 4);
    assert(v * n == falling(n, 3)) by (nonlinear_arith)
        requires
            v == (n - 1) * (n - 2),
            falling(n, 3) == 1 * n * (n - 1) * (n - 2),
    ;
}

proof fn lemma_player_second_total(c: Seq<int>, n: int, p1: int, b1: int)
    requires
        c.len() == 10,
        point_total(c) == n,
    ensures
        over_buckets(|k: int| player_second_partial(c, n, p1, b1, k, 10)) == falling(n, 4),
{
    let g = |k: int, p2: int| player_second_term(c, n, p1, b1, k, p2);
    let v = falling(n - 1, 3);
    assert forall|p: int| 0 <= p < 10 implies #[trigger] column_total(g, p) == c[p] * v by {
        lemma_dec_total(c, p);
        lemma_banker_second_total(dec(c, p), n - 1, p1, b1, p);
        lemma_column(|k: int| banker_second_partial(dec(c, p), n - 1, p1, b1, p, k, 10), |k: int| g(k, p), c[p], v);
    }
    lemma_level_total(g, c, v);
    assert forall|k: int| 0 <= k < 800 implies #[trigger] player_second_partial(c, n, p1, b1, k, 10) == sum_to(
        |p: int| g(k, p),
        10,
    ) by {
        lemma_sum_ext(|p2: int| player_second_term(c, n, p1, b1, k, p2), |p: int| g(k, p), 10);
    }
    lemma_sum_ext(|k: int| player_second_partial(c, n, p1, b1, k, 10), |k: int| row_total(g, k, 10), 800);
    lemma_falling_step(n, 4);
    assert(v * n == n * v) by (nonlinear_arith);
}

proof fn lemma_banker_first_total(c: Seq<int>, n: int, p1: int)
    requires
        c.len() == 10,
        point_total(c) == n,
    ensures
        over_buckets(|k: int| banker_first_partial(c, n, p1, k, 10)) == falling(n, 5),
{
    let g = |k: int, b1: int| banker_first_term(c, n, p1, k, b1);
    let v = falling(n - 1, 4);
    assert forall|p: int| 0 <= p < 10 implies #[trigger] column_total(g, p) == c[p] * v by {
        lemma_dec_total(c, p);
        lemma_player_second_total(dec(c, p), n - 1, p1, p);
        lemma_column(|k: int| player_second_partial(dec(c, p), n - 1, p1, p, k, 10), |k: int| g(k, p), c[p], v);
    }
    lemma_level_total(g, c, v);
    assert forall|k: int| 0 <= k < 800 implies #[trigger] banker_first_partial(c, n, p1, k, 10) == sum_to(
        |p: int| g(k, p),
        10,
    ) by {
        lemma_sum_ext(|b1: int| banker_first_term(c, n, p1, k, b1), |p: int| g(k, p), 10);
    }
    lemma_sum_ext(|k: int| banker_first_partial(c, n, p1, k, 10), |k: int| row_total(g, k, 10), 800);
    lemma_falling_step(n, 5);
    assert(v * n == n * v) by (nonlinear_arith);
}

/// Every ordered six-card deal from a shoe with point counts `c` ends in
/// exactly one finished hand: the bucket weights add up to
/// `n * (n - 1) * ... * (n - 5)`.
pub proof fn lemma_terminal_weights_total(c: Seq<int>, n: int)
    requires
        c.len() == 10,
        point_total(c) == n,
    ensures
        over_buckets(|k: int| terminal_weight(c, n, k)) == falling(n, 6),
{
    let g = |k: int, p1: int| player_first_term(c, n, k, p1);
    let v = falling(n - 1, 5);
    assert forall|p: int| 0 <= p < 10 implies #[trigger] column_total(g, p) == c[p] * v by {
        lemma_dec_total(c, p);
        lemma_banker_first_total(dec(c, p), n - 1, p);
        lemma_column(|k: int| banker_first_partial(dec(c, p), n - 1, p, k, 10), |k: int| g(k, p), c[p], v);
    }
    lemma_level_total(g, c, v);
    assert forall|k: int| 0 <= k < 800 implies #[trigger] terminal_weight(c, n, k) == row_total(g, k, 10) by {
        lemma_sum_ext(|p1: int| player_first_term(c, n, k, p1), |p: int| g(k, p), 10);
    }
    lemma_sum_ext(|k: int| terminal_weight(c, n, k), |k: int| row_total(g, k, 10), 800);
    lemma_falling_step(n, 6);
    assert(v * n == n * v) by (nonlinear_arith);
}

/// The point counts of a consistent shoe count every card once.
proof fn lemma_points_total(counts: ShoeCounts)
    requires
        counts.wf(),
    ensures
        point_total(counts.spec_points()) == counts.total,
{
    lemma_rank_total(counts);
    let c = counts.spec_points();
    let rk = counts.rank@;
    let pts = |i: int| c[i];
    let tail = |i: int| pts(1 + i);
    lemma_sum_split(pts, tail, 1, 9);
    let ranks = |r: int| rk[r] as int;
    let high = |i: int| ranks(9 + i);
    lemma_sum_split(ranks, high, 9, 4);
    lemma_sum_ext(tail, |i: int| ranks(i), 9);
    lemma_sum_ext(|i: int| ranks(i), ranks, 9);
    assert(c[0] == point_from_ranks(rk, 0));
    reveal_with_fuel(sum_to, 5);
    assert(sum_to(high, 4) == rk[9] + rk[10] + rk[11] + rk[12]);
    assert(sum_to(pts, 1) == c[0]);
    lemma_sum_ext(|r: int| rk[r] as int, ranks, 13);
}

/// The number of ordered six-card deals is positive once six cards remain.
proof fn lemma_falling_positive(n: int, d: int)
    requires
        0 <= d <= n,
    ensures
        falling(n, d) > 0,
    decreases d,
{
    if d > 0 {
        lemma_falling_positive(n, d - 1);
        let a = falling(n, d - 1);
        assert(a * (n - (d - 1)) > 0) by (nonlinear_arith)
            requires
                a > 0,
                n - (d - 1) > 0,
        ;
    }
}

/// Player, banker and tie split every ordered six-card deal of a shoe: their
/// weights add up to the number of ordered deals, which is positive once six
/// cards remain, so the three probabilities share that denominator and add
/// up to one.
pub proof fn lemma_standard_outcomes_partition(counts: ShoeCounts)
    requires
        counts.wf(),
        counts.total >= 6,
    ensures
        matching_weight(shoe_weights(counts), BetId::Player, 800) + matching_weight(
            shoe_weights(counts),
            BetId::Banker,
            800,
        ) + matching_weight(shoe_weights(counts), BetId::Tie, 800) == falling(counts.total as int, 6),
        falling(counts.total as int, 6) > 0,
        spec_standard(shoe_weights(counts), falling(counts.total as int, 6)).player.denominator == falling(
            counts.total as int,
            6,
        ),
        spec_standard(shoe_weights(counts), falling(counts.total as int, 6)).banker.denominator == falling(
            counts.total as int,
            6,
        ),
        spec_standard(shoe_weights(counts), falling(counts.total as int, 6)).tie.denominator == falling(
            counts.total as int,
            6,
        ),
{
    let n = counts.total as int;
    let w = shoe_weights(counts);
    lemma_shoe_weights_total(counts);
    let wi = |k: int| w[k] as int;
    let pw = |k: int| if spec_terminal_predicate(BetId::Player, bucket_outcome(k)) { w[k] as int } else { 0int };
    let bw = |k: int| if spec_terminal_predicate(BetId::Banker, bucket_outcome(k)) { w[k] as int } else { 0int };
    let tw = |k: int| if spec_terminal_predicate(BetId::Tie, bucket_outcome(k)) { w[k] as int } else { 0int };
    let pb = |k: int| pw(k) + bw(k);
    lemma_sum_add(pw, bw, pb, 800);
    assert forall|k: int| 0 <= k < 800 implies #[trigger] wi(k) == pb(k) + tw(k) by {
        let o = bucket_outcome(k);
        if o.winner == TerminalWinner::Player {
        } else if o.winner == TerminalWinner::Banker {
        } else {
        }
    }
    lemma_sum_add(pb, tw, wi, 800);
}

/// The weights of a shoe of at least six cards add up to the number of
/// ordered six-card deals, a positive count that fits `u128`.
pub proof fn lemma_shoe_weights_total(counts: ShoeCounts)
    requires
        counts.wf(),
        counts.total >= 6,
    ensures
        sum_to(|k: int| shoe_weights(counts)[k] as int, 800) == falling(counts.total as int, 6),
        0 < falling(counts.total as int, 6) <= 416 * 415 * 414 * 413 * 412 * 411,
{
    let n = counts.total as int;
    let c = counts.spec_points();
    let w = shoe_weights(counts);
    lemma_points_total(counts);
    lemma_shoe_bounds(&counts);
    lemma_terminal_weights_total(c, n);
    lemma_falling_positive(n, 6);
    assert forall|k: int| 0 <= k < 800 implies #[trigger] w[k] as int == terminal_weight(c, n, k) by {
        lemma_player_first_bounds(c, n, k);
    }
    let wi = |k: int| w[k] as int;
    lemma_sum_ext(|k: int| terminal_weight(c, n, k), wi, 800);
    assert(falling(n, 6) <= 416 * 415 * 414 * 413 * 412 * 411) by {
        reveal_with_fuel(falling, 7);
        assert(falling(n, 6) == n * (n - 1) * (n - 2) * (n - 3) * (n - 4) * (n - 5));
        assert(n * (n - 1) * (n - 2) * (n - 3) * (n - 4) * (n - 5) <= 416 * 415 * 414 * 413 * 412 * 411) by (
        nonlinear_arith)
            requires
                6 <= n <= 416,
        ;
    }
}

/// On a shoe of at least six cards, a finished-hand bet's win and push
/// probabilities share the deal count as denominator and add up to at most
/// one.
pub proof fn lemma_terminal_breakdown_at_most_one(counts: ShoeCounts, id: BetId)
    requires
        counts.wf(),
        counts.total >= 6,
    ensures
        ({
            let b = spec_terminal_breakdown(shoe_weights(counts), falling(counts.total as int, 6), id);
            &&& b.win.numerator + b.push.numerator <= falling(counts.total as int, 6)
            &&& b.win.denominator == falling(counts.total as int, 6) || b.win.numerator == 0
            &&& b.push.denominator == falling(counts.total as int, 6) || b.push.numerator == 0
        }),
{
    let w = shoe_weights(counts);
    lemma_shoe_weights_total(counts);
    let m = |k: int| if spec_terminal_predicate(id, bucket_outcome(k)) { w[k] as int } else { 0int };
    lemma_sum_le(m, |k: int| w[k] as int, 800);
    crate::sums::lemma_sum_bounds(m, 800, u128::MAX as int);
}

proof fn lemma_aggregate_weights_at_most(counts: ShoeCounts, children: Seq<BetId>)
    requires
        counts.wf(),
        counts.total >= 6,
    ensures
        0 <= aggregate_weight(shoe_weights(counts), children, AggregateTerminalResult::Win, 800),
        0 <= aggregate_weight(shoe_weights(counts), children, AggregateTerminalResult::Push, 800),
        aggregate_weight(shoe_weights(counts), children, AggregateTerminalResult::Win, 800) + aggregate_weight(
            shoe_weights(counts),
            children,
            AggregateTerminalResult::Push,
            800,
        ) <= falling(counts.total as int, 6),
{
    let w = shoe_weights(counts);
    lemma_shoe_weights_total(counts);
    let win = |k: int|
        if spec_first_match(children, bucket_outcome(k), 0) == Some(AggregateTerminalResult::Win) {
            w[k] as int
        } else {
            0int
        };
    let push = |k: int|
        if spec_first_match(children, bucket_outcome(k), 0) == Some(AggregateTerminalResult::Push) {
            w[k] as int
        } else {
            0int
        };
    let both = |k: int| win(k) + push(k);
    lemma_sum_add(win, push, both, 800);
    lemma_sum_le(both, |k: int| w[k] as int, 800);
    crate::sums::lemma_sum_bounds(win, 800, u128::MAX as int);
    crate::sums::lemma_sum_bounds(push, 800, u128::MAX as int);
}

/// On a shoe of at least six cards, an aggregate bet settled on finished
/// hands wins or pushes on at most every deal: its win and push
/// probabilities share the deal count as denominator and add up to at most
/// one.
pub proof fn lemma_aggregate_breakdown_at_most_one(counts: ShoeCounts, d: BetDefinition)
    requires
        counts.wf(),
        counts.total >= 6,
        spec_aggregate_children(d) is Some,
    ensures
        ({
            let b = spec_aggregate_terminal_breakdown(shoe_weights(counts), falling(counts.total as int, 6), d)->Some_0;
            &&& b.win.numerator + b.push.numerator <= falling(counts.total as int, 6)
            &&& b.win.denominator == falling(counts.total as int, 6)
            &&& b.push.denominator == falling(counts.total as int, 6)
        }),
{
    let children = spec_aggregate_children(d)->Some_0;
    lemma_aggregate_weights_at_most(counts, children);
    lemma_shoe_weights_total(counts);
}

/// On every finished hand, at most one child of an aggregate bet wins or
/// pushes, so settling by the first matching child is settling by any
/// matching child.
pub proof fn lemma_aggregate_children_exclusive(d: BetDefinition, k: int, i: int, j: int)
    requires
        spec_aggregate_children(d) is Some,
        0 <= k < 800,
        0 <= i < j < (spec_aggregate_children(d)->Some_0).len(),
    ensures
        !(spec_terminal_predicate((spec_aggregate_children(d)->Some_0)[i], bucket_outcome(k))
            && spec_terminal_predicate((spec_aggregate_children(d)->Some_0)[j], bucket_outcome(k))),
{
}

} // verus!
