//! Every probability row of a shoe lies between zero and one.
use vstd::prelude::*;

use crate::bet_registry::{
    is_public_definition, lemma_public_row_count, lemma_public_rows_are_canonical, spec_bet_definitions,
    spec_public_definitions, BetDefinition, BetId, BetType,
};
use crate::calculation::{
    lemma_probability_rows_computed, lemma_registered_bet_computed, lemma_rows_follow_registry, shoe_weights,
    spec_aggregate_children, spec_opening_fold, spec_outcome_rows, spec_probability_for_definition,
    spec_probability_rows,
};
use crate::partition::{lemma_aggregate_breakdown_at_most_one, lemma_terminal_breakdown_at_most_one};
use crate::probability::{
    lemma_any_pair_at_most_one, lemma_color_at_most_one, lemma_fortune4_pairs_at_most_one, lemma_monkey_at_most_one,
    lemma_opening_families_share_denominators, lemma_perfect_pair_at_most_one, lemma_rank_total,
    lemma_same_rank_pair_at_most_one, lemma_tiger_pair_variants_at_most_one, spec_opening_two_stats, CardColor,
};
use crate::shoe::ShoeCounts;
use crate::terminal::falling;

verus! {

/// On a shoe of at least six cards, the probability of every registered
/// bet's row is at most one: its numerator never exceeds its denominator.
/// The tiger-pair family row is the exception: it adds up variants that
/// overlap (four identical cards also give both sides a pair), so on a
/// shoe of one card repeated it counts every deal twice.
#[verifier::spinoff_prover]
#[verifier::rlimit(40)]
pub proof fn lemma_row_probability_at_most_one(counts: ShoeCounts, id: BetId)
    requires
        counts.wf(),
        counts.total >= 6,
        id != BetId::TigerPairAggregate,
    ensures
        ({
            let r = spec_probability_for_definition(
                id.spec_definition(),
                spec_opening_two_stats(counts),
                shoe_weights(counts),
                falling(counts.total as int, 6),
            );
            r matches Ok(p) && p.numerator <= p.denominator
        }),
{
    let n = counts.total as int;
    let o = spec_opening_two_stats(counts);
    let w = shoe_weights(counts);
    let den = falling(n, 6);
    lemma_opening_families_share_denominators(counts);
    lemma_registered_bet_computed(id, o, w, den);
    lemma_rank_total(counts);
    let rank = counts.rank@;
    let card = counts.card@;
    match id {
        BetId::AnyPair => {
            lemma_any_pair_at_most_one(rank, n);
        },
        BetId::PlayerPair | BetId::BankerPair => {
            lemma_same_rank_pair_at_most_one(rank, n);
        },
        BetId::PerfectPair => {
            lemma_perfect_pair_at_most_one(card, n);
        },
        BetId::PlayerRed | BetId::BankerRed => {
            lemma_color_at_most_one(card, n, CardColor::Red);
        },
        BetId::PlayerBlack | BetId::BankerBlack => {
            lemma_color_at_most_one(card, n, CardColor::Black);
        },
        BetId::Monkey => {
            lemma_monkey_at_most_one(rank, n);
        },
        BetId::TigerPairPerfect | BetId::TigerPairBoth | BetId::TigerPairSingle => {
            lemma_tiger_pair_variants_at_most_one(rank, card, n);
        },
        BetId::BankerFortune4PairFortune30 | BetId::BankerFortune4PairFortune15
        | BetId::BankerFortune4PairFortune12 | BetId::BankerFortune4PairFortune9
        | BetId::PlayerFortune4PairFortune30 | BetId::PlayerFortune4PairFortune15
        | BetId::PlayerFortune4PairFortune12 | BetId::PlayerFortune4PairFortune9 => {
            lemma_fortune4_pairs_at_most_one(card, n);
        },
        BetId::BankerFortune4PairAggregate | BetId::PlayerFortune4PairAggregate => {
            lemma_fortune4_pairs_at_most_one(card, n);
            reveal_with_fuel(spec_opening_fold, 5);
        },
        _ => {
            lemma_terminal_breakdown_at_most_one(counts, id);
            if spec_aggregate_children(id.spec_definition()) is Some {
                lemma_aggregate_breakdown_at_most_one(counts, id.spec_definition());
            }
        },
    }
}

/// A public row is the registry's row for its identifier.
proof fn lemma_public_row_is_registered(i: int)
    requires
        0 <= i < spec_public_definitions().len(),
    ensures
        spec_public_definitions()[i] == spec_public_definitions()[i].id.spec_definition(),
        spec_public_definitions()[i].id.spec_is_public(),
{
    let all = spec_bet_definitions();
    let pred = |d: BetDefinition| is_public_definition(d);
    let d = spec_public_definitions()[i];
    assert(spec_public_definitions().contains(d));
    all.lemma_filter_contains_rev(pred, d);
    all.lemma_filter_pred(pred, i);
}

/// The probability rows of a shoe of at least six cards: 54 rows, the
/// public bets in registry order, each row at most one except the
/// tiger-pair family row, and outcome-bucket rows exactly for Perfect Pair
/// and Monkey.
pub proof fn lemma_probability_rows_of_shoe(counts: ShoeCounts)
    requires
        counts.wf(),
        counts.total >= 6,
    ensures
        ({
            let rows = spec_probability_rows(
                spec_opening_two_stats(counts),
                shoe_weights(counts),
                falling(counts.total as int, 6),
                0,
            );
            &&& rows is Ok
            &&& (rows->Ok_0).len() == 54
            &&& forall|i: int|
                0 <= i < 54 ==> {
                    let row = #[trigger] (rows->Ok_0)[i];
                    &&& row.0 == spec_public_definitions()[i].spec_bet_type()
                    &&& (row.0 != BetType::TigerPair ==> row.1.numerator <= row.1.denominator)
                    &&& (row.3.len() > 0 <==> (row.0 == BetType::PerfectPair || row.0 == BetType::Monkey))
                }
        }),
{
    let o = spec_opening_two_stats(counts);
    let w = shoe_weights(counts);
    let den = falling(counts.total as int, 6);
    lemma_opening_families_share_denominators(counts);
    lemma_probability_rows_computed(o, w, den);
    lemma_rows_follow_registry(o, w, den, 0);
    lemma_public_row_count();
    let rows = spec_probability_rows(o, w, den, 0)->Ok_0;
    assert forall|i: int| 0 <= i < 54 implies {
        let row = #[trigger] rows[i];
        &&& row.0 == spec_public_definitions()[i].spec_bet_type()
        &&& (row.0 != BetType::TigerPair ==> row.1.numerator <= row.1.denominator)
        &&& (row.3.len() > 0 <==> (row.0 == BetType::PerfectPair || row.0 == BetType::Monkey))
    } by {
        let d = spec_public_definitions()[i];
        lemma_public_row_is_registered(i);
        lemma_public_rows_are_canonical(d.id);
        assert(rows[i].0 == d.spec_bet_type());
        assert(rows[i].3 == spec_outcome_rows(d, o));
        if d.id != BetId::TigerPairAggregate {
            lemma_row_probability_at_most_one(counts, d.id);
        }
    }
}

} // verus!
