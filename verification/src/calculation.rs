//! Exact probabilities of every registered bet: finished-hand sums,
//! aggregates, and the public probability rows.
use vstd::prelude::*;

use crate::bet_registry::{
    bet_definitions, public_probability_definitions, spec_bet_definitions, spec_public_definitions, is_public_definition, BetClass,
    BetDefinition, BetId, BetType, BetVariant,
};
use crate::cards::CardCount;
use crate::error::CalculatorError;
use crate::shoe::ShoeCounts;
use crate::terminal::{calculate_terminal_accumulator, falling, terminal_weight};
use crate::BetOutcome;
use crate::outcome::{
    bucket_outcome, spec_terminal_predicate, terminal_outcome_from_index, terminal_predicate_matches,
    TerminalWinner,
};
use crate::probability::{
    lemma_opening_families_share_denominators, spec_opening_probability_for, spec_opening_two_stats, spec_ratio, OpeningTwoStats, ProbabilityRatio,
    OPENING_NUMERATOR_BOUND,
};
use crate::sums::sum_to;
use crate::terminal::{TerminalAccumulator, TERMINAL_WEIGHT_BOUND};

verus! {

/// Weight of the first `m` buckets whose finished hand wins the bet `id`.
pub open spec fn matching_weight(w: Seq<u128>, id: BetId, m: int) -> int {
    sum_to(|k: int| if spec_terminal_predicate(id, bucket_outcome(k)) { w[k] as int } else { 0int }, m)
}

/// Exact probability that a finished hand wins the bet: matching weight over
/// the number of ordered deals.
pub fn terminal_probability(accumulator: &TerminalAccumulator, definition: &BetDefinition) -> (r:
    ProbabilityRatio)
    requires
        accumulator.bounded(),
    ensures
        r == spec_ratio(
            matching_weight(accumulator.weights@, definition.id, 800),
            accumulator.denominator as int,
        ),
        r.numerator <= 800 * TERMINAL_WEIGHT_BOUND,
{
    let mut numerator: u128 = 0;
    let mut k: usize = 0;
    while k < 800
        invariant
            k <= 800,
            accumulator.bounded(),
            numerator == matching_weight(accumulator.weights@, definition.id, k as int),
            numerator <= k * TERMINAL_WEIGHT_BOUND,
        decreases 800 - k,
    {
        let outcome = terminal_outcome_from_index(k);
        if terminal_predicate_matches(definition, outcome) {
            numerator = numerator + accumulator.weights[k];
        }
        k = k + 1;
    }
    ProbabilityRatio::new(numerator, accumulator.denominator)
}

/// Exact win and push probabilities of one bet.
#[derive(Clone, Copy, Debug, PartialEq, Eq, Structural)]
pub struct OutcomeBreakdown {
    pub win: ProbabilityRatio,
    pub push: ProbabilityRatio,
}

/// A finished-hand bet's probability counts as a push for push rows and as a
/// win otherwise.
pub open spec fn spec_terminal_breakdown(w: Seq<u128>, den: int, id: BetId) -> OutcomeBreakdown {
    let p = spec_ratio(matching_weight(w, id, 800), den);
    if id.spec_is_push_result() {
        OutcomeBreakdown { win: spec_ratio(0, 0), push: p }
    } else {
        OutcomeBreakdown { win: p, push: spec_ratio(0, 0) }
    }
}

/// Win and push probabilities of a finished-hand bet.
pub fn terminal_probability_breakdown(accumulator: &TerminalAccumulator, definition: &BetDefinition) -> (r:
    OutcomeBreakdown)
    requires
        accumulator.bounded(),
    ensures
        r == spec_terminal_breakdown(accumulator.weights@, accumulator.denominator as int, definition.id),
{
    let probability = terminal_probability(accumulator, definition);
    if definition.id.is_push_result() {
        OutcomeBreakdown { win: ProbabilityRatio::zero(), push: probability }
    } else {
        OutcomeBreakdown { win: probability, push: ProbabilityRatio::zero() }
    }
}

/// What an aggregate bet does on a finished hand.
#[derive(Clone, Copy, Debug, PartialEq, Eq, Structural)]
pub enum AggregateTerminalResult {
    Win,
    Push,
}

/// The result of the first child, from position `i` on, that the finished
/// hand wins: a push for a push child, a win otherwise.
pub open spec fn spec_first_match(children: Seq<BetId>, o: crate::outcome::TerminalOutcome, i: int) -> Option<
    AggregateTerminalResult,
>
    decreases children.len() - i,
{
    if i < 0 || i >= children.len() {
        None
    } else if spec_terminal_predicate(children[i], o) {
        Some(
            if children[i].spec_is_push_result() {
                AggregateTerminalResult::Push
            } else {
                AggregateTerminalResult::Win
            },
        )
    } else {
        spec_first_match(children, o, i + 1)
    }
}

/// The result of the first child that the finished hand wins.
pub fn aggregate_terminal_result(child_ids: &[BetId], outcome: crate::outcome::TerminalOutcome) -> (r: Option<
    AggregateTerminalResult,
>)
    ensures
        r == spec_first_match(child_ids@, outcome, 0),
{
    let mut i: usize = 0;
    while i < child_ids.len()
        invariant
            i <= child_ids@.len(),
            spec_first_match(child_ids@, outcome, 0) == spec_first_match(child_ids@, outcome, i as int),
        decreases child_ids@.len() - i,
    {
        let child = child_ids[i].definition();
        if terminal_predicate_matches(&child, outcome) {
            return Some(
                if child_ids[i].is_push_result() {
                    AggregateTerminalResult::Push
                } else {
                    AggregateTerminalResult::Win
                },
            );
        }
        i = i + 1;
    }
    None
}

/// The six bets that Treasure All pays on.
pub open spec fn treasure_all_children() -> Seq<BetId> {
    seq![
        BetId::Dragon7,
        BetId::Panda8,
        BetId::Flame7sTwo,
        BetId::Flame7sThree,
        BetId::Heaven9Both,
        BetId::Heaven9Single,
    ]
}

/// The finished-hand children of an aggregate bet, in the order they are
/// tried.
pub open spec fn spec_aggregate_terminal_ids(id: BetId) -> Option<Seq<BetId>> {
    match id {
        BetId::PlayerDragonAggregate => Some(
            seq![
                BetId::PlayerDragonPush,
                BetId::PlayerDragonNatural,
                BetId::PlayerDragonPoint4,
                BetId::PlayerDragonPoint5,
                BetId::PlayerDragonPoint6,
                BetId::PlayerDragonPoint7,
                BetId::PlayerDragonPoint8,
                BetId::PlayerDragonPoint9,
            ],
        ),
        BetId::BankerDragonAggregate => Some(
            seq![
                BetId::BankerDragonPush,
                BetId::BankerDragonNatural,
                BetId::BankerDragonPoint4,
                BetId::BankerDragonPoint5,
                BetId::BankerDragonPoint6,
                BetId::BankerDragonPoint7,
                BetId::BankerDragonPoint8,
                BetId::BankerDragonPoint9,
            ],
        ),
        BetId::BankerNaturalAggregate => Some(seq![BetId::BankerNaturalPush, BetId::BankerNaturalWin]),
        BetId::PlayerNaturalAggregate => Some(seq![BetId::PlayerNaturalPush, BetId::PlayerNaturalWin]),
        BetId::Lucky6Aggregate => Some(seq![BetId::Lucky6Two, BetId::Lucky6Three]),
        BetId::TigerAggregate => Some(seq![BetId::TigerTwo, BetId::TigerThree]),
        BetId::BankerCharSiuAggregate => Some(
            seq![BetId::BankerCharSiuPoint4, BetId::BankerCharSiuPoint5, BetId::BankerCharSiuPoint6],
        ),
        BetId::PlayerCharSiuAggregate => Some(
            seq![BetId::PlayerCharSiuPoint4, BetId::PlayerCharSiuPoint5, BetId::PlayerCharSiuPoint6],
        ),
        BetId::Lucky7Aggregate => Some(seq![BetId::Lucky7Two, BetId::Lucky7Three]),
        BetId::SuperLucky7Aggregate => Some(
            seq![BetId::SuperLucky7Four, BetId::SuperLucky7Five, BetId::SuperLucky7Six],
        ),
        BetId::Flame7sAggregate => Some(seq![BetId::Flame7sTwo, BetId::Flame7sThree]),
        BetId::Heaven9Aggregate => Some(seq![BetId::Heaven9Both, BetId::Heaven9Single]),
        _ => None,
    }
}

/// The finished-hand children of an aggregate bet, in the order they are
/// tried; `None` for any other bet.
pub fn aggregate_terminal_ids(id: BetId) -> (r: Option<Vec<BetId>>)
    ensures
        match spec_aggregate_terminal_ids(id) {
            Some(s) => r matches Some(v) && v@ == s,
            None => r is None,
        },
{
    match id {
        BetId::PlayerDragonAggregate => Some(
            vec![
                BetId::PlayerDragonPush,
                BetId::PlayerDragonNatural,
                BetId::PlayerDragonPoint4,
                BetId::PlayerDragonPoint5,
                BetId::PlayerDragonPoint6,
                BetId::PlayerDragonPoint7,
                BetId::PlayerDragonPoint8,
                BetId::PlayerDragonPoint9,
            ],
        ),
        BetId::BankerDragonAggregate => Some(
            vec![
                BetId::BankerDragonPush,
                BetId::BankerDragonNatural,
                BetId::BankerDragonPoint4,
                BetId::BankerDragonPoint5,
                BetId::BankerDragonPoint6,
                BetId::BankerDragonPoint7,
                BetId::BankerDragonPoint8,
                BetId::BankerDragonPoint9,
            ],
        ),
        BetId::BankerNaturalAggregate => Some(vec![BetId::BankerNaturalPush, BetId::BankerNaturalWin]),
        BetId::PlayerNaturalAggregate => Some(vec![BetId::PlayerNaturalPush, BetId::PlayerNaturalWin]),
        BetId::Lucky6Aggregate => Some(vec![BetId::Lucky6Two, BetId::Lucky6Three]),
        BetId::TigerAggregate => Some(vec![BetId::TigerTwo, BetId::TigerThree]),
        BetId::BankerCharSiuAggregate => Some(
            vec![BetId::BankerCharSiuPoint4, BetId::BankerCharSiuPoint5, BetId::BankerCharSiuPoint6],
        ),
        BetId::PlayerCharSiuAggregate => Some(
            vec![BetId::PlayerCharSiuPoint4, BetId::PlayerCharSiuPoint5, BetId::PlayerCharSiuPoint6],
        ),
        BetId::Lucky7Aggregate => Some(vec![BetId::Lucky7Two, BetId::Lucky7Three]),
        BetId::SuperLucky7Aggregate => Some(
            vec![BetId::SuperLucky7Four, BetId::SuperLucky7Five, BetId::SuperLucky7Six],
        ),
        BetId::Flame7sAggregate => Some(vec![BetId::Flame7sTwo, BetId::Flame7sThree]),
        BetId::Heaven9Aggregate => Some(vec![BetId::Heaven9Both, BetId::Heaven9Single]),
        _ => None,
    }
}

/// The children an aggregate bet is settled by on a finished hand: Treasure
/// All's six, or those of `spec_aggregate_terminal_ids`; `None` for a bet
/// that is not an aggregate or has no finished-hand children.
pub open spec fn spec_aggregate_children(d: BetDefinition) -> Option<Seq<BetId>> {
    if d.class != BetClass::AggregateBet {
        None
    } else if d.id == BetId::TreasureAll {
        Some(treasure_all_children())
    } else {
        spec_aggregate_terminal_ids(d.id)
    }
}

/// Weight of the first `m` buckets on which the children give `result`.
pub open spec fn aggregate_weight(w: Seq<u128>, children: Seq<BetId>, result: AggregateTerminalResult, m: int) -> int {
    sum_to(
        |k: int|
            if spec_first_match(children, bucket_outcome(k), 0) == Some(result) {
                w[k] as int
            } else {
                0int
            },
        m,
    )
}

/// Win and push probabilities of an aggregate bet over finished hands.
pub open spec fn spec_aggregate_terminal_breakdown(w: Seq<u128>, den: int, d: BetDefinition) -> Option<
    OutcomeBreakdown,
> {
    match spec_aggregate_children(d) {
        None => None,
        Some(children) => Some(
            OutcomeBreakdown {
                win: spec_ratio(aggregate_weight(w, children, AggregateTerminalResult::Win, 800), den),
                push: spec_ratio(aggregate_weight(w, children, AggregateTerminalResult::Push, 800), den),
            },
        ),
    }
}

/// Win and push probabilities of an aggregate bet whose children are
/// finished-hand bets: each finished hand is settled by its first winning
/// child. `None` for any other bet.
pub fn aggregate_terminal_probability_breakdown(accumulator: &TerminalAccumulator, definition: &BetDefinition) -> (r:
    Option<OutcomeBreakdown>)
    requires
        accumulator.bounded(),
    ensures
        r == spec_aggregate_terminal_breakdown(accumulator.weights@, accumulator.denominator as int, *definition),
{
    if definition.class != BetClass::AggregateBet {
        return None;
    }
    let child_ids = if definition.id == BetId::TreasureAll {
        let v = vec![
            BetId::Dragon7,
            BetId::Panda8,
            BetId::Flame7sTwo,
            BetId::Flame7sThree,
            BetId::Heaven9Both,
            BetId::Heaven9Single,
        ];
        assert(v@ == treasure_all_children());
        v
    } else {
        match aggregate_terminal_ids(definition.id) {
            Some(ids) => ids,
            None => {
                return None;
            },
        }
    };
    let mut win_weight: u128 = 0;
    let mut push_weight: u128 = 0;
    let mut k: usize = 0;
    while k < 800
        invariant
            k <= 800,
            accumulator.bounded(),
            win_weight == aggregate_weight(accumulator.weights@, child_ids@, AggregateTerminalResult::Win, k as int),
            push_weight == aggregate_weight(
                accumulator.weights@,
                child_ids@,
                AggregateTerminalResult::Push,
                k as int,
            ),
            win_weight <= k * TERMINAL_WEIGHT_BOUND,
            push_weight <= k * TERMINAL_WEIGHT_BOUND,
        decreases 800 - k,
    {
        let outcome = terminal_outcome_from_index(k);
        match aggregate_terminal_result(&child_ids, outcome) {
            Some(AggregateTerminalResult::Win) => {
                win_weight = win_weight + accumulator.weights[k];
            },
            Some(AggregateTerminalResult::Push) => {
                push_weight = push_weight + accumulator.weights[k];
            },
            None => {},
        }
        k = k + 1;
    }
    let denominator = accumulator.denominator;
    Some(
        OutcomeBreakdown {
            win: ProbabilityRatio::new(win_weight, denominator),
            push: ProbabilityRatio::new(push_weight, denominator),
        },
    )
}

/// The opening-card children of an aggregate bet.
pub open spec fn spec_aggregate_opening_ids(id: BetId) -> Option<Seq<BetId>> {
    match id {
        BetId::TigerPairAggregate => Some(seq![BetId::TigerPairPerfect, BetId::TigerPairBoth, BetId::TigerPairSingle]),
        BetId::BankerFortune4PairAggregate => Some(
            seq![
                BetId::BankerFortune4PairFortune30,
                BetId::BankerFortune4PairFortune15,
                BetId::BankerFortune4PairFortune12,
                BetId::BankerFortune4PairFortune9,
            ],
        ),
        BetId::PlayerFortune4PairAggregate => Some(
            seq![
                BetId::PlayerFortune4PairFortune30,
                BetId::PlayerFortune4PairFortune15,
                BetId::PlayerFortune4PairFortune12,
                BetId::PlayerFortune4PairFortune9,
            ],
        ),
        _ => None,
    }
}

/// The opening-card children of an aggregate bet; `None` for any other bet.
pub fn aggregate_opening_ids(id: BetId) -> (r: Option<Vec<BetId>>)
    ensures
        match spec_aggregate_opening_ids(id) {
            Some(s) => r matches Some(v) && v@ == s,
            None => r is None,
        },
{
    match id {
        BetId::TigerPairAggregate => Some(vec![BetId::TigerPairPerfect, BetId::TigerPairBoth, BetId::TigerPairSingle]),
        BetId::BankerFortune4PairAggregate => Some(
            vec![
                BetId::BankerFortune4PairFortune30,
                BetId::BankerFortune4PairFortune15,
                BetId::BankerFortune4PairFortune12,
                BetId::BankerFortune4PairFortune9,
            ],
        ),
        BetId::PlayerFortune4PairAggregate => Some(
            vec![
                BetId::PlayerFortune4PairFortune30,
                BetId::PlayerFortune4PairFortune15,
                BetId::PlayerFortune4PairFortune12,
                BetId::PlayerFortune4PairFortune9,
            ],
        ),
        _ => None,
    }
}

/// Children `i..` of an opening-card aggregate, added to the numerator
/// `num` over the shared denominator `den` of the children before them: an
/// error for a child without a probability, `None` where two children's
/// denominators differ.
pub open spec fn spec_opening_fold(
    o: OpeningTwoStats,
    children: Seq<BetId>,
    i: int,
    den: Option<u128>,
    num: int,
) -> Result<Option<OutcomeBreakdown>, CalculatorError>
    decreases children.len() - i,
{
    if i < 0 || i >= children.len() {
        match den {
            None => Ok(None),
            Some(d) => Ok(Some(OutcomeBreakdown { win: spec_ratio(num, d as int), push: spec_ratio(0, 0) })),
        }
    } else {
        match spec_opening_probability_for(o, children[i].spec_definition()) {
            None => Err(CalculatorError::OpeningAggregateChildWithoutCoverage(children[i])),
            Some(ratio) => match den {
                Some(d) if d != ratio.denominator => Ok(None),
                _ => spec_opening_fold(o, children, i + 1, Some(ratio.denominator), num + ratio.numerator),
            },
        }
    }
}

/// Win probability of an opening-card aggregate: the sum of its children's
/// numerators over their shared denominator.
pub open spec fn spec_aggregate_opening_breakdown(o: OpeningTwoStats, d: BetDefinition) -> Result<
    Option<OutcomeBreakdown>,
    CalculatorError,
> {
    match spec_aggregate_opening_ids(d.id) {
        None => Ok(None),
        Some(children) => spec_opening_fold(o, children, 0, None, 0),
    }
}

/// Whether the bet is one whose opening-card ratio lies under the opening
/// bound.
pub open spec fn bounded_opening_child(id: BetId) -> bool {
    match id {
        BetId::TigerPairPerfect | BetId::TigerPairBoth | BetId::TigerPairSingle | BetId::BankerFortune4PairFortune30
        | BetId::BankerFortune4PairFortune15 | BetId::BankerFortune4PairFortune12 | BetId::BankerFortune4PairFortune9
        | BetId::PlayerFortune4PairFortune30 | BetId::PlayerFortune4PairFortune15
        | BetId::PlayerFortune4PairFortune12 | BetId::PlayerFortune4PairFortune9 => true,
        _ => false,
    }
}

/// Win probability of an aggregate bet whose children are opening-card
/// bets; `Ok(None)` for any other bet, or where the children's denominators
/// differ.
pub fn aggregate_opening_probability_breakdown(opening_two: OpeningTwoStats, definition: &BetDefinition) -> (r:
    Result<Option<OutcomeBreakdown>, CalculatorError>)
    requires
        opening_two.is_bounded(),
    ensures
        r == spec_aggregate_opening_breakdown(opening_two, *definition),
{
    let child_ids = match aggregate_opening_ids(definition.id) {
        Some(ids) => ids,
        None => {
            return Ok(None);
        },
    };
    let ghost children = child_ids@;
    assert(forall|j: int| 0 <= j < children.len() ==> #[trigger] bounded_opening_child(children[j]));
    let mut denominator: Option<u128> = None;
    let mut win_numerator: u128 = 0;
    let mut i: usize = 0;
    while i < child_ids.len()
        invariant
            i <= child_ids@.len() <= 4,
            children == child_ids@,
            opening_two.is_bounded(),
            forall|j: int| 0 <= j < children.len() ==> #[trigger] bounded_opening_child(children[j]),
            i == 0 <==> denominator is None,
            win_numerator <= i * OPENING_NUMERATOR_BOUND,
            spec_aggregate_opening_breakdown(opening_two, *definition) == spec_opening_fold(
                opening_two,
                children,
                i as int,
                denominator,
                win_numerator as int,
            ),
        decreases child_ids@.len() - i,
    {
        let child = child_ids[i].definition();
        let ratio = match opening_two.probability_for(&child) {
            Some(ratio) => ratio,
            None => {
                return Err(CalculatorError::OpeningAggregateChildWithoutCoverage(child.id));
            },
        };
        assert(ratio.numerator <= OPENING_NUMERATOR_BOUND) by {
            assert(bounded_opening_child(children[i as int]));
        }
        match denominator {
            Some(existing) => {
                if existing != ratio.denominator {
                    return Ok(None);
                }
            },
            None => {},
        }
        denominator = Some(ratio.denominator);
        win_numerator = win_numerator + ratio.numerator;
        i = i + 1;
    }
    match denominator {
        Some(d) => Ok(
            Some(OutcomeBreakdown { win: ProbabilityRatio::new(win_numerator, d), push: ProbabilityRatio::zero() }),
        ),
        None => Ok(None),
    }
}

/// Exact player, banker and tie probabilities.
#[derive(Clone, Copy, Debug, PartialEq, Eq, Structural)]
pub struct StandardOutcomeProbabilities {
    pub player: ProbabilityRatio,
    pub banker: ProbabilityRatio,
    pub tie: ProbabilityRatio,
}

/// Player, banker and tie: the weights of the finished hands each side wins
/// (or tied) over the number of ordered deals.
pub open spec fn spec_standard(w: Seq<u128>, den: int) -> StandardOutcomeProbabilities {
    StandardOutcomeProbabilities {
        player: spec_ratio(matching_weight(w, BetId::Player, 800), den),
        banker: spec_ratio(matching_weight(w, BetId::Banker, 800), den),
        tie: spec_ratio(matching_weight(w, BetId::Tie, 800), den),
    }
}

impl StandardOutcomeProbabilities {
    /// Player, banker and tie probabilities of the finished hands.
    pub fn from_terminal(terminal: &TerminalAccumulator) -> (r: StandardOutcomeProbabilities)
        requires
            terminal.bounded(),
        ensures
            r == spec_standard(terminal.weights@, terminal.denominator as int),
    {
        let mut player: u128 = 0;
        let mut banker: u128 = 0;
        let mut tie: u128 = 0;
        let mut k: usize = 0;
        while k < 800
            invariant
                k <= 800,
                terminal.bounded(),
                player == matching_weight(terminal.weights@, BetId::Player, k as int),
                banker == matching_weight(terminal.weights@, BetId::Banker, k as int),
                tie == matching_weight(terminal.weights@, BetId::Tie, k as int),
                player <= k * TERMINAL_WEIGHT_BOUND,
                banker <= k * TERMINAL_WEIGHT_BOUND,
                tie <= k * TERMINAL_WEIGHT_BOUND,
            decreases 800 - k,
        {
            let outcome = terminal_outcome_from_index(k);
            match outcome.winner {
                TerminalWinner::Player => {
                    player = player + terminal.weights[k];
                },
                TerminalWinner::Banker => {
                    banker = banker + terminal.weights[k];
                },
                TerminalWinner::Tie => {
                    tie = tie + terminal.weights[k];
                },
            }
            k = k + 1;
        }
        StandardOutcomeProbabilities {
            player: ProbabilityRatio::new(player, terminal.denominator),
            banker: ProbabilityRatio::new(banker, terminal.denominator),
            tie: ProbabilityRatio::new(tie, terminal.denominator),
        }
    }
}

/// Everything the probability rows are read from: standard outcomes,
/// opening-card statistics and finished-hand weights.
#[derive(Debug)]
pub struct ProbabilitySnapshot {
    pub standard: StandardOutcomeProbabilities,
    pub opening_two: OpeningTwoStats,
    pub terminal: TerminalAccumulator,
}

impl ProbabilitySnapshot {
    /// The parts agree with one another and lie under their bounds.
    pub open spec fn wf(self) -> bool {
        &&& self.terminal.bounded()
        &&& self.opening_two.is_bounded()
        &&& self.opening_two.families_share_denominators()
        &&& self.standard == spec_standard(self.terminal.weights@, self.terminal.denominator as int)
    }
}

/// Finished-hand weights of the shoe `c`.
pub open spec fn shoe_weights(c: ShoeCounts) -> Seq<u128> {
    Seq::new(800, |k: int| terminal_weight(c.spec_points(), c.total as int, k) as u128)
}

/// Computes the snapshot of a shoe; refuses fewer than six cards.
pub fn calculate_probability_snapshot(counts: ShoeCounts) -> (r: Result<ProbabilitySnapshot, CalculatorError>)
    requires
        counts.wf(),
    ensures
        counts.total < 6 ==> r == Err::<ProbabilitySnapshot, CalculatorError>(
            CalculatorError::InsufficientCards(counts.total as u32),
        ),
        counts.total >= 6 ==> (r matches Ok(s) && s.wf() && s.opening_two == spec_opening_two_stats(counts)
            && s.terminal.weights@ == shoe_weights(counts) && s.terminal.denominator == falling(
            counts.total as int,
            6,
        )),
{
    let total_cards = counts.total as u32;
    if total_cards < 6 {
        return Err(CalculatorError::InsufficientCards(total_cards));
    }
    let opening_two = OpeningTwoStats::from_counts(&counts);
    let terminal = match calculate_terminal_accumulator(&counts) {
        Ok(t) => t,
        Err(e) => {
            return Err(e);
        },
    };
    assert(terminal.weights@ =~= shoe_weights(counts));
    proof {
        lemma_opening_families_share_denominators(counts);
    }
    let standard = StandardOutcomeProbabilities::from_terminal(&terminal);
    Ok(ProbabilitySnapshot { standard, opening_two, terminal })
}

/// Win and push probabilities of a bet.
pub open spec fn spec_outcome_breakdown(d: BetDefinition, o: OpeningTwoStats, w: Seq<u128>, den: int) -> Result<
    OutcomeBreakdown,
    CalculatorError,
> {
    let st = spec_standard(w, den);
    match d.id {
        BetId::Player => Ok(OutcomeBreakdown { win: st.player, push: st.tie }),
        BetId::Banker => Ok(OutcomeBreakdown { win: st.banker, push: st.tie }),
        BetId::Tie => Ok(OutcomeBreakdown { win: st.tie, push: spec_ratio(0, 0) }),
        _ => match d.class {
            BetClass::OpeningTwoCombinator => match spec_opening_probability_for(o, d) {
                None => Err(CalculatorError::OpeningWithoutEvCoverage(d.id)),
                Some(r) => Ok(OutcomeBreakdown { win: r, push: spec_ratio(0, 0) }),
            },
            BetClass::TerminalPredicate => Ok(spec_terminal_breakdown(w, den, d.id)),
            BetClass::AggregateBet => match spec_aggregate_terminal_breakdown(w, den, d) {
                Some(b) => Ok(b),
                None => match spec_aggregate_opening_breakdown(o, d) {
                    Err(e) => Err(e),
                    Ok(Some(b)) => Ok(b),
                    Ok(None) => Err(CalculatorError::AggregateWithoutCoverage(d.id)),
                },
            },
        },
    }
}

/// Win and push probabilities of a bet: a standard bet pushes on a tie (but
/// Tie itself does not), a push row's probability is all push, an aggregate
/// is settled by its first winning child. A registered row is never
/// refused.
pub fn outcome_probability_breakdown(definition: &BetDefinition, probabilities: &ProbabilitySnapshot) -> (r: Result<
    OutcomeBreakdown,
    CalculatorError,
>)
    requires
        probabilities.wf(),
    ensures
        r == spec_outcome_breakdown(
            *definition,
            probabilities.opening_two,
            probabilities.terminal.weights@,
            probabilities.terminal.denominator as int,
        ),
        *definition == definition.id.spec_definition() ==> r is Ok,
{
    proof {
        lemma_registered_bet_computed(
            definition.id,
            probabilities.opening_two,
            probabilities.terminal.weights@,
            probabilities.terminal.denominator as int,
        );
    }
    match definition.id {
        BetId::Player => Ok(
            OutcomeBreakdown { win: probabilities.standard.player, push: probabilities.standard.tie },
        ),
        BetId::Banker => Ok(
            OutcomeBreakdown { win: probabilities.standard.banker, push: probabilities.standard.tie },
        ),
        BetId::Tie => Ok(OutcomeBreakdown { win: probabilities.standard.tie, push: ProbabilityRatio::zero() }),
        _ => match definition.class {
            BetClass::OpeningTwoCombinator => match probabilities.opening_two.probability_for(definition) {
                None => Err(CalculatorError::OpeningWithoutEvCoverage(definition.id)),
                Some(ratio) => Ok(OutcomeBreakdown { win: ratio, push: ProbabilityRatio::zero() }),
            },
            BetClass::TerminalPredicate => Ok(terminal_probability_breakdown(&probabilities.terminal, definition)),
            BetClass::AggregateBet => {
                match aggregate_terminal_probability_breakdown(&probabilities.terminal, definition) {
                    Some(b) => Ok(b),
                    None => match aggregate_opening_probability_breakdown(probabilities.opening_two, definition) {
                        Err(e) => Err(e),
                        Ok(Some(b)) => Ok(b),
                        Ok(None) => Err(CalculatorError::AggregateWithoutCoverage(definition.id)),
                    },
                }
            },
        },
    }
}

/// The probability of a bet's row: standard outcomes for Player, Banker and
/// Tie, the opening-card ratio, the finished-hand ratio, or an aggregate's
/// win probability.
pub open spec fn spec_probability_for_definition(d: BetDefinition, o: OpeningTwoStats, w: Seq<u128>, den: int) -> Result<
    ProbabilityRatio,
    CalculatorError,
> {
    let st = spec_standard(w, den);
    match d.id {
        BetId::Player => Ok(st.player),
        BetId::Banker => Ok(st.banker),
        BetId::Tie => Ok(st.tie),
        _ => match d.class {
            BetClass::OpeningTwoCombinator => match spec_opening_probability_for(o, d) {
                None => Err(CalculatorError::OpeningWithoutProbabilityCoverage(d.id)),
                Some(r) => Ok(r),
            },
            BetClass::TerminalPredicate => Ok(spec_ratio(matching_weight(w, d.id, 800), den)),
            BetClass::AggregateBet => match spec_outcome_breakdown(d, o, w, den) {
                Ok(b) => Ok(b.win),
                Err(e) => Err(e),
            },
        },
    }
}

/// The probability shown on a bet's row; a registered row is never refused.
pub fn probability_for_definition(definition: &BetDefinition, probabilities: &ProbabilitySnapshot) -> (r: Result<
    ProbabilityRatio,
    CalculatorError,
>)
    requires
        probabilities.wf(),
    ensures
        r == spec_probability_for_definition(
            *definition,
            probabilities.opening_two,
            probabilities.terminal.weights@,
            probabilities.terminal.denominator as int,
        ),
        *definition == definition.id.spec_definition() ==> r is Ok,
{
    proof {
        lemma_registered_bet_computed(
            definition.id,
            probabilities.opening_two,
            probabilities.terminal.weights@,
            probabilities.terminal.denominator as int,
        );
    }
    match definition.id {
        BetId::Player => Ok(probabilities.standard.player),
        BetId::Banker => Ok(probabilities.standard.banker),
        BetId::Tie => Ok(probabilities.standard.tie),
        _ => match definition.class {
            BetClass::OpeningTwoCombinator => match probabilities.opening_two.probability_for(definition) {
                None => Err(CalculatorError::OpeningWithoutProbabilityCoverage(definition.id)),
                Some(ratio) => Ok(ratio),
            },
            BetClass::TerminalPredicate => {
                let breakdown = terminal_probability_breakdown(&probabilities.terminal, definition);
                if definition.id.is_push_result() {
                    Ok(breakdown.push)
                } else {
                    Ok(breakdown.win)
                }
            },
            BetClass::AggregateBet => match outcome_probability_breakdown(definition, probabilities) {
                Ok(b) => Ok(b.win),
                Err(e) => Err(e),
            },
        },
    }
}

/// Probability of one public variant of a bet.
#[derive(Clone, Copy, Debug, PartialEq, Eq, Structural)]
pub struct VariantRatio {
    pub variant: BetVariant,
    pub probability: ProbabilityRatio,
}

/// Probability of one outcome bucket of a bet.
#[derive(Clone, Copy, Debug, PartialEq, Eq, Structural)]
pub struct OutcomeRatio {
    pub outcome: BetOutcome,
    pub probability: ProbabilityRatio,
}

/// `prefix` before the rows of `r`, or the error of `r`.
pub open spec fn prepend_ok<T>(prefix: Seq<T>, r: Result<Seq<T>, CalculatorError>) -> Result<Seq<T>, CalculatorError> {
    match r {
        Ok(rest) => Ok(prefix + rest),
        Err(e) => Err(e),
    }
}

/// Variant rows of the bet `d` from registry position `i` on: each
/// registered variant of the same bet type, in registry order, or the first
/// error.
pub open spec fn spec_variant_rows(d: BetDefinition, o: OpeningTwoStats, w: Seq<u128>, den: int, i: int) -> Result<
    Seq<VariantRatio>,
    CalculatorError,
>
    decreases spec_bet_definitions().len() - i,
{
    if i < 0 || i >= spec_bet_definitions().len() {
        Ok(Seq::empty())
    } else {
        let c = spec_bet_definitions()[i];
        if c.spec_bet_type() == d.spec_bet_type() && c.variant is Some {
            match spec_probability_for_definition(c, o, w, den) {
                Err(e) => Err(e),
                Ok(p) => prepend_ok(
                    seq![VariantRatio { variant: c.variant->Some_0, probability: p }],
                    spec_variant_rows(d, o, w, den, i + 1),
                ),
            }
        } else {
            spec_variant_rows(d, o, w, den, i + 1)
        }
    }
}

/// Probabilities of the registered variants of the bet's type, in registry
/// order; every variant row is computed.
pub fn variant_probabilities_for_definition(definition: &BetDefinition, probabilities: &ProbabilitySnapshot) -> (r:
    Result<Vec<VariantRatio>, CalculatorError>)
    requires
        probabilities.wf(),
    ensures
        r matches Ok(v) && spec_variant_rows(
            *definition,
            probabilities.opening_two,
            probabilities.terminal.weights@,
            probabilities.terminal.denominator as int,
            0,
        ) == Ok::<Seq<VariantRatio>, CalculatorError>(v@),
{
    let ghost o = probabilities.opening_two;
    let ghost w = probabilities.terminal.weights@;
    let ghost den = probabilities.terminal.denominator as int;
    proof {
        lemma_variant_rows_computed(*definition, o, w, den, 0);
    }
    let all = bet_definitions();
    let bet_type = definition.bet_type();
    let mut variants: Vec<VariantRatio> = Vec::new();
    let mut i: usize = 0;
    while i < all.len()
        invariant
            i <= all@.len(),
            all@ == spec_bet_definitions(),
            bet_type == definition.spec_bet_type(),
            probabilities.wf(),
            o == probabilities.opening_two,
            w == probabilities.terminal.weights@,
            den == probabilities.terminal.denominator as int,
            spec_variant_rows(*definition, o, w, den, 0) == prepend_ok(
                variants@,
                spec_variant_rows(*definition, o, w, den, i as int),
            ),
            spec_variant_rows(*definition, o, w, den, 0) is Ok,
        decreases all@.len() - i,
    {
        let child = all[i];
        if child.bet_type() == bet_type {
            match child.variant {
                Some(variant) => {
                    let p = match probability_for_definition(&child, probabilities) {
                        Ok(p) => p,
                        Err(e) => {
                            return Err(e);
                        },
                    };
                    let ghost before = variants@;
                    variants.push(VariantRatio { variant, probability: p });
                    proof {
                        let row = seq![VariantRatio { variant, probability: p }];
                        assert(before + row == variants@);
                        match spec_variant_rows(*definition, o, w, den, i + 1) {
                            Ok(rest) => {
                                assert(before + (row + rest) == variants@ + rest);
                            },
                            Err(_) => {},
                        }
                    }
                },
                None => {},
            }
        }
        i = i + 1;
    }
    proof {
        assert(variants@ + Seq::<VariantRatio>::empty() == variants@);
    }
    Ok(variants)
}

/// Outcome-bucket rows of a bet: single and both sides for Perfect Pair,
/// monkey and no monkey for Monkey, none otherwise.
pub open spec fn spec_outcome_rows(d: BetDefinition, o: OpeningTwoStats) -> Seq<OutcomeRatio> {
    match d.id {
        BetId::PerfectPair => seq![
            OutcomeRatio { outcome: BetOutcome::PerfectPairSingleSide, probability: o.perfect_pair.single },
            OutcomeRatio { outcome: BetOutcome::PerfectPairBothSides, probability: o.perfect_pair.both },
        ],
        BetId::Monkey => seq![
            OutcomeRatio { outcome: BetOutcome::Monkey, probability: o.monkey.monkey },
            OutcomeRatio { outcome: BetOutcome::NoMonkey, probability: o.monkey.no_monkey },
        ],
        _ => Seq::empty(),
    }
}

/// Outcome-bucket probabilities of a bet.
pub fn outcome_probabilities_for_definition(definition: &BetDefinition, probabilities: &ProbabilitySnapshot) -> (r:
    Vec<OutcomeRatio>)
    ensures
        r@ == spec_outcome_rows(*definition, probabilities.opening_two),
{
    match definition.id {
        BetId::PerfectPair => vec![
            OutcomeRatio {
                outcome: BetOutcome::PerfectPairSingleSide,
                probability: probabilities.opening_two.perfect_pair.single,
            },
            OutcomeRatio {
                outcome: BetOutcome::PerfectPairBothSides,
                probability: probabilities.opening_two.perfect_pair.both,
            },
        ],
        BetId::Monkey => vec![
            OutcomeRatio { outcome: BetOutcome::Monkey, probability: probabilities.opening_two.monkey.monkey },
            OutcomeRatio { outcome: BetOutcome::NoMonkey, probability: probabilities.opening_two.monkey.no_monkey },
        ],
        _ => Vec::new(),
    }
}

/// Probability row of one public bet.
#[derive(Debug)]
pub struct ProbabilityRow {
    pub bet_type: BetType,
    pub probability: ProbabilityRatio,
    pub variants: Vec<VariantRatio>,
    pub outcomes: Vec<OutcomeRatio>,
}

/// A probability row as plain values.
pub type RowModel = (BetType, ProbabilityRatio, Seq<VariantRatio>, Seq<OutcomeRatio>);

impl ProbabilityRow {
    pub open spec fn model(self) -> RowModel {
        (self.bet_type, self.probability, self.variants@, self.outcomes@)
    }
}

/// The rows as plain values.
pub open spec fn rows_model(rows: Seq<ProbabilityRow>) -> Seq<RowModel> {
    rows.map_values(|r: ProbabilityRow| r.model())
}

/// Rows of the public bets from position `i` on, in registry order, or the
/// first error.
pub open spec fn spec_probability_rows(o: OpeningTwoStats, w: Seq<u128>, den: int, i: int) -> Result<
    Seq<RowModel>,
    CalculatorError,
>
    decreases spec_public_definitions().len() - i,
{
    if i < 0 || i >= spec_public_definitions().len() {
        Ok(Seq::empty())
    } else {
        let d = spec_public_definitions()[i];
        match spec_probability_for_definition(d, o, w, den) {
            Err(e) => Err(e),
            Ok(p) => match spec_variant_rows(d, o, w, den, 0) {
                Err(e) => Err(e),
                Ok(vs) => prepend_ok(
                    seq![(d.spec_bet_type(), p, vs, spec_outcome_rows(d, o))],
                    spec_probability_rows(o, w, den, i + 1),
                ),
            },
        }
    }
}

/// The rows of every public bet of the snapshot; every row is computed.
pub fn probability_rows(probabilities: &ProbabilitySnapshot) -> (r: Result<Vec<ProbabilityRow>, CalculatorError>)
    requires
        probabilities.wf(),
    ensures
        r is Ok,
        match r {
            Ok(v) => spec_probability_rows(
                probabilities.opening_two,
                probabilities.terminal.weights@,
                probabilities.terminal.denominator as int,
                0,
            ) == Ok::<Seq<RowModel>, CalculatorError>(rows_model(v@)),
            Err(e) => spec_probability_rows(
                probabilities.opening_two,
                probabilities.terminal.weights@,
                probabilities.terminal.denominator as int,
                0,
            ) == Err::<Seq<RowModel>, CalculatorError>(e),
        },
{
    let ghost o = probabilities.opening_two;
    let ghost w = probabilities.terminal.weights@;
    let ghost den = probabilities.terminal.denominator as int;
    proof {
        lemma_probability_rows_computed(o, w, den);
    }
    let definitions = public_probability_definitions();
    let mut rows: Vec<ProbabilityRow> = Vec::new();
    let mut i: usize = 0;
    while i < definitions.len()
        invariant
            i <= definitions@.len(),
            definitions@ == spec_public_definitions(),
            probabilities.wf(),
            o == probabilities.opening_two,
            w == probabilities.terminal.weights@,
            den == probabilities.terminal.denominator as int,
            spec_probability_rows(o, w, den, 0) == prepend_ok(
                rows_model(rows@),
                spec_probability_rows(o, w, den, i as int),
            ),
            spec_probability_rows(o, w, den, 0) is Ok,
        decreases definitions@.len() - i,
    {
        let definition = definitions[i];
        let probability = match probability_for_definition(&definition, probabilities) {
            Ok(p) => p,
            Err(e) => {
                return Err(e);
            },
        };
        let variants = match variant_probabilities_for_definition(&definition, probabilities) {
            Ok(v) => v,
            Err(e) => {
                return Err(e);
            },
        };
        let outcomes = outcome_probabilities_for_definition(&definition, probabilities);
        let row = ProbabilityRow { bet_type: definition.bet_type(), probability, variants, outcomes };
        let ghost before = rows@;
        rows.push(row);
        proof {
            let m = seq![row.model()];
            assert(rows_model(before) + m =~= rows_model(rows@));
            match spec_probability_rows(o, w, den, i + 1) {
                Ok(rest) => {
                    assert(rows_model(before) + (m + rest) == rows_model(rows@) + rest);
                },
                Err(_) => {},
            }
        }
        i = i + 1;
    }
    proof {
        assert(rows_model(rows@) + Seq::<RowModel>::empty() == rows_model(rows@));
    }
    Ok(rows)
}

/// Exact probabilities of every registered public bet for the remaining
/// shoe given as card counts.
///
/// Refuses the card counts as `ShoeCounts::from_cards` does, and a shoe of
/// fewer than six cards; otherwise succeeds, with the rows of the shoe in
/// registry order.
pub fn calculate_exact_probabilities(cards: &[CardCount]) -> (r: Result<Vec<ProbabilityRow>, CalculatorError>)
    ensures
        cards@.len() == 0 ==> r == Err::<Vec<ProbabilityRow>, CalculatorError>(CalculatorError::EmptyCards),
        cards@.len() > 0 && crate::shoe::entries_error(cards@) is Some ==> r == Err::<
            Vec<ProbabilityRow>,
            CalculatorError,
        >(crate::shoe::entries_error(cards@)->Some_0),
        cards@.len() > 0 && crate::shoe::entries_error(cards@) is None ==> exists|c: ShoeCounts|
            #![trigger c.counts_entries(cards@)]
            c.wf() && c.counts_entries(cards@) && (if c.total < 6 {
                r == Err::<Vec<ProbabilityRow>, CalculatorError>(CalculatorError::InsufficientCards(c.total as u32))
            } else {
                r matches Ok(v) && spec_probability_rows(
                    spec_opening_two_stats(c),
                    shoe_weights(c),
                    falling(c.total as int, 6),
                    0,
                ) == Ok::<Seq<RowModel>, CalculatorError>(rows_model(v@))
            }),
{
    let counts = match ShoeCounts::from_cards(cards) {
        Ok(c) => c,
        Err(e) => {
            return Err(e);
        },
    };
    let ghost c = counts;
    let snapshot = match calculate_probability_snapshot(counts) {
        Ok(s) => s,
        Err(e) => {
            assert(c.wf() && c.counts_entries(cards@));
            return Err(e);
        },
    };
    let rows = probability_rows(&snapshot);
    assert(c.wf() && c.counts_entries(cards@));
    rows
}

/// The probability rows, when every row can be computed, are one per public
/// bet in registry order, each under that bet's type, with that bet's row
/// probability and outcome-bucket rows.
pub proof fn lemma_rows_follow_registry(o: OpeningTwoStats, w: Seq<u128>, den: int, i: int)
    requires
        0 <= i <= spec_public_definitions().len(),
        spec_probability_rows(o, w, den, i) is Ok,
    ensures
        (spec_probability_rows(o, w, den, i)->Ok_0).len() == spec_public_definitions().len() - i,
        forall|j: int|
            0 <= j < spec_public_definitions().len() - i ==> {
                let row = #[trigger] (spec_probability_rows(o, w, den, i)->Ok_0)[j];
                let d = spec_public_definitions()[i + j];
                &&& row.0 == d.spec_bet_type()
                &&& spec_probability_for_definition(d, o, w, den) == Ok::<ProbabilityRatio, CalculatorError>(row.1)
                &&& row.3 == spec_outcome_rows(d, o)
            },
    decreases spec_public_definitions().len() - i,
{
    if i < spec_public_definitions().len() {
        lemma_rows_follow_registry(o, w, den, i + 1);
        let rows = spec_probability_rows(o, w, den, i)->Ok_0;
        let rest = spec_probability_rows(o, w, den, i + 1)->Ok_0;
        assert forall|j: int| 0 <= j < spec_public_definitions().len() - i implies {
            let row = #[trigger] rows[j];
            let d = spec_public_definitions()[i + j];
            &&& row.0 == d.spec_bet_type()
            &&& spec_probability_for_definition(d, o, w, den) == Ok::<ProbabilityRatio, CalculatorError>(row.1)
            &&& row.3 == spec_outcome_rows(d, o)
        } by {
            if j > 0 {
                assert(rows[j] == rest[j - 1]);
            }
        }
    }
}

/// Every registered bet is covered: once the opening-card statistics count
/// each bet family over one denominator, its outcome breakdown and its row
/// probability are computed, never refused.
pub proof fn lemma_registered_bet_computed(id: BetId, o: OpeningTwoStats, w: Seq<u128>, den: int)
    requires
        o.families_share_denominators(),
    ensures
        spec_outcome_breakdown(id.spec_definition(), o, w, den) is Ok,
        spec_probability_for_definition(id.spec_definition(), o, w, den) is Ok,
{
    reveal_with_fuel(spec_opening_fold, 5);
}

/// Variant rows from registry position `i` on are computed for every bet.
proof fn lemma_variant_rows_computed(d: BetDefinition, o: OpeningTwoStats, w: Seq<u128>, den: int, i: int)
    requires
        o.families_share_denominators(),
        0 <= i <= spec_bet_definitions().len(),
    ensures
        spec_variant_rows(d, o, w, den, i) is Ok,
    decreases spec_bet_definitions().len() - i,
{
    if i < spec_bet_definitions().len() {
        lemma_variant_rows_computed(d, o, w, den, i + 1);
        lemma_registered_bet_computed(BetId::spec_at(i), o, w, den);
    }
}

/// The rows of the public bets from position `i` on are computed.
proof fn lemma_public_rows_computed(o: OpeningTwoStats, w: Seq<u128>, den: int, i: int)
    requires
        o.families_share_denominators(),
        0 <= i <= spec_public_definitions().len(),
    ensures
        spec_probability_rows(o, w, den, i) is Ok,
    decreases spec_public_definitions().len() - i,
{
    if i < spec_public_definitions().len() {
        lemma_public_rows_computed(o, w, den, i + 1);
        let all = spec_bet_definitions();
        let pred = |d: BetDefinition| is_public_definition(d);
        let d = spec_public_definitions()[i];
        assert(spec_public_definitions().contains(d));
        all.lemma_filter_contains_rev(pred, d);
        let k = choose|k: int| 0 <= k < all.len() && all[k] == d;
        lemma_registered_bet_computed(BetId::spec_at(k), o, w, den);
        lemma_variant_rows_computed(d, o, w, den, 0);
    }
}

/// Every public bet gets its row: once the opening-card statistics count
/// each bet family over one denominator, the rows are computed, never
/// refused.
pub proof fn lemma_probability_rows_computed(o: OpeningTwoStats, w: Seq<u128>, den: int)
    requires
        o.families_share_denominators(),
    ensures
        spec_probability_rows(o, w, den, 0) is Ok,
{
    lemma_public_rows_computed(o, w, den, 0);
}

/// The finished-hand children of an aggregate are exactly the variant rows
/// of its bet type, each once; the aggregates without them are Treasure All
/// and the opening-card aggregates (tiger pair and the fortune-4 pairs).
pub proof fn lemma_aggregate_children_are_variants(a: BetId)
    ensures
        spec_aggregate_terminal_ids(a) is None <==> (a.spec_class() != BetClass::AggregateBet || a
            == BetId::TigerPairAggregate || a == BetId::BankerFortune4PairAggregate || a
            == BetId::PlayerFortune4PairAggregate || a == BetId::TreasureAll),
        spec_aggregate_terminal_ids(a) matches Some(cs) ==> {
            &&& forall|i: int, j: int| 0 <= i < j < cs.len() ==> cs[i] != cs[j]
            &&& forall|id: BetId|
                #![trigger cs.contains(id)]
                cs.contains(id) <==> (id.spec_bet_type() == a.spec_bet_type() && id.spec_variant() is Some)
        },
{
}

} // verus!
