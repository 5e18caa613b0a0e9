//! Settlement of placed bets against the final dealt hands, with exact
//! decimal money.
use vstd::prelude::*;

use crate::cards::{lemma_rank_value_and_court, BetType, Card, CardRank};
use crate::mode_contract::{
    settlement_allowed_outcomes, spec_mode_compatibility, spec_settlement_allowed_outcomes,
    validate_mode_compatibility, ModeError,
};
use crate::money::{
    abs, add_fits, add_fits_exec, decimal_add, decimal_mul, decimal_round_dp, mul_fits, mul_fits_exec, pow10,
    spec_decimal_add, spec_decimal_mul, spec_round_dp,
    DecimalNumber, DECIMAL_MANTISSA_MAX,
};
use crate::text::{is_blank, spec_is_blank};
use crate::{BetMode, BetOutcome, MonkeyMode, PerfectPairMode};

verus! {

/// The final player and banker hands, in deal order.
#[derive(Clone, Debug)]
pub struct DealtHands {
    pub player: Vec<Card>,
    pub banker: Vec<Card>,
}

/// Odds for one outcome bucket.
#[derive(Clone, Copy, Debug)]
pub struct SettlementOutcomeOdds {
    pub outcome: BetOutcome,
    pub odds: DecimalNumber,
}

/// Odds of a settlement: one net value, or one per outcome bucket.
#[derive(Clone, Debug)]
pub enum SettlementOddsSpec {
    Simple(DecimalNumber),
    ByOutcome(Vec<SettlementOutcomeOdds>),
}

/// One placed bet to settle.
#[derive(Clone, Debug)]
pub struct SettlementSpec {
    pub id: String,
    pub bet_type: BetType,
    pub amount: DecimalNumber,
    pub mode: Option<BetMode>,
    pub odds: SettlementOddsSpec,
}

/// Odds applied to a winning bet.
#[derive(Clone, Copy, Debug)]
pub struct ResolvedOdds {
    pub outcome: Option<BetOutcome>,
    pub odds: DecimalNumber,
}

/// Final state of a settled bet.
#[derive(Clone, Copy, Debug, PartialEq, Eq, Structural)]
pub enum SettlementStatus {
    Win,
    Lose,
    Push,
}

/// Result of settling one bet.
#[derive(Clone, Debug)]
pub struct SettlementResult {
    pub id: String,
    pub bet_type: BetType,
    pub mode: Option<BetMode>,
    pub status: SettlementStatus,
    pub matched_outcomes: Vec<BetOutcome>,
    pub stake: DecimalNumber,
    pub payout: DecimalNumber,
    pub profit: DecimalNumber,
    pub applied_odds: Vec<ResolvedOdds>,
}

/// Why a bet cannot be settled.
#[derive(Clone, Debug)]
pub enum SettlementError {
    /// The identifier is empty or all whitespace.
    BlankId,
    /// The stake is zero or negative.
    NonPositiveAmount(String),
    /// The stake has more than two decimal places.
    AmountScale(String),
    /// A hand has fewer than two cards.
    TooFewCards,
    /// The mode does not fit the bet type.
    IncompatibleMode(String, ModeError),
    /// An odds value is negative.
    NegativeOdds(String),
    /// An odds value has more than two decimal places.
    OddsScale(String),
    /// Outcome odds were given for a bet without outcome buckets.
    OutcomeOddsUnsupported(String),
    /// Outcome odds were given for a bucket the bet cannot win on.
    IrrelevantOutcomeOdds(String),
    /// Two outcome odds entries name the same bucket.
    DuplicateOutcomeOdds(String),
    /// A bucket the bet can win on has no outcome odds.
    MissingOutcomeOdds(String),
    /// Stake times an odds value, or the stake plus that profit, would not
    /// be an exact decimal of at most 96 bits.
    InexactMoney(String),
    /// A mode of another bet type reached the outcome matching.
    ModeMismatch(BetMode, BetType),
    /// The bet type has no settlement contract.
    UnsupportedBetType(BetType),
}

/// Which side wins a dealt hand.
#[derive(Clone, Copy, Debug, PartialEq, Eq, Structural)]
pub enum Winner {
    Player,
    Banker,
    Tie,
}

/// Sum of the point values of the first `m` cards.
pub open spec fn hand_sum(cards: Seq<Card>, m: int) -> int
    decreases m,
{
    if m <= 0 {
        0
    } else {
        hand_sum(cards, m - 1) + cards[m - 1].rank.spec_value()
    }
}

/// Hand total: the point sum modulo ten.
pub open spec fn spec_hand_total(cards: Seq<Card>) -> int {
    hand_sum(cards, cards.len() as int) % 10
}

/// A hand's total is the sum of its cards' point values modulo ten: for
/// two cards, the first plus the second; for three, plus the third.
pub proof fn lemma_hand_total_of_cards(cards: Seq<Card>)
    ensures
        0 <= spec_hand_total(cards) < 10,
        cards.len() == 2 ==> spec_hand_total(cards) == (cards[0].rank.spec_value() + cards[1].rank.spec_value())
            % 10,
        cards.len() == 3 ==> spec_hand_total(cards) == (cards[0].rank.spec_value() + cards[1].rank.spec_value()
            + cards[2].rank.spec_value()) % 10,
{
    reveal_with_fuel(hand_sum, 4);
}

/// The point sums of both hands fit a byte.
pub open spec fn hands_fit(cards: DealtHands) -> bool {
    &&& hand_sum(cards.player@, cards.player@.len() as int) <= 255
    &&& hand_sum(cards.banker@, cards.banker@.len() as int) <= 255
}

proof fn lemma_hand_sum_nonneg(cards: Seq<Card>, m: int)
    requires
        0 <= m <= cards.len(),
    ensures
        0 <= hand_sum(cards, m),
        hand_sum(cards, m) <= hand_sum(cards, cards.len() as int),
    decreases cards.len() - m,
{
    lemma_hand_sum_prefix_nonneg(cards, m);
    if m < cards.len() {
        lemma_hand_sum_nonneg(cards, m + 1);
        lemma_hand_sum_prefix_nonneg(cards, m + 1);
    }
}

proof fn lemma_hand_sum_prefix_nonneg(cards: Seq<Card>, m: int)
    requires
        0 <= m <= cards.len(),
    ensures
        0 <= hand_sum(cards, m),
    decreases m,
{
    if m > 0 {
        lemma_hand_sum_prefix_nonneg(cards, m - 1);
    }
}

/// Total of a hand: its point values summed and taken modulo ten.
pub fn hand_total(cards: &[Card]) -> (r: u8)
    requires
        hand_sum(cards@, cards@.len() as int) <= 255,
    ensures
        r == spec_hand_total(cards@),
{
    let mut sum: u8 = 0;
    let mut i: usize = 0;
    while i < cards.len()
        invariant
            i <= cards@.len(),
            hand_sum(cards@, cards@.len() as int) <= 255,
            sum == hand_sum(cards@, i as int),
        decreases cards@.len() - i,
    {
        proof {
            lemma_hand_sum_nonneg(cards@, i as int + 1);
        }
        sum = sum + cards[i].rank.baccarat_value();
        i = i + 1;
    }
    sum % 10
}

/// Whether the point sum of a hand fits a byte.
fn hand_sum_fits(cards: &[Card]) -> (r: bool)
    ensures
        r == (hand_sum(cards@, cards@.len() as int) <= 255),
{
    let mut sum: u64 = 0;
    let mut i: usize = 0;
    while i < cards.len()
        invariant
            i <= cards@.len(),
            sum == hand_sum(cards@, i as int),
            sum <= 255,
        decreases cards@.len() - i,
    {
        proof {
            lemma_hand_sum_nonneg(cards@, i as int + 1);
        }
        sum = sum + cards[i].rank.baccarat_value() as u64;
        if sum > 255 {
            proof {
                lemma_hand_sum_nonneg(cards@, i as int + 1);
            }
            return false;
        }
        i = i + 1;
    }
    true
}

/// Whether the point sums of both hands fit a byte, as settlement needs.
pub fn hands_fit_exactly(cards: &DealtHands) -> (r: bool)
    ensures
        r == hands_fit(*cards),
{
    hand_sum_fits(cards.player.as_slice()) && hand_sum_fits(cards.banker.as_slice())
}

/// The winner of two hand totals.
pub open spec fn spec_winner(cards: DealtHands) -> Winner {
    let p = spec_hand_total(cards.player@);
    let b = spec_hand_total(cards.banker@);
    if p > b {
        Winner::Player
    } else if p < b {
        Winner::Banker
    } else {
        Winner::Tie
    }
}

/// Which side wins the dealt hands.
pub fn winner(cards: &DealtHands) -> (r: Winner)
    requires
        hands_fit(*cards),
    ensures
        r == spec_winner(*cards),
{
    let player = hand_total(&cards.player);
    let banker = hand_total(&cards.banker);
    if player > banker {
        Winner::Player
    } else if player < banker {
        Winner::Banker
    } else {
        Winner::Tie
    }
}

/// The tie total a super-tie bet pays on.
pub open spec fn spec_super_tie_total(bet_type: BetType) -> Option<int> {
    match bet_type {
        BetType::SuperTie0 => Some(0),
        BetType::SuperTie1 => Some(1),
        BetType::SuperTie2 => Some(2),
        BetType::SuperTie3 => Some(3),
        BetType::SuperTie4 => Some(4),
        BetType::SuperTie5 => Some(5),
        BetType::SuperTie6 => Some(6),
        BetType::SuperTie7 => Some(7),
        BetType::SuperTie8 => Some(8),
        BetType::SuperTie9 => Some(9),
        _ => None,
    }
}

/// The tie total a super-tie bet pays on; `None` for other bets.
pub fn super_tie_total(bet_type: BetType) -> (r: Option<u8>)
    ensures
        match spec_super_tie_total(bet_type) {
            Some(t) => r == Some(t as u8),
            None => r is None,
        },
{
    match bet_type {
        BetType::SuperTie0 => Some(0),
        BetType::SuperTie1 => Some(1),
        BetType::SuperTie2 => Some(2),
        BetType::SuperTie3 => Some(3),
        BetType::SuperTie4 => Some(4),
        BetType::SuperTie5 => Some(5),
        BetType::SuperTie6 => Some(6),
        BetType::SuperTie7 => Some(7),
        BetType::SuperTie8 => Some(8),
        BetType::SuperTie9 => Some(9),
        _ => None,
    }
}

/// Whether a hand opens with two identical cards.
pub open spec fn spec_is_perfect_pair(cards: Seq<Card>) -> bool {
    cards.len() >= 2 && cards[0] == cards[1]
}

/// Whether a hand opens with two identical cards.
pub fn is_perfect_pair(cards: &[Card]) -> (r: bool)
    ensures
        r == spec_is_perfect_pair(cards@),
{
    if cards.len() < 2 {
        return false;
    }
    let first = cards[0];
    let second = cards[1];
    first.suit == second.suit && first.rank == second.rank
}

/// Whether a rank is a court card (Jack, Queen, King).
pub fn is_monkey_rank(rank: crate::cards::CardRank) -> (r: bool)
    ensures
        r == rank.is_court(),
{
    match rank {
        crate::cards::CardRank::Jack | crate::cards::CardRank::Queen | crate::cards::CardRank::King => true,
        _ => false,
    }
}

/// The outcome buckets the dealt hands match for the bet, under its mode.
pub open spec fn spec_matched_outcomes(cards: DealtHands, bet_type: BetType, mode: Option<BetMode>) -> Result<
    Seq<BetOutcome>,
    SettlementError,
> {
    match bet_type {
        BetType::PerfectPair => match mode {
            Some(BetMode::Monkey(m)) => Err(SettlementError::ModeMismatch(BetMode::Monkey(m), BetType::PerfectPair)),
            _ => {
                let p = spec_is_perfect_pair(cards.player@);
                let b = spec_is_perfect_pair(cards.banker@);
                if p && b && mode == Some(BetMode::PerfectPair(PerfectPairMode::SinglePlusBoth)) {
                    Ok(seq![BetOutcome::PerfectPairBothSides])
                } else if p || b {
                    Ok(seq![BetOutcome::PerfectPairSingleSide])
                } else {
                    Ok(Seq::empty())
                }
            },
        },
        BetType::Monkey => match mode {
            Some(BetMode::PerfectPair(m)) => Err(SettlementError::ModeMismatch(BetMode::PerfectPair(m), BetType::Monkey)),
            _ => {
                let standard = !(mode == Some(BetMode::Monkey(MonkeyMode::NoMonkeyOnly)));
                if cards.player@.len() < 2 || cards.banker@.len() < 2 {
                    Ok(Seq::empty())
                } else {
                    let four = seq![cards.player@[0], cards.player@[1], cards.banker@[0], cards.banker@[1]];
                    if forall|i: int| 0 <= i < 4 ==> (#[trigger] four[i]).rank.is_court() {
                        if standard {
                            Ok(seq![BetOutcome::Monkey])
                        } else {
                            Ok(Seq::empty())
                        }
                    } else if forall|i: int| 0 <= i < 4 ==> !(#[trigger] four[i]).rank.is_court() {
                        Ok(seq![BetOutcome::NoMonkey])
                    } else {
                        Ok(Seq::empty())
                    }
                }
            },
        },
        BetType::Tiger => if spec_hand_total(cards.banker@) != 6 || spec_winner(cards) != Winner::Banker {
            Ok(Seq::empty())
        } else if cards.banker@.len() == 2 {
            Ok(seq![BetOutcome::TigerTwoCards])
        } else if cards.banker@.len() == 3 {
            Ok(seq![BetOutcome::TigerThreeCards])
        } else {
            Ok(Seq::empty())
        },
        _ => Ok(Seq::empty()),
    }
}

/// Perfect-pair buckets: both sides (only with separate single-side and
/// both-sides contracts), one side (a both-sides hit too, in the standard
/// mode or without a mode), or none.
fn perfect_pair_outcomes(cards: &DealtHands, mode: Option<BetMode>) -> (r: Result<Vec<BetOutcome>, SettlementError>)
    ensures
        match spec_matched_outcomes(*cards, BetType::PerfectPair, mode) {
            Ok(s) => r matches Ok(v) && v@ == s,
            Err(e) => r matches Err(x) && x == e,
        },
{
    match mode {
        Some(BetMode::Monkey(m)) => {
            return Err(SettlementError::ModeMismatch(BetMode::Monkey(m), BetType::PerfectPair));
        },
        _ => {},
    }
    let player_pair = is_perfect_pair(&cards.player);
    let banker_pair = is_perfect_pair(&cards.banker);
    let separate_both = match mode {
        Some(BetMode::PerfectPair(PerfectPairMode::SinglePlusBoth)) => true,
        _ => false,
    };
    if player_pair && banker_pair && separate_both {
        Ok(vec![BetOutcome::PerfectPairBothSides])
    } else if player_pair || banker_pair {
        Ok(vec![BetOutcome::PerfectPairSingleSide])
    } else {
        Ok(Vec::new())
    }
}

/// Monkey buckets of the opening four cards: all court cards, none, or
/// mixed; the no-monkey-only mode drops the all-court bucket.
fn monkey_outcomes(cards: &DealtHands, mode: Option<BetMode>) -> (r: Result<Vec<BetOutcome>, SettlementError>)
    ensures
        match spec_matched_outcomes(*cards, BetType::Monkey, mode) {
            Ok(s) => r matches Ok(v) && v@ == s,
            Err(e) => r matches Err(x) && x == e,
        },
{
    let standard = match mode {
        Some(BetMode::Monkey(MonkeyMode::NoMonkeyOnly)) => false,
        Some(BetMode::Monkey(MonkeyMode::Standard)) => true,
        Some(BetMode::PerfectPair(m)) => {
            return Err(SettlementError::ModeMismatch(BetMode::PerfectPair(m), BetType::Monkey));
        },
        None => true,
    };
    if cards.player.len() < 2 || cards.banker.len() < 2 {
        return Ok(Vec::new());
    }
    let initial = [cards.player[0], cards.player[1], cards.banker[0], cards.banker[1]];
    let ghost four = seq![cards.player@[0], cards.player@[1], cards.banker@[0], cards.banker@[1]];
    assert(initial@ == four);
    let c0 = is_monkey_rank(initial[0].rank);
    let c1 = is_monkey_rank(initial[1].rank);
    let c2 = is_monkey_rank(initial[2].rank);
    let c3 = is_monkey_rank(initial[3].rank);
    if c0 && c1 && c2 && c3 {
        assert(forall|i: int| 0 <= i < 4 ==> (#[trigger] four[i]).rank.is_court());
        if standard {
            Ok(vec![BetOutcome::Monkey])
        } else {
            Ok(Vec::new())
        }
    } else if !c0 && !c1 && !c2 && !c3 {
        assert(!(forall|i: int| 0 <= i < 4 ==> (#[trigger] four[i]).rank.is_court())) by {
            assert(!four[0].rank.is_court());
        }
        assert(forall|i: int| 0 <= i < 4 ==> !(#[trigger] four[i]).rank.is_court());
        Ok(vec![BetOutcome::NoMonkey])
    } else {
        assert(!(forall|i: int| 0 <= i < 4 ==> (#[trigger] four[i]).rank.is_court())) by {
            if !c0 {
                assert(!four[0].rank.is_court());
            } else if !c1 {
                assert(!four[1].rank.is_court());
            } else if !c2 {
                assert(!four[2].rank.is_court());
            } else {
                assert(!four[3].rank.is_court());
            }
        }
        assert(!(forall|i: int| 0 <= i < 4 ==> !(#[trigger] four[i]).rank.is_court())) by {
            if c0 {
                assert(four[0].rank.is_court());
            } else if c1 {
                assert(four[1].rank.is_court());
            } else if c2 {
                assert(four[2].rank.is_court());
            } else {
                assert(four[3].rank.is_court());
            }
        }
        Ok(Vec::new())
    }
}

/// Tiger buckets: the banker wins with six on two or three cards.
fn tiger_outcomes(cards: &DealtHands) -> (r: Result<Vec<BetOutcome>, SettlementError>)
    requires
        hands_fit(*cards),
    ensures
        match spec_matched_outcomes(*cards, BetType::Tiger, None) {
            Ok(s) => r matches Ok(v) && v@ == s,
            Err(e) => r matches Err(x) && x == e,
        },
{
    if hand_total(&cards.banker) != 6 {
        return Ok(Vec::new());
    }
    match winner(cards) {
        Winner::Banker => {},
        _ => {
            return Ok(Vec::new());
        },
    }
    if cards.banker.len() == 2 {
        Ok(vec![BetOutcome::TigerTwoCards])
    } else if cards.banker.len() == 3 {
        Ok(vec![BetOutcome::TigerThreeCards])
    } else {
        Ok(Vec::new())
    }
}

/// The outcome buckets the dealt hands match for the bet.
pub fn matched_outcomes(cards: &DealtHands, bet_type: BetType, mode: Option<BetMode>) -> (r: Result<
    Vec<BetOutcome>,
    SettlementError,
>)
    requires
        hands_fit(*cards),
    ensures
        match spec_matched_outcomes(*cards, bet_type, mode) {
            Ok(s) => r matches Ok(v) && v@ == s,
            Err(e) => r matches Err(x) && x == e,
        },
{
    match bet_type {
        BetType::PerfectPair => perfect_pair_outcomes(cards, mode),
        BetType::Monkey => monkey_outcomes(cards, mode),
        BetType::Tiger => tiger_outcomes(cards),
        _ => Ok(Vec::new()),
    }
}

/// Win, lose or push of the bet on the dealt hands.
pub open spec fn spec_settlement_status(cards: DealtHands, bet_type: BetType, matched: Seq<BetOutcome>) -> Result<
    SettlementStatus,
    SettlementError,
> {
    let w = spec_winner(cards);
    match bet_type {
        BetType::Player => Ok(
            match w {
                Winner::Player => SettlementStatus::Win,
                Winner::Banker => SettlementStatus::Lose,
                Winner::Tie => SettlementStatus::Push,
            },
        ),
        BetType::Banker => Ok(
            match w {
                Winner::Banker => SettlementStatus::Win,
                Winner::Player => SettlementStatus::Lose,
                Winner::Tie => SettlementStatus::Push,
            },
        ),
        BetType::Tie => Ok(
            if w == Winner::Tie {
                SettlementStatus::Win
            } else {
                SettlementStatus::Lose
            },
        ),
        BetType::PerfectPair | BetType::Monkey | BetType::Tiger => Ok(
            if matched.len() == 0 {
                SettlementStatus::Lose
            } else {
                SettlementStatus::Win
            },
        ),
        _ => match spec_super_tie_total(bet_type) {
            Some(t) => Ok(
                if spec_hand_total(cards.player@) == t && spec_hand_total(cards.banker@) == t {
                    SettlementStatus::Win
                } else {
                    SettlementStatus::Lose
                },
            ),
            None => Err(SettlementError::UnsupportedBetType(bet_type)),
        },
    }
}

/// A Tiger bet matches a bucket exactly when the Banker ends on six with a
/// higher total than the Player: `TigerTwoCards` on two banker cards,
/// `TigerThreeCards` on three. It then settles as a win, and otherwise as a
/// loss.
pub proof fn lemma_tiger_matches_banker_six(cards: DealtHands, mode: Option<BetMode>)
    ensures
        spec_matched_outcomes(cards, BetType::Tiger, mode) == Ok::<Seq<BetOutcome>, SettlementError>(
            if spec_hand_total(cards.banker@) == 6 && spec_hand_total(cards.player@) < 6 && cards.banker@.len()
                == 2 {
                seq![BetOutcome::TigerTwoCards]
            } else if spec_hand_total(cards.banker@) == 6 && spec_hand_total(cards.player@) < 6
                && cards.banker@.len() == 3 {
                seq![BetOutcome::TigerThreeCards]
            } else {
                Seq::empty()
            },
        ),
        spec_settlement_status(cards, BetType::Tiger, spec_matched_outcomes(cards, BetType::Tiger, mode)->Ok_0)
            == Ok::<SettlementStatus, SettlementError>(
            if spec_hand_total(cards.banker@) == 6 && spec_hand_total(cards.player@) < 6 && (cards.banker@.len()
                == 2 || cards.banker@.len() == 3) {
                SettlementStatus::Win
            } else {
                SettlementStatus::Lose
            },
        ),
{
}

/// A perfect-pair bet matches when either hand opens with two cards of the
/// same suit and rank: the both-sides bucket when both hands do under
/// separate single-side and both-sides odds, the single-side bucket
/// otherwise. A monkey mode is refused.
pub proof fn lemma_perfect_pair_matches_identical_openers(cards: DealtHands, mode: Option<BetMode>)
    ensures
        match mode {
            Some(BetMode::Monkey(m)) => spec_matched_outcomes(cards, BetType::PerfectPair, mode) == Err::<
                Seq<BetOutcome>,
                SettlementError,
            >(SettlementError::ModeMismatch(BetMode::Monkey(m), BetType::PerfectPair)),
            _ => {
                let p = cards.player@.len() >= 2 && cards.player@[0].suit == cards.player@[1].suit
                    && cards.player@[0].rank == cards.player@[1].rank;
                let b = cards.banker@.len() >= 2 && cards.banker@[0].suit == cards.banker@[1].suit
                    && cards.banker@[0].rank == cards.banker@[1].rank;
                spec_matched_outcomes(cards, BetType::PerfectPair, mode) == Ok::<Seq<BetOutcome>, SettlementError>(
                    if p && b && mode == Some(BetMode::PerfectPair(PerfectPairMode::SinglePlusBoth)) {
                        seq![BetOutcome::PerfectPairBothSides]
                    } else if p || b {
                        seq![BetOutcome::PerfectPairSingleSide]
                    } else {
                        Seq::empty()
                    },
                )
            },
        },
{
}

/// A monkey bet matches `Monkey` when the four opening cards are all Jack,
/// Queen or King (not under the no-monkey-only mode), `NoMonkey` when none
/// of them is, and nothing otherwise. A perfect-pair mode is refused.
pub proof fn lemma_monkey_matches_court_openers(cards: DealtHands, mode: Option<BetMode>)
    requires
        cards.player@.len() >= 2,
        cards.banker@.len() >= 2,
    ensures
        match mode {
            Some(BetMode::PerfectPair(m)) => spec_matched_outcomes(cards, BetType::Monkey, mode) == Err::<
                Seq<BetOutcome>,
                SettlementError,
            >(SettlementError::ModeMismatch(BetMode::PerfectPair(m), BetType::Monkey)),
            _ => {
                let c0 = cards.player@[0].rank;
                let c1 = cards.player@[1].rank;
                let c2 = cards.banker@[0].rank;
                let c3 = cards.banker@[1].rank;
                let all_court = (c0 == CardRank::Jack || c0 == CardRank::Queen || c0 == CardRank::King) && (c1
                    == CardRank::Jack || c1 == CardRank::Queen || c1 == CardRank::King) && (c2 == CardRank::Jack
                    || c2 == CardRank::Queen || c2 == CardRank::King) && (c3 == CardRank::Jack || c3
                    == CardRank::Queen || c3 == CardRank::King);
                let no_court = c0 != CardRank::Jack && c0 != CardRank::Queen && c0 != CardRank::King && c1
                    != CardRank::Jack && c1 != CardRank::Queen && c1 != CardRank::King && c2 != CardRank::Jack
                    && c2 != CardRank::Queen && c2 != CardRank::King && c3 != CardRank::Jack && c3
                    != CardRank::Queen && c3 != CardRank::King;
                spec_matched_outcomes(cards, BetType::Monkey, mode) == Ok::<Seq<BetOutcome>, SettlementError>(
                    if all_court && mode != Some(BetMode::Monkey(MonkeyMode::NoMonkeyOnly)) {
                        seq![BetOutcome::Monkey]
                    } else if no_court {
                        seq![BetOutcome::NoMonkey]
                    } else {
                        Seq::empty()
                    },
                )
            },
        },
{
    let four = seq![cards.player@[0], cards.player@[1], cards.banker@[0], cards.banker@[1]];
    lemma_rank_value_and_court(four[0].rank);
    lemma_rank_value_and_court(four[1].rank);
    lemma_rank_value_and_court(four[2].rank);
    lemma_rank_value_and_court(four[3].rank);
    assert((forall|i: int| 0 <= i < 4 ==> (#[trigger] four[i]).rank.is_court()) <==> (four[0].rank.is_court()
        && four[1].rank.is_court() && four[2].rank.is_court() && four[3].rank.is_court()));
    assert((forall|i: int| 0 <= i < 4 ==> !(#[trigger] four[i]).rank.is_court()) <==> (!four[0].rank.is_court()
        && !four[1].rank.is_court() && !four[2].rank.is_court() && !four[3].rank.is_court()));
}

/// A super-tie bet on a total wins exactly when both hands end on that
/// total, and loses otherwise; a win is always a tie.
pub proof fn lemma_super_tie_wins_on_its_tie(
    cards: DealtHands,
    bet_type: BetType,
    matched: Seq<BetOutcome>,
    total: int,
)
    requires
        (bet_type == BetType::SuperTie0 && total == 0) || (bet_type == BetType::SuperTie1 && total == 1) || (
        bet_type == BetType::SuperTie2 && total == 2) || (bet_type == BetType::SuperTie3 && total == 3) || (
        bet_type == BetType::SuperTie4 && total == 4) || (bet_type == BetType::SuperTie5 && total == 5) || (
        bet_type == BetType::SuperTie6 && total == 6) || (bet_type == BetType::SuperTie7 && total == 7) || (
        bet_type == BetType::SuperTie8 && total == 8) || (bet_type == BetType::SuperTie9 && total == 9),
    ensures
        spec_settlement_status(cards, bet_type, matched) == Ok::<SettlementStatus, SettlementError>(
            if spec_hand_total(cards.player@) == total && spec_hand_total(cards.banker@) == total {
                SettlementStatus::Win
            } else {
                SettlementStatus::Lose
            },
        ),
        spec_settlement_status(cards, bet_type, matched) == Ok::<SettlementStatus, SettlementError>(
            SettlementStatus::Win,
        ) ==> spec_winner(cards) == Winner::Tie,
{
}

/// Player bets win on a higher player total, push on equal totals and lose
/// otherwise; Banker bets mirror them; Tie bets win exactly on equal totals.
pub proof fn lemma_main_bets_by_totals(cards: DealtHands, matched: Seq<BetOutcome>)
    ensures
        spec_settlement_status(cards, BetType::Player, matched) == Ok::<SettlementStatus, SettlementError>(
            if spec_hand_total(cards.player@) > spec_hand_total(cards.banker@) {
                SettlementStatus::Win
            } else if spec_hand_total(cards.player@) == spec_hand_total(cards.banker@) {
                SettlementStatus::Push
            } else {
                SettlementStatus::Lose
            },
        ),
        spec_settlement_status(cards, BetType::Banker, matched) == Ok::<SettlementStatus, SettlementError>(
            if spec_hand_total(cards.banker@) > spec_hand_total(cards.player@) {
                SettlementStatus::Win
            } else if spec_hand_total(cards.player@) == spec_hand_total(cards.banker@) {
                SettlementStatus::Push
            } else {
                SettlementStatus::Lose
            },
        ),
        spec_settlement_status(cards, BetType::Tie, matched) == Ok::<SettlementStatus, SettlementError>(
            if spec_hand_total(cards.player@) == spec_hand_total(cards.banker@) {
                SettlementStatus::Win
            } else {
                SettlementStatus::Lose
            },
        ),
{
}

/// Win, lose or push of the bet on the dealt hands: Player and Banker push
/// on a tie, Tie and super ties win only on their tie, bets with outcome
/// buckets win when a bucket matched.
pub fn settlement_status(cards: &DealtHands, bet_type: BetType, matched_outcomes: &[BetOutcome]) -> (r: Result<
    SettlementStatus,
    SettlementError,
>)
    requires
        hands_fit(*cards),
    ensures
        match spec_settlement_status(*cards, bet_type, matched_outcomes@) {
            Ok(s) => r == Ok::<SettlementStatus, SettlementError>(s),
            Err(e) => r matches Err(x) && x == e,
        },
{
    match bet_type {
        BetType::Player => match winner(cards) {
            Winner::Player => Ok(SettlementStatus::Win),
            Winner::Banker => Ok(SettlementStatus::Lose),
            Winner::Tie => Ok(SettlementStatus::Push),
        },
        BetType::Banker => match winner(cards) {
            Winner::Banker => Ok(SettlementStatus::Win),
            Winner::Player => Ok(SettlementStatus::Lose),
            Winner::Tie => Ok(SettlementStatus::Push),
        },
        BetType::Tie => match winner(cards) {
            Winner::Tie => Ok(SettlementStatus::Win),
            _ => Ok(SettlementStatus::Lose),
        },
        BetType::PerfectPair | BetType::Monkey | BetType::Tiger => {
            if matched_outcomes.len() == 0 {
                Ok(SettlementStatus::Lose)
            } else {
                Ok(SettlementStatus::Win)
            }
        },
        _ => match super_tie_total(bet_type) {
            Some(total) => {
                if hand_total(&cards.player) == total && hand_total(&cards.banker) == total {
                    Ok(SettlementStatus::Win)
                } else {
                    Ok(SettlementStatus::Lose)
                }
            },
            None => Err(SettlementError::UnsupportedBetType(bet_type)),
        },
    }
}

/// The first odds entry from position `i` on with a negative value or more
/// than two decimal places.
pub open spec fn first_odds_error(odds: Seq<SettlementOutcomeOdds>, id: String, i: int) -> Option<SettlementError>
    decreases odds.len() - i,
{
    if i < 0 || i >= odds.len() {
        None
    } else if odds[i].odds.mantissa < 0 {
        Some(SettlementError::NegativeOdds(id))
    } else if odds[i].odds.scale > 2 {
        Some(SettlementError::OddsScale(id))
    } else {
        first_odds_error(odds, id, i + 1)
    }
}

/// Odds must be nonnegative with at most two decimal places.
pub open spec fn spec_odds_error(odds: SettlementOddsSpec, id: String) -> Option<SettlementError> {
    match odds {
        SettlementOddsSpec::Simple(o) => if o.mantissa < 0 {
            Some(SettlementError::NegativeOdds(id))
        } else if o.scale > 2 {
            Some(SettlementError::OddsScale(id))
        } else {
            None
        },
        SettlementOddsSpec::ByOutcome(list) => first_odds_error(list@, id, 0),
    }
}

/// Checks the odds values of a settlement.
fn validate_odds(odds: &SettlementOddsSpec, id: &String) -> (r: Result<(), SettlementError>)
    ensures
        match spec_odds_error(*odds, *id) {
            Some(e) => r matches Err(x) && x == e,
            None => r is Ok,
        },
{
    match odds {
        SettlementOddsSpec::Simple(o) => {
            if o.is_negative() {
                Err(SettlementError::NegativeOdds(id.clone()))
            } else if o.scale > 2 {
                Err(SettlementError::OddsScale(id.clone()))
            } else {
                Ok(())
            }
        },
        SettlementOddsSpec::ByOutcome(list) => {
            let mut i: usize = 0;
            while i < list.len()
                invariant
                    i <= list@.len(),
                    *odds == SettlementOddsSpec::ByOutcome(*list),
                    first_odds_error(list@, *id, 0) == first_odds_error(list@, *id, i as int),
                decreases list@.len() - i,
            {
                if list[i].odds.is_negative() {
                    return Err(SettlementError::NegativeOdds(id.clone()));
                }
                if list[i].odds.scale > 2 {
                    return Err(SettlementError::OddsScale(id.clone()));
                }
                i = i + 1;
            }
            Ok(())
        },
    }
}

/// The first outcome odds entry from position `i` on for a bucket outside
/// `allowed`, or for a bucket that a later entry names again.
pub open spec fn first_outcome_error(
    odds: Seq<SettlementOutcomeOdds>,
    allowed: Seq<BetOutcome>,
    id: String,
    i: int,
) -> Option<SettlementError>
    decreases odds.len() - i,
{
    if i < 0 || i >= odds.len() {
        None
    } else if !allowed.contains(odds[i].outcome) {
        Some(SettlementError::IrrelevantOutcomeOdds(id))
    } else if exists|j: int| i < j < odds.len() && (#[trigger] odds[j]).outcome == odds[i].outcome {
        Some(SettlementError::DuplicateOutcomeOdds(id))
    } else {
        first_outcome_error(odds, allowed, id, i + 1)
    }
}

/// The bucket has an entry among the outcome odds.
pub open spec fn priced(odds: Seq<SettlementOutcomeOdds>, outcome: BetOutcome) -> bool {
    exists|k: int| 0 <= k < odds.len() && (#[trigger] odds[k]).outcome == outcome
}

/// Every required bucket has an entry among the outcome odds.
pub open spec fn all_priced(odds: Seq<SettlementOutcomeOdds>, required: Seq<BetOutcome>) -> bool {
    forall|i: int| 0 <= i < required.len() ==> priced(odds, #[trigger] required[i])
}

/// Outcome odds are only for bets with outcome buckets, only for buckets
/// the bet can win on under its mode, at most once per bucket, and present
/// for every such bucket.
pub open spec fn spec_outcome_odds_error(spec: SettlementSpec) -> Option<SettlementError> {
    match spec.odds {
        SettlementOddsSpec::Simple(_) => None,
        SettlementOddsSpec::ByOutcome(list) => {
            let allowed = spec_settlement_allowed_outcomes(spec.bet_type, spec.mode);
            if allowed.len() == 0 {
                Some(SettlementError::OutcomeOddsUnsupported(spec.id))
            } else {
                match first_outcome_error(list@, allowed, spec.id, 0) {
                    Some(e) => Some(e),
                    None => if all_priced(list@, allowed) {
                        None
                    } else {
                        Some(SettlementError::MissingOutcomeOdds(spec.id))
                    },
                }
            }
        },
    }
}

/// No outcome-odds entry from position `i` on is refused exactly when every
/// such entry is for a bucket of `allowed` and no two of them are for the
/// same bucket.
pub proof fn lemma_first_outcome_error(
    odds: Seq<SettlementOutcomeOdds>,
    allowed: Seq<BetOutcome>,
    id: String,
    i: int,
)
    requires
        0 <= i <= odds.len(),
    ensures
        first_outcome_error(odds, allowed, id, i) is None <==> ((forall|k: int|
            i <= k < odds.len() ==> allowed.contains((#[trigger] odds[k]).outcome)) && (forall|k1: int, k2: int|
            i <= k1 < k2 < odds.len() ==> (#[trigger] odds[k1]).outcome != (#[trigger] odds[k2]).outcome)),
    decreases odds.len() - i,
{
    if i < odds.len() {
        lemma_first_outcome_error(odds, allowed, id, i + 1);
        if allowed.contains(odds[i].outcome) && exists|j: int|
            i < j < odds.len() && (#[trigger] odds[j]).outcome == odds[i].outcome {
            let j = choose|j: int| i < j < odds.len() && (#[trigger] odds[j]).outcome == odds[i].outcome;
            assert(odds[i].outcome == odds[j].outcome);
        }
    }
}

/// The outcome odds of a settlement are accepted exactly when they are
/// plain odds, or when the bet has outcome buckets under its mode, every
/// entry is for such a bucket, no bucket has two entries, and every such
/// bucket has one.
pub proof fn lemma_settlement_outcome_odds_accepted(spec: SettlementSpec)
    ensures
        match spec.odds {
            SettlementOddsSpec::Simple(_) => spec_outcome_odds_error(spec) is None,
            SettlementOddsSpec::ByOutcome(list) => {
                let allowed = spec_settlement_allowed_outcomes(spec.bet_type, spec.mode);
                spec_outcome_odds_error(spec) is None <==> (allowed.len() > 0 && (forall|k: int|
                    0 <= k < list@.len() ==> allowed.contains((#[trigger] list@[k]).outcome)) && (forall|
                    k1: int,
                    k2: int,
                | 0 <= k1 < k2 < list@.len() ==> (#[trigger] list@[k1]).outcome != (#[trigger] list@[k2]).outcome)
                    && (forall|o: BetOutcome|
                    #[trigger] allowed.contains(o) ==> exists|k: int|
                        0 <= k < list@.len() && (#[trigger] list@[k]).outcome == o))
            },
        },
{
    match spec.odds {
        SettlementOddsSpec::Simple(_) => {},
        SettlementOddsSpec::ByOutcome(list) => {
            let allowed = spec_settlement_allowed_outcomes(spec.bet_type, spec.mode);
            lemma_first_outcome_error(list@, allowed, spec.id, 0);
            assert(all_priced(list@, allowed) <==> (forall|o: BetOutcome|
                #[trigger] allowed.contains(o) ==> exists|k: int|
                    0 <= k < list@.len() && (#[trigger] list@[k]).outcome == o)) by {
                if all_priced(list@, allowed) {
                    assert forall|o: BetOutcome| #[trigger] allowed.contains(o) implies exists|k: int|
                        0 <= k < list@.len() && (#[trigger] list@[k]).outcome == o by {
                        let x = choose|x: int| 0 <= x < allowed.len() && allowed[x] == o;
                        assert(priced(list@, allowed[x]));
                    }
                } else {
                    let i = choose|i: int| 0 <= i < allowed.len() && !priced(list@, #[trigger] allowed[i]);
                    assert(allowed.contains(allowed[i]));
                }
            }
        },
    }
}

fn contains_outcome(outcomes: &Vec<BetOutcome>, outcome: BetOutcome) -> (r: bool)
    ensures
        r == outcomes@.contains(outcome),
{
    let mut i: usize = 0;
    while i < outcomes.len()
        invariant
            i <= outcomes@.len(),
            forall|j: int| 0 <= j < i ==> outcomes@[j] != outcome,
        decreases outcomes@.len() - i,
    {
        if outcomes[i] == outcome {
            assert(outcomes@[i as int] == outcome);
            return true;
        }
        i = i + 1;
    }
    false
}

/// Checks the outcome odds of a settlement against its bet and mode.
fn validate_outcome_odds(spec: &SettlementSpec) -> (r: Result<(), SettlementError>)
    ensures
        match spec_outcome_odds_error(*spec) {
            Some(e) => r matches Err(x) && x == e,
            None => r is Ok,
        },
{
    let list = match &spec.odds {
        SettlementOddsSpec::Simple(_) => {
            return Ok(());
        },
        SettlementOddsSpec::ByOutcome(list) => list,
    };
    let allowed = settlement_allowed_outcomes(spec.bet_type, spec.mode);
    if allowed.len() == 0 {
        return Err(SettlementError::OutcomeOddsUnsupported(spec.id.clone()));
    }
    let mut index: usize = 0;
    while index < list.len()
        invariant
            index <= list@.len(),
            allowed@ == spec_settlement_allowed_outcomes(spec.bet_type, spec.mode),
            allowed@.len() > 0,
            spec.odds == SettlementOddsSpec::ByOutcome(*list),
            first_outcome_error(list@, allowed@, spec.id, 0) == first_outcome_error(
                list@,
                allowed@,
                spec.id,
                index as int,
            ),
        decreases list@.len() - index,
    {
        let outcome = list[index].outcome;
        if !contains_outcome(&allowed, outcome) {
            return Err(SettlementError::IrrelevantOutcomeOdds(spec.id.clone()));
        }
        let mut j: usize = index + 1;
        while j < list.len()
            invariant
                index < j <= list@.len(),
                outcome == list@[index as int].outcome,
                allowed@ == spec_settlement_allowed_outcomes(spec.bet_type, spec.mode),
                allowed@.len() > 0,
                allowed@.contains(outcome),
                spec.odds == SettlementOddsSpec::ByOutcome(*list),
                first_outcome_error(list@, allowed@, spec.id, 0) == first_outcome_error(
                    list@,
                    allowed@,
                    spec.id,
                    index as int,
                ),
                forall|k: int| index < k < j ==> (#[trigger] list@[k]).outcome != outcome,
            decreases list@.len() - j,
        {
            if list[j].outcome == outcome {
                assert(list@[j as int].outcome == list@[index as int].outcome);
                return Err(SettlementError::DuplicateOutcomeOdds(spec.id.clone()));
            }
            j = j + 1;
        }
        index = index + 1;
    }
    let ghost allowed_view = allowed@;
    let required = allowed;
    let mut r: usize = 0;
    while r < required.len()
        invariant
            r <= required@.len(),
            required@ == spec_settlement_allowed_outcomes(spec.bet_type, spec.mode),
            required@.len() > 0,
            spec.odds == SettlementOddsSpec::ByOutcome(*list),
            required@ == allowed_view,
            first_outcome_error(list@, allowed_view, spec.id, 0) is None,
            forall|i: int| 0 <= i < r ==> priced(list@, #[trigger] required@[i]),
        decreases required@.len() - r,
    {
        let needed = required[r];
        let mut k: usize = 0;
        let mut found = false;
        while k < list.len()
            invariant
                k <= list@.len(),
                found ==> priced(list@, needed),
                !found ==> forall|x: int| 0 <= x < k ==> (#[trigger] list@[x]).outcome != needed,
            decreases list@.len() - k,
        {
            if list[k].outcome == needed {
                found = true;
            }
            k = k + 1;
        }
        if !found {
            assert(!all_priced(list@, required@)) by {
                assert(required@[r as int] == needed);
            }
            return Err(SettlementError::MissingOutcomeOdds(spec.id.clone()));
        }
        r = r + 1;
    }
    Ok(())
}

/// Why the input of a settlement is refused, checked in this order: blank
/// identifier, stake not positive, stake with more than two decimal places,
/// a hand of fewer than two cards, a mode of another bet, bad odds values,
/// bad outcome odds.
pub open spec fn spec_validation_error(cards: DealtHands, spec: SettlementSpec) -> Option<SettlementError> {
    if spec_is_blank(spec.id@) {
        Some(SettlementError::BlankId)
    } else if spec.amount.mantissa <= 0 {
        Some(SettlementError::NonPositiveAmount(spec.id))
    } else if spec.amount.scale > 2 {
        Some(SettlementError::AmountScale(spec.id))
    } else if cards.player@.len() < 2 || cards.banker@.len() < 2 {
        Some(SettlementError::TooFewCards)
    } else {
        match spec_mode_compatibility(spec.bet_type, spec.mode) {
            Err(e) => Some(SettlementError::IncompatibleMode(spec.id, e)),
            Ok(_) => match spec_odds_error(spec.odds, spec.id) {
                Some(e) => Some(e),
                None => spec_outcome_odds_error(spec),
            },
        }
    }
}

/// Checks a settlement's input.
pub fn validate_settlement_input(cards: &DealtHands, spec: &SettlementSpec) -> (r: Result<(), SettlementError>)
    ensures
        match spec_validation_error(*cards, *spec) {
            Some(e) => r matches Err(x) && x == e,
            None => r is Ok,
        },
{
    if is_blank(spec.id.as_str()) {
        return Err(SettlementError::BlankId);
    }
    if spec.amount.is_not_positive() {
        return Err(SettlementError::NonPositiveAmount(spec.id.clone()));
    }
    if spec.amount.scale > 2 {
        return Err(SettlementError::AmountScale(spec.id.clone()));
    }
    if cards.player.len() < 2 || cards.banker.len() < 2 {
        return Err(SettlementError::TooFewCards);
    }
    match validate_mode_compatibility(spec.bet_type, spec.mode) {
        Err(e) => {
            return Err(SettlementError::IncompatibleMode(spec.id.clone(), e));
        },
        Ok(_) => {},
    }
    match validate_odds(&spec.odds, &spec.id) {
        Err(e) => {
            return Err(e);
        },
        Ok(_) => {},
    }
    validate_outcome_odds(spec)
}

/// The odds of the first entry from position `i` on for the bucket.
pub open spec fn find_odds(odds: Seq<SettlementOutcomeOdds>, outcome: BetOutcome, i: int) -> Option<DecimalNumber>
    decreases odds.len() - i,
{
    if i < 0 || i >= odds.len() {
        None
    } else if odds[i].outcome == outcome {
        Some(odds[i].odds)
    } else {
        find_odds(odds, outcome, i + 1)
    }
}

/// `prefix` before the entries of `r`, or the error of `r`.
pub open spec fn prepend_resolved(prefix: Seq<ResolvedOdds>, r: Result<Seq<ResolvedOdds>, SettlementError>) -> Result<
    Seq<ResolvedOdds>,
    SettlementError,
> {
    match r {
        Ok(rest) => Ok(prefix + rest),
        Err(e) => Err(e),
    }
}

/// Odds for the matched buckets from position `i` on, each from the first
/// entry for its bucket; an error for a bucket without odds.
pub open spec fn resolve_from(odds: Seq<SettlementOutcomeOdds>, matched: Seq<BetOutcome>, id: String, i: int) -> Result<
    Seq<ResolvedOdds>,
    SettlementError,
>
    decreases matched.len() - i,
{
    if i < 0 || i >= matched.len() {
        Ok(Seq::empty())
    } else {
        match find_odds(odds, matched[i], 0) {
            None => Err(SettlementError::MissingOutcomeOdds(id)),
            Some(o) => prepend_resolved(
                seq![ResolvedOdds { outcome: Some(matched[i]), odds: o }],
                resolve_from(odds, matched, id, i + 1),
            ),
        }
    }
}

/// The odds applied to a winning bet: the single value (tagged with the
/// first matched bucket, if any), or the outcome odds of each matched
/// bucket.
pub open spec fn spec_applied_odds(spec: SettlementSpec, matched: Seq<BetOutcome>) -> Result<
    Seq<ResolvedOdds>,
    SettlementError,
> {
    match spec.odds {
        SettlementOddsSpec::Simple(o) => Ok(
            seq![
                ResolvedOdds {
                    outcome: if matched.len() > 0 {
                        Some(matched[0])
                    } else {
                        None
                    },
                    odds: o,
                },
            ],
        ),
        SettlementOddsSpec::ByOutcome(list) => resolve_from(list@, matched, spec.id, 0),
    }
}

fn find_outcome_odds(odds: &Vec<SettlementOutcomeOdds>, outcome: BetOutcome) -> (r: Option<DecimalNumber>)
    ensures
        r == find_odds(odds@, outcome, 0),
{
    let mut i: usize = 0;
    while i < odds.len()
        invariant
            i <= odds@.len(),
            find_odds(odds@, outcome, 0) == find_odds(odds@, outcome, i as int),
        decreases odds@.len() - i,
    {
        if odds[i].outcome == outcome {
            return Some(odds[i].odds);
        }
        i = i + 1;
    }
    None
}

/// The odds applied to a winning bet.
fn applied_odds(spec: &SettlementSpec, matched_outcomes: &Vec<BetOutcome>) -> (r: Result<
    Vec<ResolvedOdds>,
    SettlementError,
>)
    ensures
        match spec_applied_odds(*spec, matched_outcomes@) {
            Ok(s) => r matches Ok(v) && v@ == s,
            Err(e) => r matches Err(x) && x == e,
        },
{
    match &spec.odds {
        SettlementOddsSpec::Simple(o) => {
            let outcome = if matched_outcomes.len() > 0 {
                Some(matched_outcomes[0])
            } else {
                None
            };
            Ok(vec![ResolvedOdds { outcome, odds: *o }])
        },
        SettlementOddsSpec::ByOutcome(list) => {
            let mut resolved: Vec<ResolvedOdds> = Vec::new();
            let mut i: usize = 0;
            while i < matched_outcomes.len()
                invariant
                    i <= matched_outcomes@.len(),
                    spec.odds == SettlementOddsSpec::ByOutcome(*list),
                    resolve_from(list@, matched_outcomes@, spec.id, 0) == prepend_resolved(
                        resolved@,
                        resolve_from(list@, matched_outcomes@, spec.id, i as int),
                    ),
                decreases matched_outcomes@.len() - i,
            {
                let matched = matched_outcomes[i];
                let odds = match find_outcome_odds(list, matched) {
                    Some(o) => o,
                    None => {
                        return Err(SettlementError::MissingOutcomeOdds(spec.id.clone()));
                    },
                };
                let ghost before = resolved@;
                resolved.push(ResolvedOdds { outcome: Some(matched), odds });
                proof {
                    let row = seq![ResolvedOdds { outcome: Some(matched), odds }];
                    assert(before + row == resolved@);
                    match resolve_from(list@, matched_outcomes@, spec.id, i + 1) {
                        Ok(rest) => {
                            assert(before + (row + rest) == resolved@ + rest);
                        },
                        Err(_) => {},
                    }
                }
                i = i + 1;
            }
            proof {
                assert(resolved@ + Seq::<ResolvedOdds>::empty() == resolved@);
            }
            Ok(resolved)
        },
    }
}

/// Sum of the first `m` applied odds, added one by one to zero.
pub open spec fn spec_odds_total(applied: Seq<ResolvedOdds>, m: int) -> DecimalNumber
    decreases m,
{
    if m <= 0 {
        DecimalNumber::spec_zero()
    } else {
        spec_decimal_add(spec_odds_total(applied, m - 1), applied[m - 1].odds)
    }
}

/// Profit, rounded to cents: stake times the total odds on a win, the lost
/// stake on a loss, nothing on a push.
pub open spec fn spec_profit(status: SettlementStatus, amount: DecimalNumber, total: DecimalNumber) -> DecimalNumber {
    spec_round_dp(
        match status {
            SettlementStatus::Win => spec_decimal_mul(amount, total),
            SettlementStatus::Lose => amount.spec_neg(),
            SettlementStatus::Push => DecimalNumber::spec_zero(),
        },
        2,
    )
}

/// Payout, rounded to cents: stake plus profit on a win, nothing on a loss,
/// the stake on a push.
pub open spec fn spec_payout(status: SettlementStatus, amount: DecimalNumber, profit: DecimalNumber) -> DecimalNumber {
    spec_round_dp(
        match status {
            SettlementStatus::Win => spec_decimal_add(amount, profit),
            SettlementStatus::Lose => DecimalNumber::spec_zero(),
            SettlementStatus::Push => amount,
        },
        2,
    )
}

/// Stake times an odds value is an exact decimal, and so is the stake plus
/// that product rounded to cents: the money of a win never leaves exact
/// 96-bit decimals.
pub open spec fn odds_within(amount: DecimalNumber, o: DecimalNumber) -> bool {
    &&& mul_fits(amount, o)
    &&& add_fits(amount, spec_round_dp(spec_decimal_mul(amount, o), 2))
}

/// The stake is representable and every odds value stays within the stake's
/// exact range.
pub open spec fn money_fits(spec: SettlementSpec) -> bool {
    &&& spec.amount.is_valid()
    &&& match spec.odds {
        SettlementOddsSpec::Simple(o) => odds_within(spec.amount, o),
        SettlementOddsSpec::ByOutcome(list) => forall|i: int|
            0 <= i < list@.len() ==> odds_within(spec.amount, #[trigger] list@[i].odds),
    }
}

/// Whether an odds value lies within the stake's exact range.
fn odds_within_exec(amount: DecimalNumber, odds: DecimalNumber) -> (r: bool)
    requires
        amount.is_valid(),
    ensures
        r == odds_within(amount, odds),
{
    if !mul_fits_exec(amount, odds) {
        return false;
    }
    let product = decimal_mul(amount, odds);
    proof {
        lemma_round_cents(product);
    }
    let profit = decimal_round_dp(product, 2);
    add_fits_exec(amount, profit)
}

/// Whether the stake is representable and every odds value stays within
/// the stake's exact range.
pub fn money_fits_exactly(spec: &SettlementSpec) -> (r: bool)
    ensures
        r == money_fits(*spec),
{
    let amount = spec.amount;
    if !(amount.scale <= 28 && -DECIMAL_MANTISSA_MAX <= amount.mantissa && amount.mantissa <= DECIMAL_MANTISSA_MAX) {
        return false;
    }
    match &spec.odds {
        SettlementOddsSpec::Simple(o) => odds_within_exec(amount, *o),
        SettlementOddsSpec::ByOutcome(list) => {
            let mut i: usize = 0;
            while i < list.len()
                invariant
                    i <= list@.len(),
                    amount == spec.amount,
                    amount.is_valid(),
                    spec.odds == SettlementOddsSpec::ByOutcome(*list),
                    forall|k: int| 0 <= k < i ==> odds_within(amount, #[trigger] list@[k].odds),
                decreases list@.len() - i,
            {
                if !odds_within_exec(amount, list[i].odds) {
                    return false;
                }
                i = i + 1;
            }
            true
        },
    }
}

/// An odds value that passed validation and lies within the stake's exact
/// range.
pub open spec fn odds_checked(amount: DecimalNumber, o: DecimalNumber) -> bool {
    odds_within(amount, o) && o.mantissa >= 0 && o.scale <= 2
}

/// The result of settling the bet, step by step: refused input, outcome
/// matching, status, applied odds, then money.
pub open spec fn settles_as(cards: DealtHands, spec: SettlementSpec, r: Result<SettlementResult, SettlementError>) -> bool {
    match spec_validation_error(cards, spec) {
        Some(e) => r matches Err(x) && x == e,
        None => if !money_fits(spec) {
            r matches Err(x) && x == SettlementError::InexactMoney(spec.id)
        } else {
            settles_after_checks(cards, spec, r)
        },
    }
}

/// The result of settling checked input: outcome matching, status, applied
/// odds, then money.
pub open spec fn settles_after_checks(cards: DealtHands, spec: SettlementSpec, r: Result<SettlementResult, SettlementError>) -> bool {
    match spec_matched_outcomes(cards, spec.bet_type, spec.mode) {
        Err(e) => r matches Err(x) && x == e,
        Ok(m) => match spec_settlement_status(cards, spec.bet_type, m) {
            Err(e) => r matches Err(x) && x == e,
            Ok(st) => match (if st == SettlementStatus::Win {
                spec_applied_odds(spec, m)
            } else {
                Ok(Seq::empty())
            }) {
                Err(e) => r matches Err(x) && x == e,
                Ok(a) => r matches Ok(res) && res.id == spec.id && res.bet_type == spec.bet_type && res.mode
                    == spec.mode && res.status == st && res.matched_outcomes@ == m && res.stake == spec.amount
                    && res.applied_odds@ == a && res.profit == spec_profit(
                    st,
                    spec.amount,
                    spec_odds_total(a, a.len() as int),
                ) && res.payout == spec_payout(st, spec.amount, res.profit),
            },
        },
    }
}

/// A settled bet reports what the hands show: Player, Banker and Tie bets
/// by comparing the totals (Player and Banker push on equal totals), a
/// super tie wins exactly when both hands end on its total, a Tiger bet
/// wins exactly when the Banker wins with six on two or three cards.
pub proof fn lemma_settled_status_follows_hands(cards: DealtHands, spec: SettlementSpec, res: SettlementResult)
    requires
        settles_as(cards, spec, Ok(res)),
    ensures
        spec.bet_type == BetType::Player ==> res.status == (if spec_hand_total(cards.player@) > spec_hand_total(
            cards.banker@,
        ) {
            SettlementStatus::Win
        } else if spec_hand_total(cards.player@) == spec_hand_total(cards.banker@) {
            SettlementStatus::Push
        } else {
            SettlementStatus::Lose
        }),
        spec.bet_type == BetType::Banker ==> res.status == (if spec_hand_total(cards.banker@) > spec_hand_total(
            cards.player@,
        ) {
            SettlementStatus::Win
        } else if spec_hand_total(cards.player@) == spec_hand_total(cards.banker@) {
            SettlementStatus::Push
        } else {
            SettlementStatus::Lose
        }),
        spec.bet_type == BetType::Tie ==> (res.status == SettlementStatus::Win <==> spec_hand_total(cards.player@)
            == spec_hand_total(cards.banker@)),
        spec.bet_type == BetType::SuperTie0 ==> (res.status == SettlementStatus::Win <==> spec_hand_total(
            cards.player@,
        ) == 0 && spec_hand_total(cards.banker@) == 0),
        spec.bet_type == BetType::SuperTie1 ==> (res.status == SettlementStatus::Win <==> spec_hand_total(
            cards.player@,
        ) == 1 && spec_hand_total(cards.banker@) == 1),
        spec.bet_type == BetType::SuperTie2 ==> (res.status == SettlementStatus::Win <==> spec_hand_total(
            cards.player@,
        ) == 2 && spec_hand_total(cards.banker@) == 2),
        spec.bet_type == BetType::SuperTie3 ==> (res.status == SettlementStatus::Win <==> spec_hand_total(
            cards.player@,
        ) == 3 && spec_hand_total(cards.banker@) == 3),
        spec.bet_type == BetType::SuperTie4 ==> (res.status == SettlementStatus::Win <==> spec_hand_total(
            cards.player@,
        ) == 4 && spec_hand_total(cards.banker@) == 4),
        spec.bet_type == BetType::SuperTie5 ==> (res.status == SettlementStatus::Win <==> spec_hand_total(
            cards.player@,
        ) == 5 && spec_hand_total(cards.banker@) == 5),
        spec.bet_type == BetType::SuperTie6 ==> (res.status == SettlementStatus::Win <==> spec_hand_total(
            cards.player@,
        ) == 6 && spec_hand_total(cards.banker@) == 6),
        spec.bet_type == BetType::SuperTie7 ==> (res.status == SettlementStatus::Win <==> spec_hand_total(
            cards.player@,
        ) == 7 && spec_hand_total(cards.banker@) == 7),
        spec.bet_type == BetType::SuperTie8 ==> (res.status == SettlementStatus::Win <==> spec_hand_total(
            cards.player@,
        ) == 8 && spec_hand_total(cards.banker@) == 8),
        spec.bet_type == BetType::SuperTie9 ==> (res.status == SettlementStatus::Win <==> spec_hand_total(
            cards.player@,
        ) == 9 && spec_hand_total(cards.banker@) == 9),
        spec.bet_type == BetType::Tiger ==> (res.status == SettlementStatus::Win <==> spec_hand_total(cards.banker@)
            == 6 && spec_hand_total(cards.player@) < 6 && (cards.banker@.len() == 2 || cards.banker@.len() == 3)),
{
    let m = spec_matched_outcomes(cards, spec.bet_type, spec.mode)->Ok_0;
    lemma_main_bets_by_totals(cards, m);
    if spec.bet_type == BetType::Tiger {
        lemma_tiger_matches_banker_six(cards, spec.mode);
    }
        if spec.bet_type == BetType::SuperTie0 {
            lemma_super_tie_wins_on_its_tie(cards, spec.bet_type, m, 0);
        }
        if spec.bet_type == BetType::SuperTie1 {
            lemma_super_tie_wins_on_its_tie(cards, spec.bet_type, m, 1);
        }
        if spec.bet_type == BetType::SuperTie2 {
            lemma_super_tie_wins_on_its_tie(cards, spec.bet_type, m, 2);
        }
        if spec.bet_type == BetType::SuperTie3 {
            lemma_super_tie_wins_on_its_tie(cards, spec.bet_type, m, 3);
        }
        if spec.bet_type == BetType::SuperTie4 {
            lemma_super_tie_wins_on_its_tie(cards, spec.bet_type, m, 4);
        }
        if spec.bet_type == BetType::SuperTie5 {
            lemma_super_tie_wins_on_its_tie(cards, spec.bet_type, m, 5);
        }
        if spec.bet_type == BetType::SuperTie6 {
            lemma_super_tie_wins_on_its_tie(cards, spec.bet_type, m, 6);
        }
        if spec.bet_type == BetType::SuperTie7 {
            lemma_super_tie_wins_on_its_tie(cards, spec.bet_type, m, 7);
        }
        if spec.bet_type == BetType::SuperTie8 {
            lemma_super_tie_wins_on_its_tie(cards, spec.bet_type, m, 8);
        }
        if spec.bet_type == BetType::SuperTie9 {
            lemma_super_tie_wins_on_its_tie(cards, spec.bet_type, m, 9);
        }
}

proof fn lemma_matched_at_most_one(cards: DealtHands, bet_type: BetType, mode: Option<BetMode>)
    ensures
        spec_matched_outcomes(cards, bet_type, mode) matches Ok(m) ==> m.len() <= 1,
{
}

proof fn lemma_odds_checked(list: Seq<SettlementOutcomeOdds>, id: String, i: int)
    requires
        0 <= i,
        first_odds_error(list, id, i) is None,
    ensures
        forall|j: int| i <= j < list.len() ==> (#[trigger] list[j]).odds.mantissa >= 0 && list[j].odds.scale <= 2,
    decreases list.len() - i,
{
    if i < list.len() {
        lemma_odds_checked(list, id, i + 1);
    }
}

proof fn lemma_find_odds_entry(list: Seq<SettlementOutcomeOdds>, outcome: BetOutcome, i: int)
    requires
        0 <= i,
        find_odds(list, outcome, i) is Some,
    ensures
        exists|j: int| i <= j < list.len() && (#[trigger] list[j]).odds == find_odds(list, outcome, i)->Some_0,
    decreases list.len() - i,
{
    if i < list.len() && list[i].outcome != outcome {
        lemma_find_odds_entry(list, outcome, i + 1);
    }
}

proof fn lemma_resolve_entries(list: Seq<SettlementOutcomeOdds>, matched: Seq<BetOutcome>, id: String, i: int)
    requires
        0 <= i,
        resolve_from(list, matched, id, i) is Ok,
    ensures
        (resolve_from(list, matched, id, i)->Ok_0).len() == if i < matched.len() {
            matched.len() - i
        } else {
            0
        },
        forall|k: int|
            0 <= k < (resolve_from(list, matched, id, i)->Ok_0).len() ==> exists|j: int|
                0 <= j < list.len() && (#[trigger] list[j]).odds == (#[trigger] (resolve_from(
                    list,
                    matched,
                    id,
                    i,
                )->Ok_0)[k]).odds,
    decreases matched.len() - i,
{
    if i < matched.len() {
        lemma_resolve_entries(list, matched, id, i + 1);
        lemma_find_odds_entry(list, matched[i], 0);
        let rest = resolve_from(list, matched, id, i + 1)->Ok_0;
        let o = find_odds(list, matched[i], 0)->Some_0;
        let all = resolve_from(list, matched, id, i)->Ok_0;
        assert(all == seq![ResolvedOdds { outcome: Some(matched[i]), odds: o }] + rest);
        assert forall|k: int| 0 <= k < all.len() implies exists|j: int|
            0 <= j < list.len() && (#[trigger] list[j]).odds == (#[trigger] all[k]).odds by {
            if k > 0 {
                assert(all[k] == rest[k - 1]);
            }
        }
    }
}

proof fn lemma_round_cents(d: DecimalNumber)
    requires
        d.is_valid(),
    ensures
        spec_round_dp(d, 2).scale <= 2,
        abs(spec_round_dp(d, 2).mantissa as int) <= abs(d.mantissa as int),
        spec_round_dp(d, 2).is_valid(),
        d.scale <= 2 ==> spec_round_dp(d, 2) == d,
{
    if d.scale > 2 && d.mantissa != 0 {
        let k = pow10(d.scale - 2);
        assert(k >= 10) by {
            reveal_with_fuel(pow10, 3);
            crate::money::lemma_pow10_grows(1, d.scale - 2);
        }
        let magnitude = abs(d.mantissa as int);
        assert(magnitude / k + 1 <= magnitude) by (nonlinear_arith)
            requires
                k >= 10,
                magnitude >= 1,
        {
            assert(magnitude / k <= magnitude / 10);
            assert(magnitude / 10 * 10 <= magnitude);
        }
    }
}

proof fn lemma_pow10_small()
    ensures
        pow10(0) == 1,
        pow10(1) == 10,
        pow10(2) == 100,
{
    reveal_with_fuel(pow10, 3);
}

proof fn lemma_lift_to_cents(x: DecimalNumber, s: int)
    requires
        0 <= x.scale <= s <= 2,
    ensures
        x.at_scale(s) * pow10(2 - s) == x.at_scale(2),
{
    lemma_pow10_small();
    let m = x.mantissa as int;
    let a = pow10(s - x.scale);
    let b = pow10(2 - s);
    assert(a * b == pow10(2 - x.scale)) by {
        if s == x.scale {
        } else if s - x.scale == 1 {
        } else {
        }
    }
    assert(m * a * b == m * (a * b)) by (nonlinear_arith);
}

/// The money of a settled bet, by status: a win pays the stake plus the
/// profit, a push returns the stake without profit, a loss pays nothing and
/// loses the stake (all in cents).
pub open spec fn money_follows_status(res: SettlementResult) -> bool {
    &&& res.payout.scale <= 2
    &&& res.profit.scale <= 2
    &&& match res.status {
        SettlementStatus::Win => res.payout.at_scale(2) == res.stake.at_scale(2) + res.profit.at_scale(2),
        SettlementStatus::Push => res.payout.at_scale(2) == res.stake.at_scale(2) && res.profit.mantissa == 0,
        SettlementStatus::Lose => res.payout.mantissa == 0 && res.profit.at_scale(2) == -res.stake.at_scale(2),
    }
}

proof fn lemma_money_follows_status(
    status: SettlementStatus,
    amount: DecimalNumber,
    raw_profit: DecimalNumber,
    profit: DecimalNumber,
    raw_payout: DecimalNumber,
    payout: DecimalNumber,
)
    requires
        amount.is_valid(),
        amount.scale <= 2,
        amount.mantissa > 0,
        profit == spec_round_dp(raw_profit, 2),
        profit.scale <= 2,
        raw_profit.is_valid(),
        raw_profit.scale <= 4,
        status == SettlementStatus::Lose ==> raw_profit == amount.spec_neg(),
        status == SettlementStatus::Push ==> raw_profit == DecimalNumber::spec_zero(),
        status == SettlementStatus::Win ==> crate::money::add_fits(amount, profit),
        raw_payout == (match status {
            SettlementStatus::Win => spec_decimal_add(amount, profit),
            SettlementStatus::Lose => DecimalNumber::spec_zero(),
            SettlementStatus::Push => amount,
        }),
        payout == spec_round_dp(raw_payout, 2),
    ensures
        payout.scale <= 2,
        match status {
            SettlementStatus::Win => payout.at_scale(2) == amount.at_scale(2) + profit.at_scale(2),
            SettlementStatus::Push => payout.at_scale(2) == amount.at_scale(2) && profit.mantissa == 0,
            SettlementStatus::Lose => payout.mantissa == 0 && profit.at_scale(2) == -amount.at_scale(2),
        },
{
    lemma_pow10_small();
    match status {
        SettlementStatus::Win => {
            if profit.mantissa == 0 {
                assert(profit.at_scale(2) == 0) by (nonlinear_arith)
                    requires
                        profit.mantissa == 0,
                        profit.at_scale(2) == profit.mantissa * pow10(2 - profit.scale),
                ;
            } else {
                let s = if amount.scale >= profit.scale {
                    amount.scale as int
                } else {
                    profit.scale as int
                };
                lemma_lift_to_cents(amount, s);
                lemma_lift_to_cents(profit, s);
                let raw = raw_payout;
                assert(raw.scale == s);
                assert(raw.mantissa == amount.at_scale(s) + profit.at_scale(s));
                assert(raw.at_scale(2) == (amount.at_scale(s) + profit.at_scale(s)) * pow10(2 - s));
                assert((amount.at_scale(s) + profit.at_scale(s)) * pow10(2 - s) == amount.at_scale(s) * pow10(2 - s)
                    + profit.at_scale(s) * pow10(2 - s)) by (nonlinear_arith);
            }
        },
        SettlementStatus::Push => {},
        SettlementStatus::Lose => {
            assert((-amount.mantissa) * pow10(2 - amount.scale) == -(amount.mantissa * pow10(2 - amount.scale))) by (
            nonlinear_arith);
        },
    }
}

/// Settles one bet against the final hands.
///
/// Refuses invalid input (see `spec_validation_error`), a mode of another
/// bet, and a matched bucket without outcome odds; otherwise reports the
/// status, matched buckets, applied odds, and profit and payout rounded to
/// cents. Valid input whose stake times an odds value, or stake plus that
/// profit rounded to cents, is not an exact 96-bit decimal (`money_fits`)
/// is refused too, right after the input checks.
pub fn settle_bet(cards: &DealtHands, spec: &SettlementSpec) -> (r: Result<SettlementResult, SettlementError>)
    requires
        hands_fit(*cards),
    ensures
        settles_as(*cards, *spec, r),
        r matches Ok(res) ==> money_follows_status(res),
{
    match validate_settlement_input(cards, spec) {
        Err(e) => {
            return Err(e);
        },
        Ok(_) => {},
    }
    if !money_fits_exactly(spec) {
        return Err(SettlementError::InexactMoney(spec.id.clone()));
    }
    let matched = match matched_outcomes(cards, spec.bet_type, spec.mode) {
        Ok(m) => m,
        Err(e) => {
            return Err(e);
        },
    };
    let status = match settlement_status(cards, spec.bet_type, &matched) {
        Ok(s) => s,
        Err(e) => {
            return Err(e);
        },
    };
    let applied = match status {
        SettlementStatus::Win => match applied_odds(spec, &matched) {
            Ok(a) => a,
            Err(e) => {
                return Err(e);
            },
        },
        _ => Vec::new(),
    };
    let amount = spec.amount;
    let ghost spec_odds = spec.odds;
    proof {
        lemma_matched_at_most_one(*cards, spec.bet_type, spec.mode);
        lemma_pow10_small();
        match spec_odds {
            SettlementOddsSpec::Simple(o) => {},
            SettlementOddsSpec::ByOutcome(list) => {
                lemma_odds_checked(list@, spec.id, 0);
                if status == SettlementStatus::Win {
                    lemma_resolve_entries(list@, matched@, spec.id, 0);
                }
            },
        }
    }
    // Every applied odds value is one of the spec's checked odds values, and
    // at most one is applied.
    assert(applied@.len() <= 1);
    assert(forall|k: int| 0 <= k < applied@.len() ==> odds_checked(amount, #[trigger] applied@[k].odds)) by {
        match spec_odds {
            SettlementOddsSpec::Simple(o) => {},
            SettlementOddsSpec::ByOutcome(list) => {
                assert forall|k: int| 0 <= k < applied@.len() implies odds_checked(amount, #[trigger] applied@[k].odds) by {
                    let j = choose|j: int| 0 <= j < list@.len() && (#[trigger] list@[j]).odds == applied@[k].odds;
                    assert(odds_within(amount, list@[j].odds));
                }
            },
        }
    }
    let mut total = DecimalNumber::zero();
    let mut i: usize = 0;
    while i < applied.len()
        invariant
            i <= applied@.len() <= 1,
            forall|k: int| 0 <= k < applied@.len() ==> odds_checked(amount, #[trigger] applied@[k].odds),
            total == spec_odds_total(applied@, i as int),
            i == 0 ==> total == DecimalNumber::spec_zero(),
            i == 1 ==> total == applied@[0].odds,
            pow10(0) == 1,
        decreases applied@.len() - i,
    {
        let o = applied[i].odds;
        assert(odds_checked(amount, applied@[i as int].odds));
        proof {
            assert(i == 0);
            let z = DecimalNumber::spec_zero();
            assert(z.at_scale(o.scale as int) == 0) by (nonlinear_arith)
                requires
                    z.mantissa == 0,
                    z.at_scale(o.scale as int) == z.mantissa * pow10(o.scale - z.scale),
            ;
            assert(o.at_scale(o.scale as int) == o.mantissa) by (nonlinear_arith)
                requires
                    pow10(0) == 1,
                    o.at_scale(o.scale as int) == o.mantissa * pow10(o.scale - o.scale),
            ;
            assert(abs(o.mantissa as int) <= DECIMAL_MANTISSA_MAX);
        }
        total = decimal_add(total, o);
        i = i + 1;
    }
    let raw_profit = match status {
        SettlementStatus::Win => {
            proof {
                if applied@.len() == 1 {
                    assert(odds_checked(amount, applied@[0].odds));
                }
            }
            decimal_mul(amount, total)
        },
        SettlementStatus::Lose => amount.neg(),
        SettlementStatus::Push => DecimalNumber::zero(),
    };
    proof {
        if status == SettlementStatus::Win && applied@.len() == 1 {
            assert(odds_checked(amount, applied@[0].odds));
        }
        lemma_round_cents(raw_profit);
    }
    let profit = decimal_round_dp(raw_profit, 2);
    let raw_payout = match status {
        SettlementStatus::Win => {
            proof {
                if applied@.len() == 1 {
                    assert(odds_checked(amount, applied@[0].odds));
                }
            }
            decimal_add(amount, profit)
        },
        SettlementStatus::Lose => DecimalNumber::zero(),
        SettlementStatus::Push => amount,
    };
    proof {
        lemma_round_cents(raw_payout);
    }
    let payout = decimal_round_dp(raw_payout, 2);
    proof {
        lemma_round_cents(raw_profit);
        lemma_money_follows_status(status, amount, raw_profit, profit, raw_payout, payout);
    }
    Ok(
        SettlementResult {
            id: spec.id.clone(),
            bet_type: spec.bet_type,
            mode: spec.mode,
            status,
            matched_outcomes: matched,
            stake: amount,
            payout,
            profit,
            applied_odds: applied,
        },
    )
}

/// The error of settling the bet, if it is refused.
pub open spec fn spec_settle_error(cards: DealtHands, spec: SettlementSpec) -> Option<SettlementError> {
    match spec_validation_error(cards, spec) {
        Some(e) => Some(e),
        None => if !money_fits(spec) {
            Some(SettlementError::InexactMoney(spec.id))
        } else {
            settle_error_after_checks(cards, spec)
        },
    }
}

/// The error of settling checked input, if it is refused.
pub open spec fn settle_error_after_checks(cards: DealtHands, spec: SettlementSpec) -> Option<SettlementError> {
    match spec_matched_outcomes(cards, spec.bet_type, spec.mode) {
        Err(e) => Some(e),
        Ok(m) => match spec_settlement_status(cards, spec.bet_type, m) {
            Err(e) => Some(e),
            Ok(st) => if st == SettlementStatus::Win {
                match spec_applied_odds(spec, m) {
                    Err(e) => Some(e),
                    Ok(_) => None,
                }
            } else {
                None
            },
        },
    }
}

/// The first refused bet from position `i` on, if any.
pub open spec fn first_settle_error(cards: DealtHands, specs: Seq<SettlementSpec>, i: int) -> Option<SettlementError>
    decreases specs.len() - i,
{
    if i < 0 || i >= specs.len() {
        None
    } else {
        match spec_settle_error(cards, specs[i]) {
            Some(e) => Some(e),
            None => first_settle_error(cards, specs, i + 1),
        }
    }
}

/// Settles a batch of bets against the same hands, in input order; the
/// first refused bet refuses the whole batch.
pub fn settle_bets(cards: &DealtHands, specs: &[SettlementSpec]) -> (r: Result<Vec<SettlementResult>, SettlementError>)
    requires
        hands_fit(*cards),
    ensures
        match first_settle_error(*cards, specs@, 0) {
            Some(e) => r matches Err(x) && x == e,
            None => r matches Ok(v) && v@.len() == specs@.len() && forall|i: int|
                0 <= i < specs@.len() ==> settles_as(
                    *cards,
                    #[trigger] specs@[i],
                    Ok::<SettlementResult, SettlementError>(v@[i]),
                ),
        },
{
    let mut results: Vec<SettlementResult> = Vec::new();
    let mut i: usize = 0;
    while i < specs.len()
        invariant
            i <= specs@.len(),
            hands_fit(*cards),
            first_settle_error(*cards, specs@, 0) == first_settle_error(*cards, specs@, i as int),
            results@.len() == i,
            forall|k: int|
                0 <= k < i ==> settles_as(
                    *cards,
                    #[trigger] specs@[k],
                    Ok::<SettlementResult, SettlementError>(results@[k]),
                ),
        decreases specs@.len() - i,
    {
        let result = settle_bet(cards, &specs[i]);
        match result {
            Ok(settled) => {
                results.push(settled);
            },
            Err(e) => {
                return Err(e);
            },
        }
        i = i + 1;
    }
    Ok(results)
}

} // verus!
