//! Exact baccarat probability, bet registry and settlement contracts.
//!
//! The remaining shoe is given as card counts; every probability is computed
//! as an exact ratio of ordered deals, and settlement works on exact decimal
//! money.
pub mod cards;
pub mod standard_baccarat;
pub mod sums;
pub mod terminal;
pub mod error;
pub mod shoe;
pub mod bet_registry;
pub mod outcome;
pub mod probability;
pub mod calculation;
pub mod mode_contract;
pub mod ev_spec;
pub mod money;
pub mod settlement;
pub mod text;
pub mod partition;
pub mod row_bounds;

pub use bet_registry::{
    bet_definitions, public_bet_id_for_type, public_probability_definitions, variant_bet_id, BetClass,
    BetDefinition, BetId, BetVariant, CharSiuVariant, DragonVariant, Flame7sVariant, Fortune4PairVariant,
    Heaven9Variant, Lucky6Variant, Lucky7Variant, NaturalVariant, SuperLucky7Variant, TigerPairVariant,
    TigerVariant,
};
pub use calculation::{calculate_exact_probabilities, OutcomeRatio, ProbabilityRow, VariantRatio};
pub use cards::{BetType, Card, CardCount, CardRank, CardSuit};
pub use error::CalculatorError;
pub use money::DecimalNumber;
pub use probability::ProbabilityRatio;
pub use settlement::{
    settle_bet, settle_bets, DealtHands, ResolvedOdds, SettlementError, SettlementOddsSpec, SettlementOutcomeOdds,
    SettlementResult, SettlementSpec, SettlementStatus,
};
pub use shoe::standard_eight_deck_cards;

use vstd::prelude::*;

verus! {

/// Outcome bucket of a public bet that pays on more than one branch.
///
/// Buckets refine odds and results for `Tiger`, `Lucky6`, `Monkey` and
/// `PerfectPair`; they do not replace the bet type.
#[derive(Clone, Copy, Debug, PartialEq, Eq, Structural)]
pub enum BetOutcome {
    /// Banker wins with six on two cards (`Tiger`).
    TigerTwoCards,
    /// Banker wins with six on three cards (`Tiger`).
    TigerThreeCards,
    /// Banker wins with six on two cards (`Lucky6`).
    Lucky6TwoCards,
    /// Banker wins with six on three cards (`Lucky6`).
    Lucky6ThreeCards,
    /// The opening four cards are all court cards (`Monkey`).
    Monkey,
    /// None of the opening four cards is a court card (`Monkey`).
    NoMonkey,
    /// Exactly one side opens with two identical cards (`PerfectPair`).
    PerfectPairSingleSide,
    /// Both sides open with two identical cards (`PerfectPair`).
    PerfectPairBothSides,
}

/// How `PerfectPair` is paid.
#[derive(Clone, Copy, Debug, PartialEq, Eq, Structural)]
pub enum PerfectPairMode {
    /// The single-side contract only; a both-sides hit is paid as single.
    Standard,
    /// Separate single-side and both-sides contracts.
    SinglePlusBoth,
}

/// How `Monkey` is paid.
#[derive(Clone, Copy, Debug, PartialEq, Eq, Structural)]
pub enum MonkeyMode {
    /// Pay the all-court `Monkey` or the no-court `NoMonkey` branch.
    Standard,
    /// Pay only the no-court `NoMonkey` branch.
    NoMonkeyOnly,
}

/// Branch handling of a bet with outcome buckets, for EV and settlement.
#[derive(Clone, Copy, Debug, PartialEq, Eq, Structural)]
pub enum BetMode {
    PerfectPair(PerfectPairMode),
    Monkey(MonkeyMode),
}

/// Which probability mass a rebate is paid on, for EV.
#[derive(Clone, Copy, Debug, PartialEq, Eq, Structural)]
pub enum EffectiveAmountMode {
    /// Pushes refund the stake and are excluded; Banker wins count at their
    /// net odds.
    Standard,
    /// The whole unit stake, whatever the outcome.
    TotalStake,
    /// Everything but the push or refund probability.
    NonRefund,
    /// The losing probability only.
    LosingOnly,
}

/// How a variant odds entry settles.
#[derive(Clone, Copy, Debug, PartialEq, Eq, Structural)]
pub enum OddsSettlement {
    /// A win pays the net odds as profit.
    Net,
    /// The outcome refunds the stake with no profit.
    Refund,
}

} // verus!
