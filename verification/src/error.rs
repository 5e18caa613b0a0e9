//! Errors reported by the calculator.
use vstd::prelude::*;

use crate::bet_registry::BetId;
use crate::cards::Card;

verus! {

/// Why the calculator refused its input.
#[derive(Clone, Copy, Debug, PartialEq, Eq, Structural)]
pub enum CalculatorError {
    /// No card counts were supplied.
    EmptyCards,
    /// An exact card appeared again after an earlier entry already gave it a
    /// nonzero count.
    DuplicateCard(Card),
    /// One exact card has more copies than an eight-deck shoe holds.
    CardCountExceedsMaximum(Card, u32),
    /// Fewer cards remain than a complete hand can need (six).
    InsufficientCards(u32),
    /// An opening-card bet has no probability in the opening statistics.
    OpeningWithoutProbabilityCoverage(BetId),
    /// An opening-card bet has no outcome breakdown in the opening
    /// statistics.
    OpeningWithoutEvCoverage(BetId),
    /// A child of an opening-card aggregate has no probability.
    OpeningAggregateChildWithoutCoverage(BetId),
    /// An aggregate bet has neither finished-hand nor opening-card children.
    AggregateWithoutCoverage(BetId),
}

} // verus!
