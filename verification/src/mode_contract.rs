//! Which outcome buckets each bet mode wins on, prices and accepts.
use vstd::prelude::*;

use crate::{BetMode, BetOutcome, BetType, MonkeyMode, PerfectPairMode};

verus! {

/// Why a mode does not fit a bet type.
#[derive(Clone, Copy, Debug, PartialEq, Eq, Structural)]
pub enum ModeError {
    /// The mode has no outcome contract for the bet type.
    IncompatibleWithBetType(BetMode, BetType),
    /// The mode belongs to another bet type.
    Incompatible(BetMode, BetType),
}

/// The outcome buckets a mode wins on.
pub open spec fn spec_winning_outcomes(bet_type: BetType, mode: BetMode) -> Result<Seq<BetOutcome>, ModeError> {
    match (bet_type, mode) {
        (BetType::PerfectPair, BetMode::PerfectPair(_)) => Ok(
            seq![BetOutcome::PerfectPairSingleSide, BetOutcome::PerfectPairBothSides],
        ),
        (BetType::Monkey, BetMode::Monkey(MonkeyMode::Standard)) => Ok(seq![BetOutcome::Monkey, BetOutcome::NoMonkey]),
        (BetType::Monkey, BetMode::Monkey(MonkeyMode::NoMonkeyOnly)) => Ok(seq![BetOutcome::NoMonkey]),
        _ => Err(ModeError::IncompatibleWithBetType(mode, bet_type)),
    }
}

/// The outcome buckets a mode wins on; an error for a mode without an
/// outcome contract for the bet type.
pub fn winning_outcomes_for_mode(bet_type: BetType, mode: BetMode) -> (r: Result<Vec<BetOutcome>, ModeError>)
    ensures
        match spec_winning_outcomes(bet_type, mode) {
            Ok(s) => r matches Ok(v) && v@ == s,
            Err(e) => r == Err::<Vec<BetOutcome>, ModeError>(e),
        },
{
    match (bet_type, mode) {
        (BetType::PerfectPair, BetMode::PerfectPair(PerfectPairMode::Standard)) => Ok(
            vec![BetOutcome::PerfectPairSingleSide, BetOutcome::PerfectPairBothSides],
        ),
        (BetType::PerfectPair, BetMode::PerfectPair(PerfectPairMode::SinglePlusBoth)) => Ok(
            vec![BetOutcome::PerfectPairSingleSide, BetOutcome::PerfectPairBothSides],
        ),
        (BetType::Monkey, BetMode::Monkey(MonkeyMode::Standard)) => Ok(vec![BetOutcome::Monkey, BetOutcome::NoMonkey]),
        (BetType::Monkey, BetMode::Monkey(MonkeyMode::NoMonkeyOnly)) => Ok(vec![BetOutcome::NoMonkey]),
        _ => Err(ModeError::IncompatibleWithBetType(mode, bet_type)),
    }
}

/// The outcome buckets a mode must be priced for.
pub open spec fn spec_required_odds(bet_type: BetType, mode: BetMode) -> Result<Seq<BetOutcome>, ModeError> {
    match (bet_type, mode) {
        (BetType::PerfectPair, BetMode::PerfectPair(PerfectPairMode::Standard)) => Ok(
            seq![BetOutcome::PerfectPairSingleSide],
        ),
        (BetType::PerfectPair, BetMode::PerfectPair(PerfectPairMode::SinglePlusBoth)) => Ok(
            seq![BetOutcome::PerfectPairSingleSide, BetOutcome::PerfectPairBothSides],
        ),
        (BetType::Monkey, BetMode::Monkey(MonkeyMode::Standard)) => Ok(seq![BetOutcome::Monkey, BetOutcome::NoMonkey]),
        (BetType::Monkey, BetMode::Monkey(MonkeyMode::NoMonkeyOnly)) => Ok(seq![BetOutcome::NoMonkey]),
        _ => Err(ModeError::IncompatibleWithBetType(mode, bet_type)),
    }
}

/// The outcome buckets a mode must be priced for; the standard perfect-pair
/// mode prices the single side only.
pub fn required_odds_for_mode(bet_type: BetType, mode: BetMode) -> (r: Result<Vec<BetOutcome>, ModeError>)
    ensures
        match spec_required_odds(bet_type, mode) {
            Ok(s) => r matches Ok(v) && v@ == s,
            Err(e) => r == Err::<Vec<BetOutcome>, ModeError>(e),
        },
{
    match (bet_type, mode) {
        (BetType::PerfectPair, BetMode::PerfectPair(PerfectPairMode::Standard)) => Ok(
            vec![BetOutcome::PerfectPairSingleSide],
        ),
        (BetType::PerfectPair, BetMode::PerfectPair(PerfectPairMode::SinglePlusBoth)) => Ok(
            vec![BetOutcome::PerfectPairSingleSide, BetOutcome::PerfectPairBothSides],
        ),
        (BetType::Monkey, BetMode::Monkey(MonkeyMode::Standard)) => Ok(vec![BetOutcome::Monkey, BetOutcome::NoMonkey]),
        (BetType::Monkey, BetMode::Monkey(MonkeyMode::NoMonkeyOnly)) => Ok(vec![BetOutcome::NoMonkey]),
        _ => Err(ModeError::IncompatibleWithBetType(mode, bet_type)),
    }
}

/// The outcome buckets a mode accepts odds for: exactly those it must be
/// priced for.
pub fn allowed_outcome_odds_for_mode(bet_type: BetType, mode: BetMode) -> (r: Result<Vec<BetOutcome>, ModeError>)
    ensures
        match spec_required_odds(bet_type, mode) {
            Ok(s) => r matches Ok(v) && v@ == s,
            Err(e) => r == Err::<Vec<BetOutcome>, ModeError>(e),
        },
{
    required_odds_for_mode(bet_type, mode)
}

/// Whether a required outcome may be priced by the bet's plain odds: only
/// the single side of the standard perfect-pair mode.
pub fn allows_compatibility_odds_for_required_outcome(bet_type: BetType, mode: BetMode, outcome: BetOutcome) -> (r:
    bool)
    ensures
        r == (bet_type == BetType::PerfectPair && mode == BetMode::PerfectPair(PerfectPairMode::Standard) && outcome
            == BetOutcome::PerfectPairSingleSide),
{
    match (bet_type, mode, outcome) {
        (BetType::PerfectPair, BetMode::PerfectPair(PerfectPairMode::Standard), BetOutcome::PerfectPairSingleSide) => true,
        _ => false,
    }
}

/// The outcome buckets a settlement may carry odds for.
pub open spec fn spec_settlement_allowed_outcomes(bet_type: BetType, mode: Option<BetMode>) -> Seq<BetOutcome> {
    match (bet_type, mode) {
        (BetType::PerfectPair, None) | (BetType::PerfectPair, Some(BetMode::PerfectPair(PerfectPairMode::Standard))) => seq![
            BetOutcome::PerfectPairSingleSide,
        ],
        (BetType::PerfectPair, Some(BetMode::PerfectPair(PerfectPairMode::SinglePlusBoth))) => seq![
            BetOutcome::PerfectPairSingleSide,
            BetOutcome::PerfectPairBothSides,
        ],
        (BetType::Monkey, None) | (BetType::Monkey, Some(BetMode::Monkey(MonkeyMode::Standard))) => seq![
            BetOutcome::Monkey,
            BetOutcome::NoMonkey,
        ],
        (BetType::Monkey, Some(BetMode::Monkey(MonkeyMode::NoMonkeyOnly))) => seq![BetOutcome::NoMonkey],
        (BetType::Tiger, None) => seq![BetOutcome::TigerTwoCards, BetOutcome::TigerThreeCards],
        _ => Seq::empty(),
    }
}

/// The outcome buckets a settlement may carry odds for; empty for bets
/// without outcome odds.
pub fn settlement_allowed_outcomes(bet_type: BetType, mode: Option<BetMode>) -> (r: Vec<BetOutcome>)
    ensures
        r@ == spec_settlement_allowed_outcomes(bet_type, mode),
{
    match (bet_type, mode) {
        (BetType::PerfectPair, None) | (BetType::PerfectPair, Some(BetMode::PerfectPair(PerfectPairMode::Standard))) => vec![
            BetOutcome::PerfectPairSingleSide,
        ],
        (BetType::PerfectPair, Some(BetMode::PerfectPair(PerfectPairMode::SinglePlusBoth))) => vec![
            BetOutcome::PerfectPairSingleSide,
            BetOutcome::PerfectPairBothSides,
        ],
        (BetType::Monkey, None) | (BetType::Monkey, Some(BetMode::Monkey(MonkeyMode::Standard))) => vec![
            BetOutcome::Monkey,
            BetOutcome::NoMonkey,
        ],
        (BetType::Monkey, Some(BetMode::Monkey(MonkeyMode::NoMonkeyOnly))) => vec![BetOutcome::NoMonkey],
        (BetType::Tiger, None) => vec![BetOutcome::TigerTwoCards, BetOutcome::TigerThreeCards],
        _ => Vec::new(),
    }
}

/// A mode fits a bet type when the bet has no mode, or the mode is the bet's
/// own kind (perfect pair or monkey).
pub open spec fn spec_mode_compatibility(bet_type: BetType, mode: Option<BetMode>) -> Result<(), ModeError> {
    match mode {
        None => Ok(()),
        Some(m) => match (bet_type, m) {
            (BetType::PerfectPair, BetMode::PerfectPair(_)) => Ok(()),
            (BetType::Monkey, BetMode::Monkey(_)) => Ok(()),
            _ => Err(ModeError::Incompatible(m, bet_type)),
        },
    }
}

/// Checks that a mode fits the bet type.
pub fn validate_mode_compatibility(bet_type: BetType, mode: Option<BetMode>) -> (r: Result<(), ModeError>)
    ensures
        r == spec_mode_compatibility(bet_type, mode),
{
    match (bet_type, mode) {
        (BetType::PerfectPair, None) | (BetType::PerfectPair, Some(BetMode::PerfectPair(_))) => Ok(()),
        (BetType::Monkey, None) | (BetType::Monkey, Some(BetMode::Monkey(_))) => Ok(()),
        (_, Some(mode)) => Err(ModeError::Incompatible(mode, bet_type)),
        (_, None) => Ok(()),
    }
}

/// Why a mode's outcome odds are refused.
#[derive(Clone, Copy, Debug, PartialEq, Eq, Structural)]
pub enum OutcomeOddsError {
    /// The mode has no outcome contract for the bet type.
    Mode(ModeError),
    /// A bucket the mode must be priced for has no odds.
    Missing(BetOutcome),
    /// Odds were given for a bucket the mode does not accept.
    Irrelevant(BetOutcome),
    /// Two entries name the same bucket.
    Duplicate(BetOutcome),
}

/// Whether the bucket has an entry among `outcomes`.
pub open spec fn has_outcome(outcomes: Seq<BetOutcome>, outcome: BetOutcome) -> bool {
    outcomes.contains(outcome)
}

/// The first required bucket from position `i` on with no entry and no
/// compatibility odds.
pub open spec fn first_missing(
    bet_type: BetType,
    mode: BetMode,
    required: Seq<BetOutcome>,
    outcomes: Seq<BetOutcome>,
    i: int,
) -> Option<BetOutcome>
    decreases required.len() - i,
{
    if i < 0 || i >= required.len() {
        None
    } else if !has_outcome(outcomes, required[i]) && !(bet_type == BetType::PerfectPair && mode == BetMode::PerfectPair(
        PerfectPairMode::Standard,
    ) && required[i] == BetOutcome::PerfectPairSingleSide) {
        Some(required[i])
    } else {
        first_missing(bet_type, mode, required, outcomes, i + 1)
    }
}

/// The first entry from position `i` on for a bucket outside `allowed`, or
/// for a bucket a later entry names again.
pub open spec fn first_bad_outcome(allowed: Seq<BetOutcome>, outcomes: Seq<BetOutcome>, i: int) -> Option<
    OutcomeOddsError,
>
    decreases outcomes.len() - i,
{
    if i < 0 || i >= outcomes.len() {
        None
    } else if !allowed.contains(outcomes[i]) {
        Some(OutcomeOddsError::Irrelevant(outcomes[i]))
    } else if exists|j: int| i < j < outcomes.len() && #[trigger] outcomes[j] == outcomes[i] {
        Some(OutcomeOddsError::Duplicate(outcomes[i]))
    } else {
        first_bad_outcome(allowed, outcomes, i + 1)
    }
}

/// Outcome odds of a mode: every required bucket priced (the standard
/// perfect-pair single side may fall back on plain odds), no bucket outside
/// the accepted ones, no bucket twice.
pub open spec fn spec_check_outcome_odds(bet_type: BetType, mode: BetMode, outcomes: Seq<BetOutcome>) -> Result<
    (),
    OutcomeOddsError,
> {
    match spec_required_odds(bet_type, mode) {
        Err(e) => Err(OutcomeOddsError::Mode(e)),
        Ok(required) => match first_missing(bet_type, mode, required, outcomes, 0) {
            Some(o) => Err(OutcomeOddsError::Missing(o)),
            None => match first_bad_outcome(required, outcomes, 0) {
                Some(e) => Err(e),
                None => Ok(()),
            },
        },
    }
}

/// No entry from position `i` on is refused exactly when every such entry
/// names a bucket of `allowed` and no two of them name the same bucket; a
/// refused entry is reported as irrelevant only for a bucket outside
/// `allowed`, and as a duplicate only for a bucket named again later.
pub proof fn lemma_first_bad_outcome(allowed: Seq<BetOutcome>, outcomes: Seq<BetOutcome>, i: int)
    requires
        0 <= i <= outcomes.len(),
    ensures
        first_bad_outcome(allowed, outcomes, i) is None <==> ((forall|k: int|
            i <= k < outcomes.len() ==> allowed.contains(#[trigger] outcomes[k])) && (forall|k1: int, k2: int|
            i <= k1 < k2 < outcomes.len() ==> #[trigger] outcomes[k1] != #[trigger] outcomes[k2])),
        match first_bad_outcome(allowed, outcomes, i) {
            Some(OutcomeOddsError::Irrelevant(o)) => !allowed.contains(o) && outcomes.subrange(
                i,
                outcomes.len() as int,
            ).contains(o),
            Some(OutcomeOddsError::Duplicate(o)) => exists|k1: int, k2: int|
                i <= k1 < k2 < outcomes.len() && #[trigger] outcomes[k1] == o && #[trigger] outcomes[k2] == o,
            _ => true,
        },
    decreases outcomes.len() - i,
{
    if i < outcomes.len() {
        lemma_first_bad_outcome(allowed, outcomes, i + 1);
        if !allowed.contains(outcomes[i]) {
            assert(outcomes.subrange(i, outcomes.len() as int)[0] == outcomes[i]);
        } else if exists|j: int| i < j < outcomes.len() && #[trigger] outcomes[j] == outcomes[i] {
            let j = choose|j: int| i < j < outcomes.len() && #[trigger] outcomes[j] == outcomes[i];
            assert(outcomes[i] == outcomes[j]);
        } else {
            if let Some(OutcomeOddsError::Irrelevant(o)) = first_bad_outcome(allowed, outcomes, i) {
                let t = outcomes.subrange(i + 1, outcomes.len() as int);
                let x = choose|x: int| 0 <= x < t.len() && t[x] == o;
                assert(outcomes.subrange(i, outcomes.len() as int)[x + 1] == o);
            }
        }
    }
}

/// No required bucket from position `i` on is missing exactly when each is
/// listed among `outcomes`, or is the standard perfect-pair single side,
/// which may fall back on plain odds; a reported bucket is a required one
/// that is not listed.
pub proof fn lemma_first_missing(
    bet_type: BetType,
    mode: BetMode,
    required: Seq<BetOutcome>,
    outcomes: Seq<BetOutcome>,
    i: int,
)
    requires
        0 <= i <= required.len(),
    ensures
        first_missing(bet_type, mode, required, outcomes, i) is None <==> (forall|k: int|
            i <= k < required.len() ==> outcomes.contains(#[trigger] required[k]) || (bet_type
                == BetType::PerfectPair && mode == BetMode::PerfectPair(PerfectPairMode::Standard) && required[k]
                == BetOutcome::PerfectPairSingleSide)),
        match first_missing(bet_type, mode, required, outcomes, i) {
            Some(o) => required.contains(o) && !outcomes.contains(o),
            None => true,
        },
    decreases required.len() - i,
{
    if i < required.len() {
        lemma_first_missing(bet_type, mode, required, outcomes, i + 1);
    }
}

/// Outcome odds of a mode are accepted exactly when the mode has an
/// outcome contract for the bet, every entry names a bucket the mode must
/// be priced for, no bucket is named twice, and every such bucket is named
/// (the standard perfect-pair single side may fall back on plain odds).
/// Odds for a bucket the mode does not price are refused as irrelevant.
pub proof fn lemma_outcome_odds_accepted(bet_type: BetType, mode: BetMode, outcomes: Seq<BetOutcome>)
    ensures
        spec_check_outcome_odds(bet_type, mode, outcomes) is Ok <==> (spec_required_odds(bet_type, mode) is Ok && (
        forall|i: int|
            0 <= i < outcomes.len() ==> spec_required_odds(bet_type, mode)->Ok_0.contains(#[trigger] outcomes[i]))
            && (forall|i: int, j: int| 0 <= i < j < outcomes.len() ==> #[trigger] outcomes[i] != #[trigger] outcomes[j])
            && (forall|o: BetOutcome|
            #[trigger] spec_required_odds(bet_type, mode)->Ok_0.contains(o) ==> outcomes.contains(o) || (bet_type
                == BetType::PerfectPair && mode == BetMode::PerfectPair(PerfectPairMode::Standard) && o
                == BetOutcome::PerfectPairSingleSide))),
        match spec_check_outcome_odds(bet_type, mode, outcomes) {
            Err(OutcomeOddsError::Irrelevant(o)) => outcomes.contains(o) && !spec_required_odds(
                bet_type,
                mode,
            )->Ok_0.contains(o),
            _ => true,
        },
{
    match spec_required_odds(bet_type, mode) {
        Err(_) => {},
        Ok(required) => {
            lemma_first_missing(bet_type, mode, required, outcomes, 0);
            lemma_first_bad_outcome(required, outcomes, 0);
            assert(outcomes.subrange(0, outcomes.len() as int) == outcomes);
            assert((forall|o: BetOutcome|
                #[trigger] required.contains(o) ==> outcomes.contains(o) || (bet_type == BetType::PerfectPair && mode
                    == BetMode::PerfectPair(PerfectPairMode::Standard) && o == BetOutcome::PerfectPairSingleSide))
                <==> (forall|k: int|
                0 <= k < required.len() ==> outcomes.contains(#[trigger] required[k]) || (bet_type
                    == BetType::PerfectPair && mode == BetMode::PerfectPair(PerfectPairMode::Standard) && required[k]
                    == BetOutcome::PerfectPairSingleSide)));
        },
    }
}

fn outcome_listed(outcomes: &[BetOutcome], outcome: BetOutcome) -> (r: bool)
    ensures
        r == outcomes@.contains(outcome),
{
    let mut i: usize = 0;
    while i < outcomes.len()
        invariant
            i <= outcomes@.len(),
            forall|j: int| 0 <= j < i ==> outcomes@[j] != outcome,
        decreases outcomes@.len() - i,
    {
        if outcomes[i] == outcome {
            assert(outcomes@[i as int] == outcome);
            return true;
        }
        i = i + 1;
    }
    false
}

/// Checks the outcome buckets a mode's odds are given for, in the order the
/// entries list them.
pub fn check_outcome_odds_for_mode(bet_type: BetType, mode: BetMode, outcomes: &[BetOutcome]) -> (r: Result<
    (),
    OutcomeOddsError,
>)
    ensures
        r == spec_check_outcome_odds(bet_type, mode, outcomes@),
{
    let required = match required_odds_for_mode(bet_type, mode) {
        Ok(v) => v,
        Err(e) => {
            return Err(OutcomeOddsError::Mode(e));
        },
    };
    let allowed = match allowed_outcome_odds_for_mode(bet_type, mode) {
        Ok(v) => v,
        Err(e) => {
            return Err(OutcomeOddsError::Mode(e));
        },
    };
    let mut i: usize = 0;
    while i < required.len()
        invariant
            i <= required@.len(),
            spec_required_odds(bet_type, mode) == Ok::<Seq<BetOutcome>, ModeError>(required@),
            first_missing(bet_type, mode, required@, outcomes@, 0) == first_missing(
                bet_type,
                mode,
                required@,
                outcomes@,
                i as int,
            ),
        decreases required@.len() - i,
    {
        let needed = required[i];
        if !outcome_listed(outcomes, needed) && !allows_compatibility_odds_for_required_outcome(bet_type, mode, needed) {
            return Err(OutcomeOddsError::Missing(needed));
        }
        i = i + 1;
    }
    let mut index: usize = 0;
    while index < outcomes.len()
        invariant
            index <= outcomes@.len(),
            allowed@ == required@,
            spec_required_odds(bet_type, mode) == Ok::<Seq<BetOutcome>, ModeError>(required@),
            first_missing(bet_type, mode, required@, outcomes@, 0) is None,
            first_bad_outcome(allowed@, outcomes@, 0) == first_bad_outcome(allowed@, outcomes@, index as int),
        decreases outcomes@.len() - index,
    {
        let outcome = outcomes[index];
        if !outcome_listed(allowed.as_slice(), outcome) {
            return Err(OutcomeOddsError::Irrelevant(outcome));
        }
        let mut j: usize = index + 1;
        while j < outcomes.len()
            invariant
                index < j <= outcomes@.len(),
                outcome == outcomes@[index as int],
                allowed@ == required@,
                allowed@.contains(outcome),
                spec_required_odds(bet_type, mode) == Ok::<Seq<BetOutcome>, ModeError>(required@),
                first_missing(bet_type, mode, required@, outcomes@, 0) is None,
                first_bad_outcome(allowed@, outcomes@, 0) == first_bad_outcome(allowed@, outcomes@, index as int),
                forall|k: int| index < k < j ==> #[trigger] outcomes@[k] != outcome,
            decreases outcomes@.len() - j,
        {
            if outcomes[j] == outcome {
                assert(outcomes@[j as int] == outcomes@[index as int]);
                return Err(OutcomeOddsError::Duplicate(outcome));
            }
            j = j + 1;
        }
        index = index + 1;
    }
    Ok(())
}

} // verus!
