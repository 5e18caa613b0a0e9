//! Validation of EV requests: identifiers nonblank and unique once
//! trimmed, odds of the requested bet, modes with their outcome odds, and
//! aggregate odds naming exactly the calculator's variants.
use vstd::prelude::*;

use crate::bet_registry::{public_bet_id_for_type, spec_public_bet_id_for_type, BetId, BetVariant};
use crate::cards::BetType;
use crate::mode_contract::{
    check_outcome_odds_for_mode, lemma_outcome_odds_accepted, spec_check_outcome_odds, spec_required_odds,
    spec_winning_outcomes, winning_outcomes_for_mode, ModeError,
    OutcomeOddsError,
};
use crate::text::{chars_equal, spec_trimmed, trimmed_chars};
use crate::BetMode;

verus! {

/// Why aggregate odds do not cover exactly the calculator's variants.
#[derive(Clone, Copy, Debug, PartialEq, Eq, Structural)]
pub enum AggregateOddsError {
    /// A child names a variant the calculator does not have for the bet.
    UnknownVariant(BetVariant),
    /// A calculator variant has no child.
    MissingVariant(BetVariant),
}

/// The first entry of `xs` from position `i` on that `ys` does not contain.
pub open spec fn first_absent(xs: Seq<BetVariant>, ys: Seq<BetVariant>, i: int) -> Option<BetVariant>
    decreases xs.len() - i,
{
    if i < 0 || i >= xs.len() {
        None
    } else if !ys.contains(xs[i]) {
        Some(xs[i])
    } else {
        first_absent(xs, ys, i + 1)
    }
}

/// Aggregate odds must list the same variants as the calculator: the first
/// child unknown to the calculator is refused, then the first calculator
/// variant without a child.
pub open spec fn spec_check_aggregate_children(children: Seq<BetVariant>, variants: Seq<BetVariant>) -> Result<
    (),
    AggregateOddsError,
> {
    match first_absent(children, variants, 0) {
        Some(v) => Err(AggregateOddsError::UnknownVariant(v)),
        None => match first_absent(variants, children, 0) {
            Some(v) => Err(AggregateOddsError::MissingVariant(v)),
            None => Ok(()),
        },
    }
}

fn variant_listed(list: &[BetVariant], v: BetVariant) -> (r: bool)
    ensures
        r == list@.contains(v),
{
    let mut i: usize = 0;
    while i < list.len()
        invariant
            i <= list@.len(),
            forall|k: int| 0 <= k < i ==> list@[k] != v,
        decreases list@.len() - i,
    {
        if list[i] == v {
            assert(list@[i as int] == v);
            return true;
        }
        i = i + 1;
    }
    false
}

fn find_absent(xs: &[BetVariant], ys: &[BetVariant]) -> (r: Option<BetVariant>)
    ensures
        r == first_absent(xs@, ys@, 0),
{
    let mut i: usize = 0;
    while i < xs.len()
        invariant
            i <= xs@.len(),
            first_absent(xs@, ys@, 0) == first_absent(xs@, ys@, i as int),
        decreases xs@.len() - i,
    {
        if !variant_listed(ys, xs[i]) {
            return Some(xs[i]);
        }
        i = i + 1;
    }
    None
}

/// Checks that the variants of aggregate odds children are exactly the
/// calculator's variants for the bet.
pub fn check_aggregate_children(children: &[BetVariant], variants: &[BetVariant]) -> (r: Result<
    (),
    AggregateOddsError,
>)
    ensures
        r == spec_check_aggregate_children(children@, variants@),
{
    match find_absent(children, variants) {
        Some(v) => Err(AggregateOddsError::UnknownVariant(v)),
        None => match find_absent(variants, children) {
            Some(v) => Err(AggregateOddsError::MissingVariant(v)),
            None => Ok(()),
        },
    }
}

proof fn lemma_first_absent_none(xs: Seq<BetVariant>, ys: Seq<BetVariant>, i: int)
    requires
        0 <= i,
        first_absent(xs, ys, i) is None,
    ensures
        forall|k: int| i <= k < xs.len() ==> ys.contains(#[trigger] xs[k]),
    decreases xs.len() - i,
{
    if i < xs.len() {
        lemma_first_absent_none(xs, ys, i + 1);
    }
}

/// Aggregate odds that pass the check name exactly the calculator's
/// variants: a variant has a child if and only if the calculator has it.
pub proof fn lemma_accepted_children_match_variants(children: Seq<BetVariant>, variants: Seq<BetVariant>)
    requires
        spec_check_aggregate_children(children, variants) is Ok,
    ensures
        forall|v: BetVariant| children.contains(v) <==> variants.contains(v),
{
    lemma_first_absent_none(children, variants, 0);
    lemma_first_absent_none(variants, children, 0);
    assert forall|v: BetVariant| children.contains(v) <==> variants.contains(v) by {
        if children.contains(v) {
            let k = choose|k: int| 0 <= k < children.len() && children[k] == v;
            assert(variants.contains(children[k]));
        }
        if variants.contains(v) {
            let k = choose|k: int| 0 <= k < variants.len() && variants[k] == v;
            assert(children.contains(variants[k]));
        }
    }
}

/// Why an EV request is refused.
#[derive(Clone, Copy, Debug, PartialEq, Eq, Structural)]
pub enum EvRequestError {
    /// The identifier is empty or all whitespace.
    BlankId,
    /// An earlier request has the same trimmed identifier.
    DuplicateId,
    /// The odds are for another bet type.
    OddsBetType,
    /// An odds value is not a finite nonnegative number, or the request has
    /// no odds at all (no single value, no mode, no aggregate children).
    InvalidOdds,
    /// The mode has no outcome contract for the bet type.
    Mode(ModeError),
    /// With a mode, the odds name a registry row (given) other than the
    /// bet's public row (given).
    OddsBet(BetId, BetId),
    /// With a mode, the outcome odds are missing, irrelevant or repeated.
    OutcomeOdds(OutcomeOddsError),
    /// The rebate rate is not a finite number from zero through one.
    InvalidRebate,
}

/// The checks after the identifier, odds type, odds values and mode: some
/// odds must be given, and the rebate rate must be valid.
pub open spec fn spec_ev_request_tail(
    mode: Option<BetMode>,
    has_single_odds: bool,
    has_children: bool,
    rebate_valid: bool,
) -> Option<EvRequestError> {
    if !has_single_odds && mode is None && !has_children {
        Some(EvRequestError::InvalidOdds)
    } else if !rebate_valid {
        Some(EvRequestError::InvalidRebate)
    } else {
        None
    }
}

/// The first refusal of an EV request with trimmed identifier `t`, in
/// order: blank identifier, an identifier already used by an earlier
/// request, odds of another bet type, invalid odds values, then with a mode:
/// a mode without an outcome contract, odds of a row other than the bet's
/// public row (every bet type has one), refused outcome odds; then no odds
/// at all, and an invalid rebate rate.
pub open spec fn spec_ev_request_error(
    t: Seq<char>,
    earlier: Seq<Seq<char>>,
    bet_type: BetType,
    odds_bet_type: BetType,
    odds_bet_id: BetId,
    odds_values_valid: bool,
    mode: Option<BetMode>,
    outcome_odds: Seq<crate::BetOutcome>,
    has_single_odds: bool,
    has_children: bool,
    rebate_valid: bool,
) -> Option<EvRequestError> {
    if t.len() == 0 {
        Some(EvRequestError::BlankId)
    } else if earlier.contains(t) {
        Some(EvRequestError::DuplicateId)
    } else if odds_bet_type != bet_type {
        Some(EvRequestError::OddsBetType)
    } else if !odds_values_valid {
        Some(EvRequestError::InvalidOdds)
    } else {
        match mode {
            Some(m) => match spec_winning_outcomes(bet_type, m) {
                Err(e) => Some(EvRequestError::Mode(e)),
                Ok(_) => {
                    let public = spec_public_bet_id_for_type(bet_type);
                    if odds_bet_id != public {
                        Some(EvRequestError::OddsBet(odds_bet_id, public))
                    } else {
                        match spec_check_outcome_odds(bet_type, m, outcome_odds) {
                            Err(e) => Some(EvRequestError::OutcomeOdds(e)),
                            Ok(_) => spec_ev_request_tail(mode, has_single_odds, has_children, rebate_valid),
                        }
                    }
                },
            },
            None => spec_ev_request_tail(mode, has_single_odds, has_children, rebate_valid),
        }
    }
}

/// An EV request is accepted exactly when its identifier is not blank and
/// not used by an earlier request, its odds are for its own bet type with
/// valid values, some odds are given, the rebate rate is valid, and, with a
/// mode, the mode has an outcome contract for the bet, the odds name the
/// bet's public row and the outcome odds pass the mode's check. An accepted
/// request with a mode gives outcome odds only for buckets the mode must be
/// priced for, each at most once.
pub proof fn lemma_ev_request_accepted(
    t: Seq<char>,
    earlier: Seq<Seq<char>>,
    bet_type: BetType,
    odds_bet_type: BetType,
    odds_bet_id: BetId,
    odds_values_valid: bool,
    mode: Option<BetMode>,
    outcome_odds: Seq<crate::BetOutcome>,
    has_single_odds: bool,
    has_children: bool,
    rebate_valid: bool,
)
    ensures
        spec_ev_request_error(
            t,
            earlier,
            bet_type,
            odds_bet_type,
            odds_bet_id,
            odds_values_valid,
            mode,
            outcome_odds,
            has_single_odds,
            has_children,
            rebate_valid,
        ) is None <==> (t.len() > 0 && !earlier.contains(t) && odds_bet_type == bet_type && odds_values_valid
            && (has_single_odds || mode is Some || has_children) && rebate_valid && match mode {
            Some(m) => spec_winning_outcomes(bet_type, m) is Ok && odds_bet_id == spec_public_bet_id_for_type(
                bet_type,
            ) && spec_check_outcome_odds(bet_type, m, outcome_odds) is Ok,
            None => true,
        }),
        spec_ev_request_error(
            t,
            earlier,
            bet_type,
            odds_bet_type,
            odds_bet_id,
            odds_values_valid,
            mode,
            outcome_odds,
            has_single_odds,
            has_children,
            rebate_valid,
        ) is None ==> match mode {
            Some(m) => (forall|i: int|
                0 <= i < outcome_odds.len() ==> spec_required_odds(bet_type, m)->Ok_0.contains(
                    #[trigger] outcome_odds[i],
                )) && (forall|i: int, j: int|
                0 <= i < j < outcome_odds.len() ==> #[trigger] outcome_odds[i] != #[trigger] outcome_odds[j]),
            None => true,
        },
{
    if let Some(m) = mode {
        lemma_outcome_odds_accepted(bet_type, m, outcome_odds);
    }
}

/// Checks one EV request against the trimmed identifiers of the earlier
/// requests. The checks on floating-point values come in as their results:
/// whether every odds value is finite and nonnegative, and whether the
/// rebate rate is finite and within `[0, 1]`. `outcome_odds` lists the
/// buckets of the outcome odds (empty without them). Returns the trimmed
/// identifier, which the caller records for later requests, and the first
/// refusal, if any.
pub fn check_ev_request(
    id: &str,
    earlier: &[Vec<char>],
    bet_type: BetType,
    odds_bet_type: BetType,
    odds_bet_id: BetId,
    odds_values_valid: bool,
    mode: Option<BetMode>,
    outcome_odds: &[crate::BetOutcome],
    has_single_odds: bool,
    has_children: bool,
    rebate_valid: bool,
) -> (r: (Vec<char>, Option<EvRequestError>))
    ensures
        r.0@ == spec_trimmed(id@),
        r.1 == spec_ev_request_error(
            spec_trimmed(id@),
            earlier@.map_values(|v: Vec<char>| v@),
            bet_type,
            odds_bet_type,
            odds_bet_id,
            odds_values_valid,
            mode,
            outcome_odds@,
            has_single_odds,
            has_children,
            rebate_valid,
        ),
{
    let trimmed = trimmed_chars(id);
    if trimmed.len() == 0 {
        return (trimmed, Some(EvRequestError::BlankId));
    }
    let mut i: usize = 0;
    while i < earlier.len()
        invariant
            i <= earlier@.len(),
            trimmed@ == spec_trimmed(id@),
            trimmed@.len() > 0,
            forall|k: int| 0 <= k < i ==> (#[trigger] earlier@[k])@ != trimmed@,
        decreases earlier@.len() - i,
    {
        if chars_equal(earlier[i].as_slice(), trimmed.as_slice()) {
            assert(earlier@.map_values(|v: Vec<char>| v@)[i as int] == trimmed@);
            return (trimmed, Some(EvRequestError::DuplicateId));
        }
        i = i + 1;
    }
    assert(!earlier@.map_values(|v: Vec<char>| v@).contains(trimmed@)) by {
        let views = earlier@.map_values(|v: Vec<char>| v@);
        assert forall|k: int| 0 <= k < views.len() implies #[trigger] views[k] != trimmed@ by {
            assert(earlier@[k]@ != trimmed@);
        }
    }
    if odds_bet_type != bet_type {
        return (trimmed, Some(EvRequestError::OddsBetType));
    }
    if !odds_values_valid {
        return (trimmed, Some(EvRequestError::InvalidOdds));
    }
    match mode {
        Some(m) => {
            match winning_outcomes_for_mode(bet_type, m) {
                Err(e) => {
                    return (trimmed, Some(EvRequestError::Mode(e)));
                },
                Ok(_) => {},
            }
            let public = public_bet_id_for_type(bet_type);
            if odds_bet_id != public {
                return (trimmed, Some(EvRequestError::OddsBet(odds_bet_id, public)));
            }
            match check_outcome_odds_for_mode(bet_type, m, outcome_odds) {
                Err(e) => {
                    return (trimmed, Some(EvRequestError::OutcomeOdds(e)));
                },
                Ok(_) => {},
            }
        },
        None => {},
    }
    if !has_single_odds && mode.is_none() && !has_children {
        return (trimmed, Some(EvRequestError::InvalidOdds));
    }
    if !rebate_valid {
        return (trimmed, Some(EvRequestError::InvalidRebate));
    }
    (trimmed, None)
}

/// One EV request as plain values: the floating-point checks come in as
/// their results (see `check_ev_request`).
#[derive(Clone, Debug)]
pub struct EvRequest {
    pub id: String,
    pub bet_type: BetType,
    pub odds_bet_type: BetType,
    pub odds_bet_id: BetId,
    pub odds_values_valid: bool,
    pub mode: Option<BetMode>,
    pub outcome_odds: Vec<crate::BetOutcome>,
    pub has_single_odds: bool,
    pub has_children: bool,
    pub rebate_valid: bool,
}

/// The first refused request from position `i` on, with its position,
/// given the trimmed identifiers of the requests before it.
pub open spec fn spec_first_request_error(requests: Seq<EvRequest>, i: int, earlier: Seq<Seq<char>>) -> Option<
    (int, EvRequestError),
>
    decreases requests.len() - i,
{
    if i < 0 || i >= requests.len() {
        None
    } else {
        let q = requests[i];
        let t = spec_trimmed(q.id@);
        match spec_ev_request_error(
            t,
            earlier,
            q.bet_type,
            q.odds_bet_type,
            q.odds_bet_id,
            q.odds_values_valid,
            q.mode,
            q.outcome_odds@,
            q.has_single_odds,
            q.has_children,
            q.rebate_valid,
        ) {
            Some(e) => Some((i, e)),
            None => spec_first_request_error(requests, i + 1, earlier.push(t)),
        }
    }
}

/// Checks a batch of EV requests in order; identifiers must differ once
/// trimmed across the whole batch. Returns the first refused request's
/// position, trimmed identifier and refusal, or `None` when every request
/// is accepted.
pub fn check_ev_requests(requests: &[EvRequest]) -> (r: Option<(usize, Vec<char>, EvRequestError)>)
    ensures
        match spec_first_request_error(requests@, 0, Seq::empty()) {
            None => r is None,
            Some((i, e)) => r matches Some((j, t, x)) && j == i && x == e && t@ == spec_trimmed(requests@[i].id@),
        },
{
    let mut ids: Vec<Vec<char>> = Vec::new();
    let mut i: usize = 0;
    assert(ids@.map_values(|v: Vec<char>| v@) =~= Seq::<Seq<char>>::empty());
    while i < requests.len()
        invariant
            i <= requests@.len(),
            spec_first_request_error(requests@, 0, Seq::empty()) == spec_first_request_error(
                requests@,
                i as int,
                ids@.map_values(|v: Vec<char>| v@),
            ),
        decreases requests@.len() - i,
    {
        let q = &requests[i];
        let (trimmed, error) = check_ev_request(
            q.id.as_str(),
            ids.as_slice(),
            q.bet_type,
            q.odds_bet_type,
            q.odds_bet_id,
            q.odds_values_valid,
            q.mode,
            q.outcome_odds.as_slice(),
            q.has_single_odds,
            q.has_children,
            q.rebate_valid,
        );
        match error {
            Some(e) => {
                return Some((i, trimmed, e));
            },
            None => {},
        }
        let ghost before = ids@.map_values(|v: Vec<char>| v@);
        ids.push(trimmed);
        assert(ids@.map_values(|v: Vec<char>| v@) =~= before.push(spec_trimmed(requests@[i as int].id@)));
        i = i + 1;
    }
    None
}

} // verus!
