use calculator::bet_registry::BetId;
use calculator::ev_spec::{check_aggregate_children, check_ev_request, check_ev_requests, AggregateOddsError, EvRequest, EvRequestError};
use calculator::mode_contract::OutcomeOddsError;
use calculator::{BetMode, BetOutcome, BetType, BetVariant, Lucky6Variant, MonkeyMode};

fn chars(s: &str) -> Vec<char> {
    s.chars().collect()
}

fn plain_request(id: &str, earlier: &[Vec<char>]) -> (Vec<char>, Option<EvRequestError>) {
    check_ev_request(
        id,
        earlier,
        BetType::Player,
        BetType::Player,
        BetId::Player,
        true,
        None,
        &[],
        true,
        false,
        true,
    )
}

#[test]
fn ev_spec_id_blank_is_refused() {
    assert_eq!(plain_request("", &[]).1, Some(EvRequestError::BlankId));
    assert_eq!(plain_request(" \t\n", &[]).1, Some(EvRequestError::BlankId));
}

#[test]
fn ev_spec_id_is_returned_trimmed() {
    let (id, error) = plain_request("  player-main \t", &[chars("banker")]);
    assert_eq!(error, None);
    assert_eq!(id, chars("player-main"));
}

#[test]
fn ev_spec_id_duplicate_after_trimming_is_refused() {
    let (id, error) = plain_request(" player ", &[chars("banker"), chars("player")]);
    assert_eq!(error, Some(EvRequestError::DuplicateId));
    assert_eq!(id, chars("player"));
}

#[test]
fn ev_spec_id_differing_in_case_is_not_a_duplicate() {
    assert_eq!(plain_request("Player", &[chars("player")]).1, None);
}

#[test]
fn ev_request_refusals_come_in_order() {
    let mode = Some(BetMode::Monkey(MonkeyMode::Standard));
    // Odds of another bet type come before invalid odds values.
    let r = check_ev_request("a", &[], BetType::Player, BetType::Banker, BetId::Banker, false, None, &[], true, false, false);
    assert_eq!(r.1, Some(EvRequestError::OddsBetType));
    let r = check_ev_request("a", &[], BetType::Player, BetType::Player, BetId::Player, false, None, &[], true, false, false);
    assert_eq!(r.1, Some(EvRequestError::InvalidOdds));
    // A mode of another bet.
    let r = check_ev_request("a", &[], BetType::Player, BetType::Player, BetId::Player, true, mode, &[], true, false, true);
    assert!(matches!(r.1, Some(EvRequestError::Mode(_))));
    // Outcome odds missing a required bucket.
    let r = check_ev_request(
        "a", &[], BetType::Monkey, BetType::Monkey, BetId::Monkey, true, mode, &[BetOutcome::Monkey], true, false, true,
    );
    assert_eq!(r.1, Some(EvRequestError::OutcomeOdds(OutcomeOddsError::Missing(BetOutcome::NoMonkey))));
    let r = check_ev_request(
        "a", &[], BetType::Monkey, BetType::Monkey, BetId::Monkey, true, mode,
        &[BetOutcome::Monkey, BetOutcome::NoMonkey], true, false, true,
    );
    assert_eq!(r.1, None);
    // No odds at all, then the rebate rate.
    let r = check_ev_request("a", &[], BetType::Player, BetType::Player, BetId::Player, true, None, &[], false, false, true);
    assert_eq!(r.1, Some(EvRequestError::InvalidOdds));
    let r = check_ev_request("a", &[], BetType::Player, BetType::Player, BetId::Player, true, None, &[], true, false, false);
    assert_eq!(r.1, Some(EvRequestError::InvalidRebate));
}

#[test]
fn aggregate_children_matching_variants_in_any_order_are_accepted() {
    let two = BetVariant::Lucky6(Lucky6Variant::Two);
    let three = BetVariant::Lucky6(Lucky6Variant::Three);
    assert_eq!(check_aggregate_children(&[three, two], &[two, three]), Ok(()));
}

#[test]
fn aggregate_child_unknown_to_the_calculator_is_refused_first() {
    let two = BetVariant::Lucky6(Lucky6Variant::Two);
    let three = BetVariant::Lucky6(Lucky6Variant::Three);
    assert_eq!(check_aggregate_children(&[two, three], &[two]), Err(AggregateOddsError::UnknownVariant(three)));
}

#[test]
fn aggregate_odds_missing_a_calculator_variant_are_refused() {
    let two = BetVariant::Lucky6(Lucky6Variant::Two);
    let three = BetVariant::Lucky6(Lucky6Variant::Three);
    assert_eq!(check_aggregate_children(&[two], &[two, three]), Err(AggregateOddsError::MissingVariant(three)));
    assert_eq!(check_aggregate_children(&[], &[three]), Err(AggregateOddsError::MissingVariant(three)));
}

fn request(id: &str) -> EvRequest {
    EvRequest {
        id: String::from(id),
        bet_type: BetType::Player,
        odds_bet_type: BetType::Player,
        odds_bet_id: BetId::Player,
        odds_values_valid: true,
        mode: None,
        outcome_odds: Vec::new(),
        has_single_odds: true,
        has_children: false,
        rebate_valid: true,
    }
}

#[test]
fn ev_request_batch_stops_at_the_first_refusal() {
    assert!(check_ev_requests(&[request("a"), request("b")]).is_none());
    let refused = check_ev_requests(&[request("a"), request(" b "), request("b"), request("")]).unwrap();
    assert_eq!(refused.0, 2);
    assert_eq!(refused.1, chars("b"));
    assert_eq!(refused.2, EvRequestError::DuplicateId);
}
