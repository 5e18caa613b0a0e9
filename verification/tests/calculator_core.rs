use calculator::bet_registry::{BetClass, BetDefinition, BetId};
use calculator::calculation::{
    calculate_probability_snapshot, outcome_probability_breakdown, probability_for_definition, OutcomeBreakdown,
    ProbabilitySnapshot,
};
use calculator::outcome::{terminal_outcome_from_ordered_points, terminal_predicate_matches, TerminalOutcome, TerminalWinner};
use calculator::probability::{both_perfect_pair_orders, falling4_from_count, ordered4, sum_falling2};
use calculator::shoe::ShoeCounts;
use calculator::standard_baccarat;
use calculator::{
    bet_definitions, calculate_exact_probabilities, public_probability_definitions, standard_eight_deck_cards,
    BetOutcome, BetType, CalculatorError, ProbabilityRatio,
};

const OUTCOME_TOLERANCE: f64 = 1e-12;

fn assert_close(actual: f64, expected: f64) {
    assert!(
        (actual - expected).abs() <= OUTCOME_TOLERANCE,
        "expected {actual:.15} to be within {OUTCOME_TOLERANCE} of {expected:.15}"
    );
}

fn as_f64(ratio: ProbabilityRatio) -> f64 {
    ratio.numerator as f64 / ratio.denominator as f64
}

struct Breakdown {
    win_probability: f64,
    lose_probability: f64,
    push_probability: f64,
}

fn floats(breakdown: OutcomeBreakdown) -> Breakdown {
    let win_probability = as_f64(breakdown.win);
    let push_probability = as_f64(breakdown.push);
    Breakdown { win_probability, lose_probability: 1.0 - win_probability - push_probability, push_probability }
}

fn standard_probabilities() -> ProbabilitySnapshot {
    let counts = ShoeCounts::from_cards(&standard_eight_deck_cards()).expect("standard cards should parse");
    calculate_probability_snapshot(counts).expect("standard cards should calculate")
}

fn definition_of(bet_id: BetId) -> BetDefinition {
    *bet_definitions()
        .iter()
        .find(|definition| definition.id == bet_id)
        .unwrap_or_else(|| panic!("missing bet definition for {bet_id:?}"))
}

fn breakdown_for(bet_id: BetId, probabilities: &ProbabilitySnapshot) -> Breakdown {
    let definition = definition_of(bet_id);
    floats(
        outcome_probability_breakdown(&definition, probabilities)
            .expect("test fixture bet definition should have probability coverage"),
    )
}

#[test]
fn standard_player_and_banker_treat_tie_as_push() {
    let probabilities = standard_probabilities();
    let player_p = as_f64(probabilities.standard.player);
    let banker_p = as_f64(probabilities.standard.banker);
    let tie_p = as_f64(probabilities.standard.tie);

    let player = breakdown_for(BetId::Player, &probabilities);
    assert_close(player.win_probability, player_p);
    assert_close(player.push_probability, tie_p);
    assert_close(player.lose_probability, banker_p);

    let banker = breakdown_for(BetId::Banker, &probabilities);
    assert_close(banker.win_probability, banker_p);
    assert_close(banker.push_probability, tie_p);
    assert_close(banker.lose_probability, player_p);
}

#[test]
fn aggregate_push_variants_contribute_to_push_probability() {
    let probabilities = standard_probabilities();

    let player_dragon = breakdown_for(BetId::PlayerDragonAggregate, &probabilities);
    let player_dragon_push = breakdown_for(BetId::PlayerDragonPush, &probabilities);
    assert!(player_dragon_push.push_probability > 0.0);
    assert_close(player_dragon_push.win_probability, 0.0);
    assert_close(player_dragon.push_probability, player_dragon_push.push_probability);
    assert_close(
        player_dragon.win_probability + player_dragon.lose_probability + player_dragon.push_probability,
        1.0,
    );

    let banker_natural = breakdown_for(BetId::BankerNaturalAggregate, &probabilities);
    let banker_natural_push = breakdown_for(BetId::BankerNaturalPush, &probabilities);
    assert!(banker_natural_push.push_probability > 0.0);
    assert_close(banker_natural_push.win_probability, 0.0);
    assert_close(banker_natural.push_probability, banker_natural_push.push_probability);
    assert_close(
        banker_natural.win_probability + banker_natural.lose_probability + banker_natural.push_probability,
        1.0,
    );
}

#[test]
fn ev_outcome_decomposition_sums_to_one_for_every_public_result() {
    let probabilities = standard_probabilities();

    for definition in public_probability_definitions() {
        let breakdown = floats(
            outcome_probability_breakdown(&definition, &probabilities)
                .expect("public definition should have probability coverage"),
        );

        assert!(breakdown.win_probability.is_finite());
        assert!(breakdown.lose_probability.is_finite());
        assert!(breakdown.push_probability.is_finite());
        assert_close(breakdown.win_probability + breakdown.lose_probability + breakdown.push_probability, 1.0);
    }
}

#[test]
fn registered_public_probability_and_ev_branches_do_not_return_unsupported_contracts() {
    let probabilities = standard_probabilities();

    for definition in public_probability_definitions() {
        let probability = probability_for_definition(&definition, &probabilities)
            .unwrap_or_else(|error| panic!("{:?} probability failed: {error:?}", definition.id));
        let breakdown = floats(
            outcome_probability_breakdown(&definition, &probabilities)
                .unwrap_or_else(|error| panic!("{:?} EV failed: {error:?}", definition.id)),
        );

        assert!(as_f64(probability).is_finite());
        assert!(breakdown.win_probability.is_finite());
        assert!(breakdown.lose_probability.is_finite());
        assert!(breakdown.push_probability.is_finite());
    }
}

#[test]
fn super_tie_public_rows_exist_and_match_exact_tie_totals() {
    let expected = [
        (BetId::SuperTie0, BetType::SuperTie0, 0),
        (BetId::SuperTie1, BetType::SuperTie1, 1),
        (BetId::SuperTie2, BetType::SuperTie2, 2),
        (BetId::SuperTie3, BetType::SuperTie3, 3),
        (BetId::SuperTie4, BetType::SuperTie4, 4),
        (BetId::SuperTie5, BetType::SuperTie5, 5),
        (BetId::SuperTie6, BetType::SuperTie6, 6),
        (BetId::SuperTie7, BetType::SuperTie7, 7),
        (BetId::SuperTie8, BetType::SuperTie8, 8),
        (BetId::SuperTie9, BetType::SuperTie9, 9),
    ];
    let result =
        calculate_exact_probabilities(&standard_eight_deck_cards()).expect("standard SuperTie probabilities should calculate");

    for (bet_id, bet_type, total) in expected {
        let row = result
            .iter()
            .find(|row| row.bet_type == bet_type)
            .unwrap_or_else(|| panic!("missing public SuperTie row for {bet_type:?}"));

        assert!(as_f64(row.probability).is_finite());
        assert!(as_f64(row.probability) > 0.0);
        assert!(row.variants.is_empty());
        assert!(row.outcomes.is_empty());

        let definition = definition_of(bet_id);
        let matching_tie = TerminalOutcome::from_totals(total, total, 2, 2, false);
        let wrong_total_tie = TerminalOutcome::from_totals((total + 1) % 10, (total + 1) % 10, 2, 2, false);
        let non_tie = TerminalOutcome::from_totals(total, (total + 1) % 10, 2, 2, false);

        assert!(terminal_predicate_matches(&definition, matching_tie));
        assert!(!terminal_predicate_matches(&definition, wrong_total_tie));
        assert!(!terminal_predicate_matches(&definition, non_tie));
    }
}

#[test]
fn calculate_probabilities_returns_monkey_outcome_buckets() {
    let result = calculate_exact_probabilities(&standard_eight_deck_cards()).expect("standard cards should calculate");
    let monkey = result
        .iter()
        .find(|bet| bet.bet_type == BetType::Monkey)
        .expect("Monkey should be a public probability result");

    assert!(monkey.variants.is_empty());
    assert_eq!(monkey.outcomes.len(), 2);

    let monkey_probability = as_f64(
        monkey
            .outcomes
            .iter()
            .find(|outcome| outcome.outcome == BetOutcome::Monkey)
            .expect("Monkey outcome should be present")
            .probability,
    );
    let no_monkey_probability = as_f64(
        monkey
            .outcomes
            .iter()
            .find(|outcome| outcome.outcome == BetOutcome::NoMonkey)
            .expect("NoMonkey outcome should be present")
            .probability,
    );

    assert_close(as_f64(monkey.probability), monkey_probability + no_monkey_probability);
    assert_close(monkey_probability, falling4_from_count(96) as f64 / ordered4(416) as f64);
    assert_close(no_monkey_probability, falling4_from_count(320) as f64 / ordered4(416) as f64);
}

#[test]
fn calculate_probabilities_returns_perfect_pair_mutually_exclusive_outcome_buckets() {
    let result = calculate_exact_probabilities(&standard_eight_deck_cards()).expect("standard cards should calculate");
    let perfect_pair = result
        .iter()
        .find(|bet| bet.bet_type == BetType::PerfectPair)
        .expect("PerfectPair should be a public probability result");

    assert!(perfect_pair.variants.is_empty());
    assert_eq!(perfect_pair.outcomes.len(), 2);

    let single_side_probability = as_f64(
        perfect_pair
            .outcomes
            .iter()
            .find(|outcome| outcome.outcome == BetOutcome::PerfectPairSingleSide)
            .expect("PerfectPairSingleSide outcome should be present")
            .probability,
    );
    let both_sides_probability = as_f64(
        perfect_pair
            .outcomes
            .iter()
            .find(|outcome| outcome.outcome == BetOutcome::PerfectPairBothSides)
            .expect("PerfectPairBothSides outcome should be present")
            .probability,
    );
    let card_counts = ShoeCounts::from_cards(&standard_eight_deck_cards()).expect("standard card counts should parse");
    let pair_orders = sum_falling2(&card_counts.card);
    let both_orders = both_perfect_pair_orders(&card_counts.card);
    let denominator = ordered4(card_counts.total);

    assert_close(as_f64(perfect_pair.probability), single_side_probability + both_sides_probability);
    assert_close(single_side_probability, (2 * pair_orders * 414 * 413 - 2 * both_orders) as f64 / denominator as f64);
    assert_close(both_sides_probability, both_orders as f64 / denominator as f64);
}

#[test]
fn unsupported_opening_probability_branch_returns_contract_error() {
    let probabilities = standard_probabilities();
    let unsupported =
        BetDefinition { id: BetId::Dragon7, class: BetClass::OpeningTwoCombinator, suit_dependent: false, variant: None };

    let error = probability_for_definition(&unsupported, &probabilities)
        .expect_err("unsupported opening branch should fail explicitly");

    assert_eq!(error, CalculatorError::OpeningWithoutProbabilityCoverage(BetId::Dragon7));
}

#[test]
fn unsupported_aggregate_ev_branch_returns_contract_error() {
    let probabilities = standard_probabilities();
    let unsupported =
        BetDefinition { id: BetId::AnyPair, class: BetClass::AggregateBet, suit_dependent: false, variant: None };

    let error = outcome_probability_breakdown(&unsupported, &probabilities)
        .expect_err("unsupported aggregate branch should fail explicitly");

    assert_eq!(error, CalculatorError::AggregateWithoutCoverage(BetId::AnyPair));
}

#[test]
fn shoe_counts_derive_rank_point_and_card_sources() {
    let card_counts = ShoeCounts::from_cards(&standard_eight_deck_cards()).expect("standard card counts should parse");

    assert_eq!(card_counts.total, standard_baccarat::STANDARD_SHOE_CARD_COUNT);
    assert_eq!(
        card_counts.rank[0],
        u16::from(standard_baccarat::STANDARD_DECK_COUNT) * u16::from(standard_baccarat::SUITS_PER_DECK)
    );
    assert_eq!(card_counts.point[0], 128);
    assert_eq!(card_counts.card[0], u16::from(standard_baccarat::STANDARD_DECK_COUNT));
}

#[test]
fn terminal_engine_handles_natural_and_third_card_boundaries() {
    let natural_stop = terminal_outcome_from_ordered_points(&[8, 7, 1, 2]).expect("naturals should stop at four cards");
    assert!(natural_stop.natural);
    assert_eq!(natural_stop.total_card_count, 4);

    let banker_three_draws_on_player_third_seven = terminal_outcome_from_ordered_points(&[2, 3, 3, 3, 7, 2])
        .expect("banker 3 should draw on player third-card 7");
    assert_eq!(banker_three_draws_on_player_third_seven.banker_len, 3);
}

#[test]
fn registry_definitions_map_to_public_bet_types() {
    for definition in bet_definitions() {
        assert_eq!(definition.bet_type(), definition.id.bet_type());
    }
}

#[test]
fn terminal_predicates_match_representative_cases() {
    let cases = [
        (
            BetId::Dragon7,
            TerminalOutcome {
                player_total: 0,
                banker_total: 7,
                player_len: 2,
                banker_len: 3,
                natural: false,
                winner: TerminalWinner::Banker,
                margin: 7,
                total_card_count: 5,
            },
        ),
        (
            BetId::Panda8,
            TerminalOutcome {
                player_total: 8,
                banker_total: 0,
                player_len: 3,
                banker_len: 2,
                natural: false,
                winner: TerminalWinner::Player,
                margin: 8,
                total_card_count: 5,
            },
        ),
    ];

    for (id, outcome) in cases {
        let definition = definition_of(id);
        assert!(terminal_predicate_matches(&definition, outcome));
    }
}

#[test]
fn registry_variant_mapping_matches_registered_variant_definitions() {
    for definition in bet_definitions().iter().filter(|definition| definition.variant.is_some()) {
        let variant = definition.variant.unwrap();

        assert_eq!(calculator::variant_bet_id(definition.bet_type(), variant), definition.id);
    }
}

#[test]
fn default_probability_ratio_is_zero_over_one() {
    assert_eq!(ProbabilityRatio::default(), ProbabilityRatio { numerator: 0, denominator: 1 });
    assert_eq!(ProbabilityRatio::default(), ProbabilityRatio::zero());
}

#[test]
fn whitespace_agrees_with_std_on_every_character() {
    for code in 0u32..=0x10ffff {
        if let Some(c) = char::from_u32(code) {
            assert_eq!(calculator::text::char_is_whitespace(c), c.is_whitespace(), "U+{code:04X}");
        }
    }
}

#[test]
fn registry_rows_are_distinct_and_public_rows_cover_each_bet_type_once() {
    let all = bet_definitions();
    assert_eq!(all.len(), 104);
    let ids: std::collections::HashSet<_> = all.iter().map(|d| d.id).collect();
    assert_eq!(ids.len(), 104);
    for d in &all {
        assert_eq!(d.variant.is_some(), !d.id.is_public_probability_result());
    }
    let public = public_probability_definitions();
    let types: std::collections::HashSet<_> = public.iter().map(|d| d.bet_type()).collect();
    assert_eq!(types.len(), public.len());
    assert_eq!(public.len(), 54);
}

#[test]
fn aggregate_children_are_the_variant_rows_of_their_type() {
    let children = calculator::calculation::aggregate_terminal_ids(BetId::PlayerDragonAggregate).unwrap();
    let variants: Vec<BetId> = bet_definitions()
        .iter()
        .filter(|d| d.bet_type() == BetType::PlayerDragon && d.variant.is_some())
        .map(|d| d.id)
        .collect();
    assert_eq!(children.len(), variants.len());
    for id in variants {
        assert!(children.contains(&id));
    }
    assert!(calculator::calculation::aggregate_terminal_ids(BetId::TreasureAll).is_none());
    assert!(calculator::calculation::aggregate_terminal_ids(BetId::TigerPairAggregate).is_none());
}

#[test]
fn at_most_one_aggregate_child_matches_each_finished_hand() {
    let aggregates: Vec<BetId> = bet_definitions().iter().map(|d| d.id).collect();
    for index in 0..800 {
        let outcome = calculator::outcome::terminal_outcome_from_index(index);
        for &aggregate in &aggregates {
            if let Some(children) = calculator::calculation::aggregate_terminal_ids(aggregate) {
                let matching = children
                    .iter()
                    .filter(|child| terminal_predicate_matches(&definition_of(**child), outcome))
                    .count();
                assert!(matching <= 1, "{aggregate:?} at bucket {index}");
            }
        }
    }
}
