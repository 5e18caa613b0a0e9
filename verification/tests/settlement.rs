use calculator::{
    settle_bet, settle_bets, BetMode, BetOutcome, BetType, Card, CardRank, CardSuit, DealtHands, DecimalNumber,
    MonkeyMode, PerfectPairMode, SettlementError, SettlementOddsSpec, SettlementOutcomeOdds, SettlementResult,
    SettlementSpec, SettlementStatus,
};
use calculator::mode_contract::ModeError;
use calculator::settlement::{hands_fit_exactly, money_fits_exactly, validate_settlement_input};
use rust_decimal::Decimal;

fn card(rank: CardRank, suit: CardSuit) -> Card {
    Card { rank, suit }
}

fn number(value: Decimal) -> DecimalNumber {
    DecimalNumber { mantissa: value.mantissa(), scale: value.scale() }
}

fn decimal(value: DecimalNumber) -> Decimal {
    Decimal::from_i128_with_scale(value.mantissa, value.scale)
}

fn player_win_cards() -> DealtHands {
    DealtHands {
        player: vec![card(CardRank::Nine, CardSuit::Clubs), card(CardRank::King, CardSuit::Clubs)],
        banker: vec![card(CardRank::Seven, CardSuit::Diamonds), card(CardRank::King, CardSuit::Diamonds)],
    }
}

fn banker_win_cards() -> DealtHands {
    DealtHands {
        player: vec![card(CardRank::Seven, CardSuit::Clubs), card(CardRank::King, CardSuit::Clubs)],
        banker: vec![card(CardRank::Nine, CardSuit::Diamonds), card(CardRank::King, CardSuit::Diamonds)],
    }
}

fn tie_cards() -> DealtHands {
    DealtHands {
        player: vec![card(CardRank::Eight, CardSuit::Clubs), card(CardRank::King, CardSuit::Clubs)],
        banker: vec![card(CardRank::Eight, CardSuit::Diamonds), card(CardRank::King, CardSuit::Diamonds)],
    }
}

fn single_odds_spec(id: &str, bet_type: BetType, amount: Decimal, odds: Decimal) -> SettlementSpec {
    SettlementSpec {
        id: String::from(id),
        bet_type,
        amount: number(amount),
        mode: None,
        odds: SettlementOddsSpec::Simple(number(odds)),
    }
}

fn outcome_odds(outcome: BetOutcome, odds: Decimal) -> SettlementOutcomeOdds {
    SettlementOutcomeOdds { outcome, odds: number(odds) }
}

fn applied(result: &SettlementResult) -> Vec<(Option<BetOutcome>, Decimal)> {
    result.applied_odds.iter().map(|entry| (entry.outcome, decimal(entry.odds))).collect()
}

fn assert_single_odds_result(
    result: &SettlementResult,
    status: SettlementStatus,
    profit: Decimal,
    payout: Decimal,
    applied_odds: Vec<(Option<BetOutcome>, Decimal)>,
) {
    assert_eq!(result.status, status);
    assert_eq!(decimal(result.profit), profit);
    assert_eq!(decimal(result.payout), payout);
    assert_eq!(applied(result), applied_odds);
}

#[test]
fn player_win_settles_with_decimal_payout_and_profit() {
    let cards = player_win_cards();
    let spec = single_odds_spec("player-1", BetType::Player, Decimal::new(1000, 2), Decimal::ONE);

    let result = settle_bet(&cards, &spec).expect("Player settlement should succeed");

    assert_eq!(decimal(result.stake), Decimal::new(1000, 2));
    assert_single_odds_result(
        &result,
        SettlementStatus::Win,
        Decimal::new(1000, 2),
        Decimal::new(2000, 2),
        vec![(None, Decimal::ONE)],
    );
}

#[test]
fn player_and_banker_push_on_tie_with_stake_returned() {
    let cards = tie_cards();

    for bet_type in [BetType::Player, BetType::Banker] {
        let spec = single_odds_spec("tie-push", bet_type, Decimal::new(2500, 2), Decimal::ONE);

        let result = settle_bet(&cards, &spec).expect("tie push settlement should succeed");

        assert_single_odds_result(&result, SettlementStatus::Push, Decimal::ZERO, Decimal::new(2500, 2), Vec::new());
    }
}

#[test]
fn banker_and_tie_settle_win_and_lose_statuses_with_money() {
    let player_spec = single_odds_spec("player-lose", BetType::Player, Decimal::new(2000, 2), Decimal::ONE);
    let player_lose_result = settle_bet(&banker_win_cards(), &player_spec).expect("Player loss should settle");

    assert_single_odds_result(
        &player_lose_result,
        SettlementStatus::Lose,
        Decimal::new(-2000, 2),
        Decimal::ZERO,
        Vec::new(),
    );

    let banker_spec = single_odds_spec("banker-1", BetType::Banker, Decimal::new(2000, 2), Decimal::new(95, 2));
    let banker_result = settle_bet(&banker_win_cards(), &banker_spec).expect("Banker win should settle");

    assert_single_odds_result(
        &banker_result,
        SettlementStatus::Win,
        Decimal::new(1900, 2),
        Decimal::new(3900, 2),
        vec![(None, Decimal::new(95, 2))],
    );

    let banker_lose_result = settle_bet(&player_win_cards(), &banker_spec).expect("Banker loss should settle");

    assert_single_odds_result(
        &banker_lose_result,
        SettlementStatus::Lose,
        Decimal::new(-2000, 2),
        Decimal::ZERO,
        Vec::new(),
    );

    let tie_win_spec = single_odds_spec("tie-1", BetType::Tie, Decimal::new(1000, 2), Decimal::new(800, 2));
    let tie_win_result = settle_bet(&tie_cards(), &tie_win_spec).expect("Tie win should settle");

    assert_single_odds_result(
        &tie_win_result,
        SettlementStatus::Win,
        Decimal::new(8000, 2),
        Decimal::new(9000, 2),
        vec![(None, Decimal::new(800, 2))],
    );

    let tie_lose_result = settle_bet(&player_win_cards(), &tie_win_spec).expect("Tie loss should settle");

    assert_single_odds_result(&tie_lose_result, SettlementStatus::Lose, Decimal::new(-1000, 2), Decimal::ZERO, Vec::new());
}

#[test]
fn perfect_pair_both_sides_uses_only_both_sides_outcome_odds() {
    let cards = DealtHands {
        player: vec![card(CardRank::Ace, CardSuit::Clubs), card(CardRank::Ace, CardSuit::Clubs)],
        banker: vec![card(CardRank::King, CardSuit::Spades), card(CardRank::King, CardSuit::Spades)],
    };
    let spec = SettlementSpec {
        id: String::from("perfect-pair-1"),
        bet_type: BetType::PerfectPair,
        amount: number(Decimal::new(500, 2)),
        mode: Some(BetMode::PerfectPair(PerfectPairMode::SinglePlusBoth)),
        odds: SettlementOddsSpec::ByOutcome(vec![
            outcome_odds(BetOutcome::PerfectPairSingleSide, Decimal::new(2500, 2)),
            outcome_odds(BetOutcome::PerfectPairBothSides, Decimal::new(20000, 2)),
        ]),
    };

    let result = settle_bet(&cards, &spec).expect("PerfectPair settlement should succeed");

    assert_eq!(result.status, SettlementStatus::Win);
    assert_eq!(result.matched_outcomes, vec![BetOutcome::PerfectPairBothSides]);
    assert_eq!(applied(&result), vec![(Some(BetOutcome::PerfectPairBothSides), Decimal::new(20000, 2))]);
    assert_eq!(decimal(result.profit), Decimal::new(100000, 2));
    assert_eq!(decimal(result.payout), Decimal::new(100500, 2));
}

fn monkey_cards() -> DealtHands {
    DealtHands {
        player: vec![card(CardRank::Jack, CardSuit::Clubs), card(CardRank::Queen, CardSuit::Clubs)],
        banker: vec![card(CardRank::King, CardSuit::Diamonds), card(CardRank::Jack, CardSuit::Diamonds)],
    }
}

fn no_monkey_cards() -> DealtHands {
    DealtHands {
        player: vec![card(CardRank::Ace, CardSuit::Clubs), card(CardRank::Two, CardSuit::Clubs)],
        banker: vec![card(CardRank::Three, CardSuit::Diamonds), card(CardRank::Four, CardSuit::Diamonds)],
    }
}

#[test]
fn monkey_standard_settles_monkey_and_no_monkey_with_separate_odds() {
    let spec = SettlementSpec {
        id: String::from("monkey-standard"),
        bet_type: BetType::Monkey,
        amount: number(Decimal::new(300, 2)),
        mode: Some(BetMode::Monkey(MonkeyMode::Standard)),
        odds: SettlementOddsSpec::ByOutcome(vec![
            outcome_odds(BetOutcome::Monkey, Decimal::new(5000, 2)),
            outcome_odds(BetOutcome::NoMonkey, Decimal::ONE),
        ]),
    };

    let monkey_result = settle_bet(&monkey_cards(), &spec).expect("Monkey should win");
    let no_monkey_result = settle_bet(&no_monkey_cards(), &spec).expect("NoMonkey should win");

    assert_eq!(monkey_result.matched_outcomes, vec![BetOutcome::Monkey]);
    assert_single_odds_result(
        &monkey_result,
        SettlementStatus::Win,
        Decimal::new(15000, 2),
        Decimal::new(15300, 2),
        vec![(Some(BetOutcome::Monkey), Decimal::new(5000, 2))],
    );
    assert_eq!(no_monkey_result.matched_outcomes, vec![BetOutcome::NoMonkey]);
    assert_single_odds_result(
        &no_monkey_result,
        SettlementStatus::Win,
        Decimal::new(300, 2),
        Decimal::new(600, 2),
        vec![(Some(BetOutcome::NoMonkey), Decimal::ONE)],
    );
}

#[test]
fn monkey_no_monkey_only_wins_only_no_monkey() {
    let spec = SettlementSpec {
        id: String::from("no-monkey-only"),
        bet_type: BetType::Monkey,
        amount: number(Decimal::new(700, 2)),
        mode: Some(BetMode::Monkey(MonkeyMode::NoMonkeyOnly)),
        odds: SettlementOddsSpec::ByOutcome(vec![outcome_odds(BetOutcome::NoMonkey, Decimal::ONE)]),
    };

    let monkey_result = settle_bet(&monkey_cards(), &spec).expect("Monkey should lose");
    let no_monkey_result = settle_bet(&no_monkey_cards(), &spec).expect("NoMonkey should win");

    assert_single_odds_result(&monkey_result, SettlementStatus::Lose, Decimal::new(-700, 2), Decimal::ZERO, Vec::new());
    assert_eq!(no_monkey_result.matched_outcomes, vec![BetOutcome::NoMonkey]);
    assert_single_odds_result(
        &no_monkey_result,
        SettlementStatus::Win,
        Decimal::new(700, 2),
        Decimal::new(1400, 2),
        vec![(Some(BetOutcome::NoMonkey), Decimal::ONE)],
    );
}

#[test]
fn tiger_settles_two_and_three_card_outcome_odds() {
    let tiger_two_cards = DealtHands {
        player: vec![card(CardRank::Five, CardSuit::Clubs), card(CardRank::King, CardSuit::Clubs)],
        banker: vec![card(CardRank::Six, CardSuit::Diamonds), card(CardRank::King, CardSuit::Diamonds)],
    };
    let tiger_three_cards = DealtHands {
        player: vec![card(CardRank::Five, CardSuit::Clubs), card(CardRank::King, CardSuit::Clubs)],
        banker: vec![
            card(CardRank::Two, CardSuit::Diamonds),
            card(CardRank::Two, CardSuit::Spades),
            card(CardRank::Two, CardSuit::Hearts),
        ],
    };
    let spec = SettlementSpec {
        id: String::from("tiger"),
        bet_type: BetType::Tiger,
        amount: number(Decimal::new(400, 2)),
        mode: None,
        odds: SettlementOddsSpec::ByOutcome(vec![
            outcome_odds(BetOutcome::TigerTwoCards, Decimal::new(1200, 2)),
            outcome_odds(BetOutcome::TigerThreeCards, Decimal::new(2000, 2)),
        ]),
    };

    let tiger_two_result = settle_bet(&tiger_two_cards, &spec).expect("Tiger two should win");
    let tiger_three_result = settle_bet(&tiger_three_cards, &spec).expect("Tiger three should win");
    let lose_result = settle_bet(&player_win_cards(), &spec).expect("Tiger loss should settle");

    assert_eq!(tiger_two_result.matched_outcomes, vec![BetOutcome::TigerTwoCards]);
    assert_single_odds_result(
        &tiger_two_result,
        SettlementStatus::Win,
        Decimal::new(4800, 2),
        Decimal::new(5200, 2),
        vec![(Some(BetOutcome::TigerTwoCards), Decimal::new(1200, 2))],
    );
    assert_eq!(tiger_three_result.matched_outcomes, vec![BetOutcome::TigerThreeCards]);
    assert_single_odds_result(
        &tiger_three_result,
        SettlementStatus::Win,
        Decimal::new(8000, 2),
        Decimal::new(8400, 2),
        vec![(Some(BetOutcome::TigerThreeCards), Decimal::new(2000, 2))],
    );
    assert_single_odds_result(&lose_result, SettlementStatus::Lose, Decimal::new(-400, 2), Decimal::ZERO, Vec::new());
}

#[test]
fn super_tie_zero_through_nine_settle_exact_tie_totals() {
    let cases = [
        (BetType::SuperTie0, CardRank::Ten, Decimal::new(15000, 2)),
        (BetType::SuperTie1, CardRank::Ace, Decimal::new(21500, 2)),
        (BetType::SuperTie2, CardRank::Two, Decimal::new(22000, 2)),
        (BetType::SuperTie3, CardRank::Three, Decimal::new(20000, 2)),
        (BetType::SuperTie4, CardRank::Four, Decimal::new(12000, 2)),
        (BetType::SuperTie5, CardRank::Five, Decimal::new(11000, 2)),
        (BetType::SuperTie6, CardRank::Six, Decimal::new(4500, 2)),
        (BetType::SuperTie7, CardRank::Seven, Decimal::new(4500, 2)),
        (BetType::SuperTie8, CardRank::Eight, Decimal::new(8000, 2)),
        (BetType::SuperTie9, CardRank::Nine, Decimal::new(8000, 2)),
    ];

    for (bet_type, total_rank, odds) in cases {
        let cards = DealtHands {
            player: vec![card(total_rank, CardSuit::Clubs), card(CardRank::King, CardSuit::Clubs)],
            banker: vec![card(total_rank, CardSuit::Diamonds), card(CardRank::King, CardSuit::Diamonds)],
        };
        let spec = single_odds_spec("super-tie", bet_type, Decimal::new(200, 2), odds);

        let result = settle_bet(&cards, &spec).expect("SuperTie should settle");

        assert_single_odds_result(
            &result,
            SettlementStatus::Win,
            Decimal::new(200, 2) * odds,
            Decimal::new(200, 2) + Decimal::new(200, 2) * odds,
            vec![(None, odds)],
        );
    }

    let lose_spec = single_odds_spec("super-tie-lose", BetType::SuperTie9, Decimal::new(200, 2), Decimal::new(8000, 2));
    let lose_result = settle_bet(&tie_cards(), &lose_spec).expect("SuperTie loss should settle");

    assert_single_odds_result(&lose_result, SettlementStatus::Lose, Decimal::new(-200, 2), Decimal::ZERO, Vec::new());
}

#[test]
fn settlement_rejects_zero_amount() {
    let spec = SettlementSpec {
        id: String::from("zero-amount"),
        bet_type: BetType::Player,
        amount: number(Decimal::ZERO),
        mode: None,
        odds: SettlementOddsSpec::Simple(number(Decimal::ONE)),
    };

    let err = settle_bet(&player_win_cards(), &spec).expect_err("zero amount should fail");

    assert!(matches!(err, SettlementError::NonPositiveAmount(id) if id == "zero-amount"));
}

#[test]
fn settlement_rejects_amount_with_more_than_two_decimal_places() {
    let spec = SettlementSpec {
        id: String::from("amount-scale"),
        bet_type: BetType::Player,
        amount: number(Decimal::new(1001, 3)),
        mode: None,
        odds: SettlementOddsSpec::Simple(number(Decimal::ONE)),
    };

    let err = settle_bet(&player_win_cards(), &spec).expect_err("amount scale should fail");

    assert!(matches!(err, SettlementError::AmountScale(id) if id == "amount-scale"));
}

#[test]
fn settlement_rejects_odds_with_more_than_two_decimal_places() {
    let spec = SettlementSpec {
        id: String::from("odds-scale"),
        bet_type: BetType::Player,
        amount: number(Decimal::new(1000, 2)),
        mode: None,
        odds: SettlementOddsSpec::Simple(number(Decimal::new(1234, 3))),
    };

    let err = settle_bet(&player_win_cards(), &spec).expect_err("odds scale should fail");

    assert!(matches!(err, SettlementError::OddsScale(id) if id == "odds-scale"));
}

#[test]
fn settlement_rejects_missing_required_outcome_odds() {
    let cards = DealtHands {
        player: vec![card(CardRank::Ace, CardSuit::Clubs), card(CardRank::Ace, CardSuit::Clubs)],
        banker: vec![card(CardRank::King, CardSuit::Spades), card(CardRank::King, CardSuit::Spades)],
    };
    let spec = SettlementSpec {
        id: String::from("missing-outcome"),
        bet_type: BetType::PerfectPair,
        amount: number(Decimal::new(500, 2)),
        mode: Some(BetMode::PerfectPair(PerfectPairMode::SinglePlusBoth)),
        odds: SettlementOddsSpec::ByOutcome(vec![outcome_odds(BetOutcome::PerfectPairSingleSide, Decimal::new(2500, 2))]),
    };

    let err = settle_bet(&cards, &spec).expect_err("missing outcome odds should fail");

    assert!(matches!(err, SettlementError::MissingOutcomeOdds(id) if id == "missing-outcome"));
}

#[test]
fn settlement_rejects_irrelevant_outcome_odds() {
    let spec = SettlementSpec {
        id: String::from("irrelevant-outcome"),
        bet_type: BetType::Monkey,
        amount: number(Decimal::new(500, 2)),
        mode: Some(BetMode::Monkey(MonkeyMode::NoMonkeyOnly)),
        odds: SettlementOddsSpec::ByOutcome(vec![
            outcome_odds(BetOutcome::NoMonkey, Decimal::ONE),
            outcome_odds(BetOutcome::Monkey, Decimal::new(5000, 2)),
        ]),
    };

    let err = settle_bet(&player_win_cards(), &spec).expect_err("irrelevant odds should fail");

    assert!(matches!(err, SettlementError::IrrelevantOutcomeOdds(id) if id == "irrelevant-outcome"));
}

#[test]
fn settlement_rejects_incompatible_mode() {
    let spec = SettlementSpec {
        id: String::from("bad-mode"),
        bet_type: BetType::PerfectPair,
        amount: number(Decimal::new(500, 2)),
        mode: Some(BetMode::Monkey(MonkeyMode::Standard)),
        odds: SettlementOddsSpec::Simple(number(Decimal::new(2500, 2))),
    };

    let err = settle_bet(&player_win_cards(), &spec).expect_err("bad mode should fail");

    assert!(matches!(
        err,
        SettlementError::IncompatibleMode(id, ModeError::Incompatible(BetMode::Monkey(MonkeyMode::Standard), BetType::PerfectPair))
            if id == "bad-mode"
    ));
}

#[test]
fn settlement_rejects_duplicate_outcome_odds() {
    let spec = SettlementSpec {
        id: String::from("duplicate-outcome"),
        bet_type: BetType::Monkey,
        amount: number(Decimal::new(500, 2)),
        mode: Some(BetMode::Monkey(MonkeyMode::Standard)),
        odds: SettlementOddsSpec::ByOutcome(vec![
            outcome_odds(BetOutcome::NoMonkey, Decimal::ONE),
            outcome_odds(BetOutcome::NoMonkey, Decimal::new(200, 2)),
        ]),
    };

    let err = settle_bet(&player_win_cards(), &spec).expect_err("duplicate odds should fail");

    assert!(matches!(err, SettlementError::DuplicateOutcomeOdds(id) if id == "duplicate-outcome"));
}

#[test]
fn settlement_rounds_profit_and_payout_to_two_decimal_places() {
    let spec = single_odds_spec("rounding", BetType::Player, Decimal::new(1001, 2), Decimal::new(123, 2));

    let result = settle_bet(&player_win_cards(), &spec).expect("rounding settlement should pass");

    assert_eq!(decimal(result.profit), Decimal::new(1231, 2));
    assert_eq!(decimal(result.payout), Decimal::new(2232, 2));
}

#[test]
fn settlement_rejects_blank_id_before_anything_else() {
    let spec = single_odds_spec(" \t ", BetType::Player, Decimal::ZERO, Decimal::new(-1, 0));

    let err = settle_bet(&player_win_cards(), &spec).expect_err("blank id should fail");

    assert!(matches!(err, SettlementError::BlankId));
}

#[test]
fn settlement_rejects_negative_odds_and_short_hands() {
    let negative = single_odds_spec("negative", BetType::Player, Decimal::new(100, 2), Decimal::new(-1, 2));
    let err = settle_bet(&player_win_cards(), &negative).expect_err("negative odds should fail");
    assert!(matches!(err, SettlementError::NegativeOdds(id) if id == "negative"));

    let short = DealtHands { player: vec![card(CardRank::Nine, CardSuit::Clubs)], banker: player_win_cards().banker };
    let spec = single_odds_spec("short", BetType::Player, Decimal::new(100, 2), Decimal::ONE);
    let err = settle_bet(&short, &spec).expect_err("short hands should fail");
    assert!(matches!(err, SettlementError::TooFewCards));
}

#[test]
fn settlement_rejects_outcome_odds_for_plain_bets_and_unsupported_bet_types() {
    let spec = SettlementSpec {
        id: String::from("plain"),
        bet_type: BetType::Player,
        amount: number(Decimal::new(100, 2)),
        mode: None,
        odds: SettlementOddsSpec::ByOutcome(vec![outcome_odds(BetOutcome::Monkey, Decimal::ONE)]),
    };
    let err = settle_bet(&player_win_cards(), &spec).expect_err("outcome odds on Player should fail");
    assert!(matches!(err, SettlementError::OutcomeOddsUnsupported(id) if id == "plain"));

    let dragon = single_odds_spec("dragon", BetType::Dragon7, Decimal::new(100, 2), Decimal::ONE);
    let err = settle_bet(&player_win_cards(), &dragon).expect_err("Dragon7 has no settlement contract");
    assert!(matches!(err, SettlementError::UnsupportedBetType(BetType::Dragon7)));
}

#[test]
fn settlement_rounds_half_cents_to_even() {
    let down = single_odds_spec("half-down", BetType::Player, Decimal::new(5, 2), Decimal::new(50, 2));
    let result = settle_bet(&player_win_cards(), &down).expect("half cent should settle");
    assert_eq!(decimal(result.profit), Decimal::new(2, 2));
    assert_eq!(decimal(result.payout), Decimal::new(7, 2));

    let up = single_odds_spec("half-up", BetType::Player, Decimal::new(15, 2), Decimal::new(50, 2));
    let result = settle_bet(&player_win_cards(), &up).expect("half cent should settle");
    assert_eq!(decimal(result.profit), Decimal::new(8, 2));
    assert_eq!(decimal(result.payout), Decimal::new(23, 2));
}

#[test]
fn settle_bets_preserves_order_and_fails_the_whole_batch() {
    let specs = vec![
        single_odds_spec("a", BetType::Player, Decimal::new(100, 2), Decimal::ONE),
        single_odds_spec("b", BetType::Banker, Decimal::new(200, 2), Decimal::new(95, 2)),
    ];
    let results = settle_bets(&player_win_cards(), &specs).expect("batch should settle");
    assert_eq!(results.len(), 2);
    assert_eq!(results[0].id, "a");
    assert_eq!(results[0].status, SettlementStatus::Win);
    assert_eq!(results[1].id, "b");
    assert_eq!(results[1].status, SettlementStatus::Lose);

    let failing = vec![
        single_odds_spec("ok", BetType::Player, Decimal::new(100, 2), Decimal::ONE),
        single_odds_spec("bad", BetType::Player, Decimal::ZERO, Decimal::ONE),
        single_odds_spec("", BetType::Player, Decimal::new(100, 2), Decimal::ONE),
    ];
    let err = settle_bets(&player_win_cards(), &failing).expect_err("batch should fail");
    assert!(matches!(err, SettlementError::NonPositiveAmount(id) if id == "bad"));
}

#[test]
fn settled_money_follows_status() {
    for (cards, bet_type) in [
        (player_win_cards(), BetType::Player),
        (tie_cards(), BetType::Player),
        (banker_win_cards(), BetType::Player),
    ] {
        let spec = single_odds_spec("law", bet_type, Decimal::new(1234, 2), Decimal::new(95, 2));
        let result = settle_bet(&cards, &spec).expect("settles");
        let stake = decimal(result.stake);
        let profit = decimal(result.profit);
        let payout = decimal(result.payout);
        match result.status {
            SettlementStatus::Win => assert_eq!(payout, stake + profit),
            SettlementStatus::Push => {
                assert_eq!(payout, stake);
                assert_eq!(profit, Decimal::ZERO);
            },
            SettlementStatus::Lose => {
                assert_eq!(payout, Decimal::ZERO);
                assert_eq!(profit, -stake);
            },
        }
    }
}

#[test]
fn exact_money_range_accepts_ordinary_stakes_and_refuses_huge_products() {
    let ordinary = single_odds_spec("ordinary", BetType::Player, Decimal::new(1_000_000_00, 2), Decimal::new(95, 2));
    assert!(money_fits_exactly(&ordinary));
    let huge_stake = DecimalNumber { mantissa: 10_i128.pow(20), scale: 2 };
    let huge_odds = DecimalNumber { mantissa: 10_i128.pow(9), scale: 0 };
    let huge = SettlementSpec {
        id: String::from("huge"),
        bet_type: BetType::Player,
        amount: huge_stake,
        mode: None,
        odds: SettlementOddsSpec::Simple(huge_odds),
    };
    assert!(!money_fits_exactly(&huge));
    let one_bad_outcome = SettlementSpec {
        id: String::from("outcomes"),
        bet_type: BetType::Monkey,
        amount: number(Decimal::new(100, 2)),
        mode: Some(BetMode::Monkey(MonkeyMode::Standard)),
        odds: SettlementOddsSpec::ByOutcome(vec![
            outcome_odds(BetOutcome::Monkey, Decimal::new(4, 0)),
            SettlementOutcomeOdds { outcome: BetOutcome::NoMonkey, odds: DecimalNumber { mantissa: 10_i128.pow(27), scale: 0 } },
        ]),
    };
    assert!(!money_fits_exactly(&one_bad_outcome));
    let near_limit = SettlementSpec {
        id: String::from("near"),
        bet_type: BetType::Player,
        amount: DecimalNumber { mantissa: 7 * 10_i128.pow(26), scale: 2 },
        mode: None,
        odds: SettlementOddsSpec::Simple(DecimalNumber { mantissa: 1, scale: 0 }),
    };
    assert!(money_fits_exactly(&near_limit));
    let result = settle_bet(&player_win_cards(), &near_limit).expect("exact near the limit");
    assert_eq!(result.payout.mantissa, 14 * 10_i128.pow(26));
}

#[test]
fn hands_fit_a_byte_unless_a_hand_is_absurdly_long() {
    assert!(hands_fit_exactly(&player_win_cards()));
    let long = DealtHands {
        player: vec![card(CardRank::Nine, CardSuit::Clubs); 29],
        banker: vec![card(CardRank::Nine, CardSuit::Diamonds); 2],
    };
    assert!(!hands_fit_exactly(&long));
    let just_fits = DealtHands {
        player: vec![card(CardRank::Nine, CardSuit::Clubs); 28],
        banker: vec![card(CardRank::Nine, CardSuit::Diamonds); 2],
    };
    assert!(hands_fit_exactly(&just_fits));
}

#[test]
fn input_validation_is_available_before_settling() {
    let cards = player_win_cards();
    let valid = single_odds_spec("valid", BetType::Player, Decimal::new(1000, 2), Decimal::ONE);
    assert!(validate_settlement_input(&cards, &valid).is_ok());
    let blank = single_odds_spec("  ", BetType::Player, Decimal::new(1000, 2), Decimal::ONE);
    assert!(matches!(validate_settlement_input(&cards, &blank), Err(SettlementError::BlankId)));
}

#[test]
fn missing_required_outcome_odds_are_refused_whatever_the_cards() {
    let spec = SettlementSpec {
        id: String::from("monkey"),
        bet_type: BetType::Monkey,
        amount: number(Decimal::new(500, 2)),
        mode: Some(BetMode::Monkey(MonkeyMode::Standard)),
        odds: SettlementOddsSpec::ByOutcome(vec![outcome_odds(BetOutcome::NoMonkey, Decimal::ONE)]),
    };
    for cards in [player_win_cards(), banker_win_cards(), tie_cards()] {
        let err = settle_bet(&cards, &spec).unwrap_err();
        assert!(matches!(err, SettlementError::MissingOutcomeOdds(id) if id == "monkey"));
    }
    let tiger = SettlementSpec {
        id: String::from("tiger"),
        bet_type: BetType::Tiger,
        amount: number(Decimal::new(500, 2)),
        mode: None,
        odds: SettlementOddsSpec::ByOutcome(vec![outcome_odds(BetOutcome::TigerTwoCards, Decimal::new(12, 0))]),
    };
    let err = settle_bet(&player_win_cards(), &tiger).unwrap_err();
    assert!(matches!(err, SettlementError::MissingOutcomeOdds(id) if id == "tiger"));
}

#[test]
fn perfect_pair_standard_pays_both_sides_at_single_side_odds() {
    let cards = DealtHands {
        player: vec![card(CardRank::Ace, CardSuit::Clubs), card(CardRank::Ace, CardSuit::Clubs)],
        banker: vec![card(CardRank::King, CardSuit::Spades), card(CardRank::King, CardSuit::Spades)],
    };
    for mode in [Some(BetMode::PerfectPair(PerfectPairMode::Standard)), None] {
        let spec = SettlementSpec {
            id: String::from("perfect-pair-standard"),
            bet_type: BetType::PerfectPair,
            amount: number(Decimal::new(500, 2)),
            mode,
            odds: SettlementOddsSpec::ByOutcome(vec![outcome_odds(
                BetOutcome::PerfectPairSingleSide,
                Decimal::new(2500, 2),
            )]),
        };
        let result = settle_bet(&cards, &spec).expect("standard perfect pair settles both sides as single");
        assert_eq!(result.status, SettlementStatus::Win);
        assert_eq!(result.matched_outcomes, vec![BetOutcome::PerfectPairSingleSide]);
        assert_eq!(decimal(result.profit), Decimal::new(12500, 2));
        assert_eq!(decimal(result.payout), Decimal::new(13000, 2));
    }
    let with_both_odds = SettlementSpec {
        id: String::from("standard-with-both"),
        bet_type: BetType::PerfectPair,
        amount: number(Decimal::new(500, 2)),
        mode: Some(BetMode::PerfectPair(PerfectPairMode::Standard)),
        odds: SettlementOddsSpec::ByOutcome(vec![
            outcome_odds(BetOutcome::PerfectPairSingleSide, Decimal::new(2500, 2)),
            outcome_odds(BetOutcome::PerfectPairBothSides, Decimal::new(20000, 2)),
        ]),
    };
    let err = settle_bet(&cards, &with_both_odds).unwrap_err();
    assert!(matches!(err, SettlementError::IrrelevantOutcomeOdds(_)));
}

#[test]
fn money_beyond_exact_decimals_is_refused_after_input_checks() {
    let huge = SettlementSpec {
        id: String::from("huge"),
        bet_type: BetType::Player,
        amount: DecimalNumber { mantissa: 10_i128.pow(20), scale: 2 },
        mode: None,
        odds: SettlementOddsSpec::Simple(DecimalNumber { mantissa: 10_i128.pow(9), scale: 0 }),
    };
    let err = settle_bet(&player_win_cards(), &huge).unwrap_err();
    assert!(matches!(err, SettlementError::InexactMoney(id) if id == "huge"));
    let blank = SettlementSpec { id: String::from(" "), ..huge };
    assert!(matches!(settle_bet(&player_win_cards(), &blank).unwrap_err(), SettlementError::BlankId));
}
