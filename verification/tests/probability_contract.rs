use calculator::standard_baccarat::{STANDARD_DECK_COUNT, SUITS_PER_DECK};
use calculator::{
    calculate_exact_probabilities, public_probability_definitions, standard_eight_deck_cards, BetOutcome, BetType,
    BetVariant, CalculatorError, Card, CardCount, CardRank, CardSuit, CharSiuVariant, DragonVariant, Flame7sVariant,
    Fortune4PairVariant, Heaven9Variant, Lucky6Variant, Lucky7Variant, NaturalVariant, ProbabilityRatio,
    ProbabilityRow, SuperLucky7Variant, TigerPairVariant, TigerVariant,
};
use std::collections::HashSet;

const PROBABILITY_ABS_TOLERANCE: f64 = 1e-12;
const PROBABILITY_SUM_ABS_TOLERANCE: f64 = 1e-12;
const SOURCE_BASELINE_TOLERANCE: f64 = 1e-10;

const STANDARD_8_DECK_PLAYER: f64 = 0.446246609343597;
const STANDARD_8_DECK_BANKER: f64 = 0.458597422632763;
const STANDARD_8_DECK_TIE: f64 = 0.095155968023641;

struct Fixture {
    name: &'static str,
    ranks: [(&'static str, u32); 13],
    expected_bets: [(BetType, f64); 5],
}

const STANDARD_8_DECK_FIXTURE: Fixture = Fixture {
    name: "standard-8-deck",
    ranks: [
        ("A", 32),
        ("2", 32),
        ("3", 32),
        ("4", 32),
        ("5", 32),
        ("6", 32),
        ("7", 32),
        ("8", 32),
        ("9", 32),
        ("10", 32),
        ("J", 32),
        ("Q", 32),
        ("K", 32),
    ],
    expected_bets: [
        (BetType::Player, 0.446246609343597),
        (BetType::Banker, 0.458597422632763),
        (BetType::Tie, 0.095155968023641),
        (BetType::PlayerPair, 0.074698795180723),
        (BetType::BankerPair, 0.074698795180723),
    ],
};

const DEPLETED_SHOE_FIXTURE: Fixture = Fixture {
    name: "depleted-8-deck-rank-mix",
    ranks: [
        ("A", 28),
        ("2", 31),
        ("3", 32),
        ("4", 30),
        ("5", 29),
        ("6", 31),
        ("7", 32),
        ("8", 30),
        ("9", 31),
        ("10", 20),
        ("J", 29),
        ("Q", 30),
        ("K", 28),
    ],
    expected_bets: [
        (BetType::Player, 0.445448531614868),
        (BetType::Banker, 0.458160849668332),
        (BetType::Tie, 0.096390618716800),
        (BetType::PlayerPair, 0.075286641801354),
        (BetType::BankerPair, 0.075286641801354),
    ],
};

const SOURCE_STANDARD_8_DECK_BETS: [(BetType, f64); 41] = [
    (BetType::AnyPair, 0.14381687186687586),
    (BetType::Banker, 0.4585974226322891),
    (BetType::Banker4Fortune, 0.03268242767565334),
    (BetType::BankerBlack, 0.2493975903614458),
    (BetType::BankerCharSiu, 0.047059048028095865),
    (BetType::BankerDragon, 0.2827947340670113),
    (BetType::BankerFortune4Pair, 0.016867469879518072),
    (BetType::BankerNatural, 0.16258909541220742),
    (BetType::BankerPair, 0.0746987951807229),
    (BetType::BankerRed, 0.2493975903614458),
    (BetType::Big, 0.6211315091167852),
    (BetType::BigBull, 0.02186888709468297),
    (BetType::BigTiger, 0.01661699668042493),
    (BetType::Flame7s, 0.01128257885311176),
    (BetType::Panda8, 0.03454321839641624),
    (BetType::Heaven9, 0.07025976794652906),
    (BetType::Invincible6, 0.1356556968017422),
    (BetType::Lucky6, 0.05386371585776824),
    (BetType::Dragon7, 0.02253382086037812),
    (BetType::PerfectPair, 0.03345023424575235),
    (BetType::Player, 0.44624660934317073),
    (BetType::Player4Fortune, 0.01723867654131342),
    (BetType::PlayerBlack, 0.2493975903614458),
    (BetType::PlayerCharSiu, 0.04561189604261718),
    (BetType::PlayerDragon, 0.2898870255071087),
    (BetType::PlayerFortune4Pair, 0.016867469879518072),
    (BetType::Lucky7, 0.08163494723312005),
    (BetType::PlayerNatural, 0.16258909541220692),
    (BetType::PlayerPair, 0.0746987951807229),
    (BetType::PlayerRed, 0.2493975903614458),
    (BetType::SuperLucky7, 0.01898808441473606),
    (BetType::Small, 0.3788684908802761),
    (BetType::SmallBull, 0.0406829300993091),
    (BetType::SmallTiger, 0.037246719177343304),
    (BetType::Tie, 0.09515596802363396),
    (BetType::Tiger, 0.05386371585776824),
    (BetType::TigerBull, 0.11641553305175217),
    (BetType::TigerPair, 0.14381983138364596),
    (BetType::TigerTie, 0.01924016375000266),
    (BetType::TreasureAll, 0.1386193860563475),
    (BetType::WuDaLang, 0.004929417821567907),
];

const SOURCE_STANDARD_8_DECK_VARIANTS: [(BetType, BetVariant, f64); 50] = [
    (BetType::PlayerDragon, BetVariant::Dragon(DragonVariant::Natural), 0.16258909541220692),
    (BetType::PlayerDragon, BetVariant::Dragon(DragonVariant::Point4), 0.03736804109618025),
    (BetType::PlayerDragon, BetVariant::Dragon(DragonVariant::Point5), 0.03324448289809535),
    (BetType::PlayerDragon, BetVariant::Dragon(DragonVariant::Point6), 0.02825683139538551),
    (BetType::PlayerDragon, BetVariant::Dragon(DragonVariant::Point7), 0.01792379409066877),
    (BetType::PlayerDragon, BetVariant::Dragon(DragonVariant::Point8), 0.00682171441010088),
    (BetType::PlayerDragon, BetVariant::Dragon(DragonVariant::Point9), 0.00368306620447101),
    (BetType::PlayerDragon, BetVariant::Dragon(DragonVariant::Push), 0.01787090650724999),
    (BetType::BankerDragon, BetVariant::Dragon(DragonVariant::Natural), 0.16258909541220742),
    (BetType::BankerDragon, BetVariant::Dragon(DragonVariant::Point4), 0.04024232488097321),
    (BetType::BankerDragon, BetVariant::Dragon(DragonVariant::Point5), 0.03146525620076208),
    (BetType::BankerDragon, BetVariant::Dragon(DragonVariant::Point6), 0.02384765394751831),
    (BetType::BankerDragon, BetVariant::Dragon(DragonVariant::Point7), 0.01590851606764434),
    (BetType::BankerDragon, BetVariant::Dragon(DragonVariant::Point8), 0.00566283261637017),
    (BetType::BankerDragon, BetVariant::Dragon(DragonVariant::Point9), 0.00307905494153577),
    (BetType::BankerDragon, BetVariant::Dragon(DragonVariant::Push), 0.01787090650724999),
    (BetType::BankerNatural, BetVariant::Natural(NaturalVariant::Win), 0.16258909541220742),
    (BetType::BankerNatural, BetVariant::Natural(NaturalVariant::Push), 0.01787090650724999),
    (BetType::PlayerNatural, BetVariant::Natural(NaturalVariant::Win), 0.16258909541220692),
    (BetType::PlayerNatural, BetVariant::Natural(NaturalVariant::Push), 0.01787090650724999),
    (BetType::Lucky6, BetVariant::Lucky6(Lucky6Variant::Two), 0.037_246_719_177_343_3),
    (BetType::Lucky6, BetVariant::Lucky6(Lucky6Variant::Three), 0.01661699668042493),
    (BetType::Tiger, BetVariant::Tiger(TigerVariant::Two), 0.037_246_719_177_343_3),
    (BetType::Tiger, BetVariant::Tiger(TigerVariant::Three), 0.01661699668042493),
    (BetType::TigerPair, BetVariant::TigerPair(TigerPairVariant::Perfect), 0.00000295951677010),
    (BetType::TigerPair, BetVariant::TigerPair(TigerPairVariant::Both), 0.00558071849456992),
    (BetType::TigerPair, BetVariant::TigerPair(TigerPairVariant::Single), 0.13823615337230594),
    (BetType::BankerFortune4Pair, BetVariant::Fortune4Pair(Fortune4PairVariant::Fortune30), 0.00032437442075996),
    (BetType::BankerFortune4Pair, BetVariant::Fortune4Pair(Fortune4PairVariant::Fortune15), 0.00097312326227989),
    (BetType::BankerFortune4Pair, BetVariant::Fortune4Pair(Fortune4PairVariant::Fortune12), 0.00389249304911956),
    (BetType::BankerFortune4Pair, BetVariant::Fortune4Pair(Fortune4PairVariant::Fortune9), 0.01167747914735867),
    (BetType::PlayerFortune4Pair, BetVariant::Fortune4Pair(Fortune4PairVariant::Fortune30), 0.00032437442075996),
    (BetType::PlayerFortune4Pair, BetVariant::Fortune4Pair(Fortune4PairVariant::Fortune15), 0.00097312326227989),
    (BetType::PlayerFortune4Pair, BetVariant::Fortune4Pair(Fortune4PairVariant::Fortune12), 0.00389249304911956),
    (BetType::PlayerFortune4Pair, BetVariant::Fortune4Pair(Fortune4PairVariant::Fortune9), 0.01167747914735867),
    (BetType::BankerCharSiu, BetVariant::CharSiu(CharSiuVariant::Point4), 0.02692314684572595),
    (BetType::BankerCharSiu, BetVariant::CharSiu(CharSiuVariant::Point5), 0.01358817350710437),
    (BetType::BankerCharSiu, BetVariant::CharSiu(CharSiuVariant::Point6), 0.00654772767526555),
    (BetType::PlayerCharSiu, BetVariant::CharSiu(CharSiuVariant::Point4), 0.02692314684572595),
    (BetType::PlayerCharSiu, BetVariant::CharSiu(CharSiuVariant::Point5), 0.01182891860667444),
    (BetType::PlayerCharSiu, BetVariant::CharSiu(CharSiuVariant::Point6), 0.00685983059021679),
    (BetType::Lucky7, BetVariant::Lucky7(Lucky7Variant::Two), 0.05434667239745365),
    (BetType::Lucky7, BetVariant::Lucky7(Lucky7Variant::Three), 0.027_288_274_835_666_4),
    (BetType::SuperLucky7, BetVariant::SuperLucky7(SuperLucky7Variant::Four), 0.00897424352068278),
    (BetType::SuperLucky7, BetVariant::SuperLucky7(SuperLucky7Variant::Five), 0.00729903683362935),
    (BetType::SuperLucky7, BetVariant::SuperLucky7(SuperLucky7Variant::Six), 0.00271480406042392),
    (BetType::Flame7s, BetVariant::Flame7s(Flame7sVariant::Two), 0.00897063572881066),
    (BetType::Flame7s, BetVariant::Flame7s(Flame7sVariant::Three), 0.00231194312430109),
    (BetType::Heaven9, BetVariant::Heaven9(Heaven9Variant::Single), 0.068_197_658_579_716_3),
    (BetType::Heaven9, BetVariant::Heaven9(Heaven9Variant::Both), 0.00206210936681277),
];

const SUITS: [CardSuit; 4] = [CardSuit::Clubs, CardSuit::Diamonds, CardSuit::Hearts, CardSuit::Spades];

fn assert_close(actual: f64, expected: f64, tolerance: f64) {
    assert!(
        (actual - expected).abs() <= tolerance,
        "expected {actual:.15} to be within {tolerance} of {expected:.15}"
    );
}

fn assert_probability_close(actual: f64, expected: f64) {
    assert_close(actual, expected, PROBABILITY_ABS_TOLERANCE);
}

fn as_f64(ratio: ProbabilityRatio) -> f64 {
    ratio.numerator as f64 / ratio.denominator as f64
}

fn fixture_cards(ranks: &[(&str, u32); 13]) -> Vec<CardCount> {
    ranks
        .iter()
        .flat_map(|(rank, count)| {
            let rank = CardRank::from_label(rank).unwrap_or_else(|| panic!("fixture rank {rank} should be supported"));
            let base = count / u32::from(SUITS_PER_DECK);
            let remainder = count % u32::from(SUITS_PER_DECK);
            SUITS.into_iter().enumerate().map(move |(index, suit)| CardCount {
                card: Card { suit, rank },
                count: base + u32::from(index < remainder as usize),
            })
        })
        .collect()
}

fn standard_cards() -> Vec<CardCount> {
    standard_eight_deck_cards()
}

fn card(suit: CardSuit, rank: CardRank) -> Card {
    Card { suit, rank }
}

fn result_by_bet_type(result: &[ProbabilityRow], bet_type: BetType) -> &ProbabilityRow {
    result.iter().find(|bet| bet.bet_type == bet_type).unwrap_or_else(|| panic!("missing result for {bet_type:?}"))
}

fn probability_of(result: &[ProbabilityRow], bet_type: BetType) -> f64 {
    as_f64(result_by_bet_type(result, bet_type).probability)
}

fn variant_probability(result: &[ProbabilityRow], bet_type: BetType, variant: BetVariant) -> f64 {
    as_f64(
        result_by_bet_type(result, bet_type)
            .variants
            .iter()
            .find(|actual| actual.variant == variant)
            .unwrap_or_else(|| panic!("missing variant {variant:?} for {bet_type:?}"))
            .probability,
    )
}

fn outcome_probability(result: &[ProbabilityRow], bet_type: BetType, outcome: BetOutcome) -> f64 {
    as_f64(
        result_by_bet_type(result, bet_type)
            .outcomes
            .iter()
            .find(|actual| actual.outcome == outcome)
            .unwrap_or_else(|| panic!("missing outcome {outcome:?} for {bet_type:?}"))
            .probability,
    )
}

fn new_public_bet_types() -> HashSet<BetType> {
    [
        BetType::Monkey,
        BetType::BigLucky7,
        BetType::SmallLucky7,
        BetType::SuperTie0,
        BetType::SuperTie1,
        BetType::SuperTie2,
        BetType::SuperTie3,
        BetType::SuperTie4,
        BetType::SuperTie5,
        BetType::SuperTie6,
        BetType::SuperTie7,
        BetType::SuperTie8,
        BetType::SuperTie9,
    ]
    .into_iter()
    .collect()
}

#[derive(Clone, Copy, Debug, Default)]
struct BruteForceOutcomeCounts {
    player: u128,
    banker: u128,
    tie: u128,
}

#[derive(Clone, Copy, Debug, Default)]
struct BruteForceOpeningOutcomeCounts {
    total: u128,
    perfect_pair_single_side: u128,
    perfect_pair_both_sides: u128,
    monkey: u128,
    no_monkey: u128,
}

#[derive(Clone, Copy, Debug, PartialEq, Eq)]
enum BruteForceWinner {
    Player,
    Banker,
    Tie,
}

impl BruteForceOutcomeCounts {
    fn add(&mut self, winner: BruteForceWinner, weight: u128) {
        match winner {
            BruteForceWinner::Player => self.player += weight,
            BruteForceWinner::Banker => self.banker += weight,
            BruteForceWinner::Tie => self.tie += weight,
        }
    }

    fn total(self) -> u128 {
        self.player + self.banker + self.tie
    }
}

fn deck_of(cards: &[CardCount]) -> Vec<Card> {
    cards.iter().flat_map(|entry| std::iter::repeat_n(entry.card, entry.count as usize)).collect()
}

fn brute_force_main_probabilities(cards: &[CardCount]) -> (f64, f64, f64) {
    let mut deck = deck_of(cards);
    let mut counts = BruteForceOutcomeCounts::default();
    brute_force_deal(&mut deck, &mut Vec::new(), &mut counts);
    let total = counts.total() as f64;
    (counts.player as f64 / total, counts.banker as f64 / total, counts.tie as f64 / total)
}

fn brute_force_opening_outcomes(cards: &[CardCount]) -> BruteForceOpeningOutcomeCounts {
    let mut deck = deck_of(cards);
    let mut counts = BruteForceOpeningOutcomeCounts::default();
    brute_force_opening_four_cards(&mut deck, &mut Vec::new(), &mut counts);
    counts
}

fn is_face(card: &Card) -> bool {
    matches!(card.rank, CardRank::Jack | CardRank::Queen | CardRank::King)
}

fn brute_force_opening_four_cards(
    remaining: &mut Vec<Card>,
    dealt: &mut Vec<Card>,
    counts: &mut BruteForceOpeningOutcomeCounts,
) {
    if dealt.len() == 4 {
        counts.total += 1;
        let player_pair = dealt[0] == dealt[2];
        let banker_pair = dealt[1] == dealt[3];
        match (player_pair, banker_pair) {
            (true, true) => counts.perfect_pair_both_sides += 1,
            (true, false) | (false, true) => counts.perfect_pair_single_side += 1,
            (false, false) => {},
        }
        if dealt.iter().all(is_face) {
            counts.monkey += 1;
        }
        if dealt.iter().all(|card| !is_face(card)) {
            counts.no_monkey += 1;
        }
        return;
    }

    for index in 0..remaining.len() {
        let next = remaining.swap_remove(index);
        dealt.push(next);
        brute_force_opening_four_cards(remaining, dealt, counts);
        dealt.pop();
        remaining.push(next);
        let last_index = remaining.len() - 1;
        remaining.swap(index, last_index);
    }
}

fn brute_force_deal(remaining: &mut Vec<Card>, dealt: &mut Vec<Card>, counts: &mut BruteForceOutcomeCounts) {
    if dealt.len() == 6 {
        counts.add(brute_force_winner(dealt), 1);
        return;
    }

    if dealt.len() >= 4 && brute_force_hand_complete(dealt) {
        counts.add(brute_force_winner(dealt), brute_force_suffix_weight(remaining.len(), 6 - dealt.len()));
        return;
    }

    for index in 0..remaining.len() {
        let next = remaining.swap_remove(index);
        dealt.push(next);
        brute_force_deal(remaining, dealt, counts);
        dealt.pop();
        remaining.push(next);
        let last_index = remaining.len() - 1;
        remaining.swap(index, last_index);
    }
}

fn brute_force_suffix_weight(remaining_cards: usize, draw_count: usize) -> u128 {
    (0..draw_count).map(|offset| (remaining_cards - offset) as u128).product()
}

fn banker_draws(natural: bool, banker_initial_total: u8, player_third_value: Option<u8>) -> bool {
    if natural {
        false
    } else if let Some(player_third) = player_third_value {
        match banker_initial_total {
            0..=2 => true,
            3 => player_third != 8,
            4 => matches!(player_third, 2..=7),
            5 => matches!(player_third, 4..=7),
            6 => matches!(player_third, 6 | 7),
            _ => false,
        }
    } else {
        banker_initial_total <= 5
    }
}

fn brute_force_hand_complete(dealt: &[Card]) -> bool {
    let player_initial_total = brute_force_total(&[dealt[0], dealt[2]]);
    let banker_initial_total = brute_force_total(&[dealt[1], dealt[3]]);
    let natural = matches!(player_initial_total, 8 | 9) || matches!(banker_initial_total, 8 | 9);
    let player_draws = !natural && player_initial_total <= 5;
    if player_draws && dealt.len() < 5 {
        return false;
    }
    let player_third_value = if player_draws { dealt.get(4).map(|card| card.rank.baccarat_value()) } else { None };
    !banker_draws(natural, banker_initial_total, player_third_value)
        || dealt.len() == if player_draws { 6 } else { 5 }
}

fn brute_force_winner(dealt: &[Card]) -> BruteForceWinner {
    let mut player = vec![dealt[0], dealt[2]];
    let mut banker = vec![dealt[1], dealt[3]];
    let player_initial_total = brute_force_total(&player);
    let banker_initial_total = brute_force_total(&banker);
    let natural = matches!(player_initial_total, 8 | 9) || matches!(banker_initial_total, 8 | 9);
    let player_draws = !natural && player_initial_total <= 5;
    let player_third_value = if player_draws {
        let third = dealt[4];
        player.push(third);
        Some(third.rank.baccarat_value())
    } else {
        None
    };
    if banker_draws(natural, banker_initial_total, player_third_value) {
        banker.push(dealt[if player_draws { 5 } else { 4 }]);
    }
    let player_total = brute_force_total(&player);
    let banker_total = brute_force_total(&banker);
    if player_total > banker_total {
        BruteForceWinner::Player
    } else if player_total < banker_total {
        BruteForceWinner::Banker
    } else {
        BruteForceWinner::Tie
    }
}

fn brute_force_total(cards: &[Card]) -> u8 {
    cards.iter().map(|card| card.rank.baccarat_value()).sum::<u8>() % 10
}

fn probability(numerator: u128, denominator: u128) -> f64 {
    numerator as f64 / denominator as f64
}

#[test]
fn pure_probability_api_requires_only_card_counts() {
    let result = calculate_exact_probabilities(&standard_cards()).expect("standard cards should calculate probabilities");

    assert_eq!(result.len(), public_probability_definitions().len());
    assert_probability_close(probability_of(&result, BetType::Player), STANDARD_8_DECK_PLAYER);
    assert!(probability_of(&result, BetType::Dragon7) > 0.0);
    assert_probability_close(
        probability_of(&result, BetType::BigLucky7),
        variant_probability(&result, BetType::Lucky7, BetVariant::Lucky7(Lucky7Variant::Three)),
    );
    assert_probability_close(
        probability_of(&result, BetType::SmallLucky7),
        variant_probability(&result, BetType::Lucky7, BetVariant::Lucky7(Lucky7Variant::Two)),
    );
}

#[test]
fn pure_probability_api_reports_standard_outcome_probabilities() {
    let result = calculate_exact_probabilities(&standard_cards()).expect("standard cards should calculate probabilities");

    assert_probability_close(probability_of(&result, BetType::Player), STANDARD_8_DECK_PLAYER);
    assert_probability_close(probability_of(&result, BetType::Banker), STANDARD_8_DECK_BANKER);
    assert_probability_close(probability_of(&result, BetType::Tie), STANDARD_8_DECK_TIE);
}

#[test]
fn standard_eight_deck_matches_every_source_project_probability() {
    let result =
        calculate_exact_probabilities(&standard_cards()).expect("standard card counts should calculate all public bet types");
    let expected_bet_types = SOURCE_STANDARD_8_DECK_BETS.iter().map(|expected| expected.0).collect::<HashSet<_>>();
    let actual_bet_types = result.iter().map(|actual| actual.bet_type).collect::<HashSet<_>>();
    let public_bet_types =
        public_probability_definitions().iter().map(|definition| definition.bet_type()).collect::<HashSet<_>>();

    assert_eq!(expected_bet_types.len(), SOURCE_STANDARD_8_DECK_BETS.len());
    assert_eq!(actual_bet_types, public_bet_types);

    let new_public_bet_types = new_public_bet_types();
    assert!(new_public_bet_types.is_disjoint(&expected_bet_types));
    assert_eq!(actual_bet_types.len(), expected_bet_types.len() + new_public_bet_types.len());
    assert_eq!(actual_bet_types.difference(&expected_bet_types).copied().collect::<HashSet<_>>(), new_public_bet_types);

    for (bet_type, expected) in SOURCE_STANDARD_8_DECK_BETS {
        assert_close(probability_of(&result, bet_type), expected, SOURCE_BASELINE_TOLERANCE);
    }

    assert_probability_close(
        probability_of(&result, BetType::BigLucky7),
        variant_probability(&result, BetType::Lucky7, BetVariant::Lucky7(Lucky7Variant::Three)),
    );
    assert_probability_close(
        probability_of(&result, BetType::SmallLucky7),
        variant_probability(&result, BetType::Lucky7, BetVariant::Lucky7(Lucky7Variant::Two)),
    );
}

#[test]
fn standard_eight_deck_matches_every_source_project_variant_probability() {
    let result = calculate_exact_probabilities(&standard_cards())
        .expect("standard card counts should calculate all public bet variants");
    let actual_variant_count = result.iter().map(|bet| bet.variants.len()).sum::<usize>();

    assert_eq!(actual_variant_count, SOURCE_STANDARD_8_DECK_VARIANTS.len());
    for (bet_type, variant, expected) in SOURCE_STANDARD_8_DECK_VARIANTS {
        let duplicate_count = SOURCE_STANDARD_8_DECK_VARIANTS
            .iter()
            .filter(|candidate| candidate.0 == bet_type && candidate.1 == variant)
            .count();
        assert_eq!(duplicate_count, 1);

        let actual = variant_probability(&result, bet_type, variant);
        assert_close(actual, expected, SOURCE_BASELINE_TOLERANCE);
    }
}

#[test]
fn fixture_rank_probabilities_match_golden_values() {
    for fixture in [STANDARD_8_DECK_FIXTURE, DEPLETED_SHOE_FIXTURE] {
        let cards = fixture_cards(&fixture.ranks);
        let result = calculate_exact_probabilities(&cards)
            .unwrap_or_else(|error| panic!("{} should calculate: {error:?}", fixture.name));

        for (bet_type, expected) in fixture.expected_bets {
            assert_probability_close(probability_of(&result, bet_type), expected);
        }
    }
}

#[test]
fn card_input_enables_suit_dependent_bets() {
    let result =
        calculate_exact_probabilities(&standard_cards()).expect("card counts should calculate suit-dependent bet types");

    assert!(probability_of(&result, BetType::PerfectPair) > 0.0);
}

#[test]
fn card_input_returns_all_registered_bets() {
    let result =
        calculate_exact_probabilities(&standard_cards()).expect("card input should calculate every public bet type");

    assert_eq!(result.len(), public_probability_definitions().len());
    assert!(result.iter().any(|bet| bet.bet_type == BetType::PerfectPair));
}

#[test]
fn probability_output_reports_each_public_bet_type_once() {
    let result =
        calculate_exact_probabilities(&standard_cards()).expect("standard card counts should calculate public bet types");

    for definition in public_probability_definitions() {
        assert!(
            result.iter().any(|bet| bet.bet_type == definition.bet_type()),
            "missing public probability for {:?}",
            definition.bet_type()
        );
    }

    let mut seen = HashSet::new();
    for bet in &result {
        assert!(seen.insert(bet.bet_type), "duplicate bet type {:?}", bet.bet_type);
    }
}

#[test]
fn probability_output_preserves_public_registry_order() {
    let result =
        calculate_exact_probabilities(&standard_cards()).expect("standard card counts should calculate public bet types");

    let expected = public_probability_definitions().iter().map(|definition| definition.bet_type()).collect::<Vec<_>>();
    let actual = result.iter().map(|bet| bet.bet_type).collect::<Vec<_>>();

    assert_eq!(actual, expected);
}

#[test]
fn probability_output_includes_concrete_variant_probabilities() {
    let result = calculate_exact_probabilities(&standard_cards())
        .expect("standard card counts should calculate public bet variants");

    assert!(result_by_bet_type(&result, BetType::Player).variants.is_empty());

    let in_unit = |p: ProbabilityRatio| (0.0..=1.0).contains(&as_f64(p));
    assert!(result_by_bet_type(&result, BetType::BankerDragon)
        .variants
        .iter()
        .any(|v| v.variant == BetVariant::Dragon(DragonVariant::Natural) && in_unit(v.probability)));
    assert!(result_by_bet_type(&result, BetType::Lucky6)
        .variants
        .iter()
        .any(|v| v.variant == BetVariant::Lucky6(Lucky6Variant::Two) && in_unit(v.probability)));
    assert!(result_by_bet_type(&result, BetType::Tiger)
        .variants
        .iter()
        .any(|v| v.variant == BetVariant::Tiger(TigerVariant::Two) && in_unit(v.probability)));
}

#[test]
fn fortune4_pair_uses_diamonds_not_spades_for_fortune30() {
    let cards = vec![
        CardCount { card: Card { suit: CardSuit::Diamonds, rank: CardRank::Four }, count: 2 },
        CardCount { card: Card { suit: CardSuit::Spades, rank: CardRank::Four }, count: 0 },
        CardCount { card: Card { suit: CardSuit::Clubs, rank: CardRank::Ace }, count: 4 },
    ];
    let result =
        calculate_exact_probabilities(&cards).expect("non-uniform suit shoe should calculate Fortune4Pair probabilities");

    assert_close(
        variant_probability(&result, BetType::BankerFortune4Pair, BetVariant::Fortune4Pair(Fortune4PairVariant::Fortune30)),
        2.0 / 30.0,
        1e-12,
    );
    assert_close(
        variant_probability(&result, BetType::BankerFortune4Pair, BetVariant::Fortune4Pair(Fortune4PairVariant::Fortune15)),
        0.0,
        1e-12,
    );
}

#[test]
fn probability_output_reports_monkey_outcome_contract() {
    let result =
        calculate_exact_probabilities(&standard_cards()).expect("standard card counts should calculate public bet types");
    let monkey = result_by_bet_type(&result, BetType::Monkey);

    assert!(monkey.variants.is_empty());
    assert_eq!(monkey.outcomes.len(), 2);

    let monkey_probability = outcome_probability(&result, BetType::Monkey, BetOutcome::Monkey);
    let no_monkey_probability = outcome_probability(&result, BetType::Monkey, BetOutcome::NoMonkey);

    assert!(monkey_probability > 0.0);
    assert!(no_monkey_probability > 0.0);
    assert_probability_close(as_f64(monkey.probability), monkey_probability + no_monkey_probability);
}

#[test]
fn probability_output_reports_perfect_pair_exclusive_outcome_contract() {
    let result =
        calculate_exact_probabilities(&standard_cards()).expect("standard card counts should calculate public bet types");
    let perfect_pair = result_by_bet_type(&result, BetType::PerfectPair);

    assert!(perfect_pair.variants.is_empty());
    assert_eq!(perfect_pair.outcomes.len(), 2);

    let single_side_probability = outcome_probability(&result, BetType::PerfectPair, BetOutcome::PerfectPairSingleSide);
    let both_sides_probability = outcome_probability(&result, BetType::PerfectPair, BetOutcome::PerfectPairBothSides);

    assert!(single_side_probability > 0.0);
    assert!(both_sides_probability > 0.0);
    assert_probability_close(as_f64(perfect_pair.probability), single_side_probability + both_sides_probability);
}

#[test]
fn probability_output_reports_super_tie_0_to_9_without_aggregate_row() {
    let result =
        calculate_exact_probabilities(&standard_cards()).expect("standard card counts should calculate public bet types");
    let expected_super_ties = [
        BetType::SuperTie0,
        BetType::SuperTie1,
        BetType::SuperTie2,
        BetType::SuperTie3,
        BetType::SuperTie4,
        BetType::SuperTie5,
        BetType::SuperTie6,
        BetType::SuperTie7,
        BetType::SuperTie8,
        BetType::SuperTie9,
    ];
    let super_tie_rows =
        result.iter().filter(|bet| format!("{:?}", bet.bet_type).starts_with("SuperTie")).collect::<Vec<_>>();

    assert_eq!(super_tie_rows.len(), expected_super_ties.len());

    let super_tie_total = expected_super_ties
        .into_iter()
        .map(|bet_type| {
            let row = result_by_bet_type(&result, bet_type);
            assert!(as_f64(row.probability) > 0.0, "{bet_type:?} should have probability");
            assert!(row.variants.is_empty(), "{bet_type:?} should not expose variants");
            assert!(row.outcomes.is_empty(), "{bet_type:?} should not expose outcomes");
            as_f64(row.probability)
        })
        .sum::<f64>();

    assert_probability_close(super_tie_total, probability_of(&result, BetType::Tie));
}

#[test]
fn invalid_card_count_returns_fail_closed_error() {
    let invalid_cards = [CardCount {
        card: Card { suit: CardSuit::Clubs, rank: CardRank::Ace },
        count: u32::from(STANDARD_DECK_COUNT) + 1,
    }];
    let error = calculate_exact_probabilities(&invalid_cards).unwrap_err();
    assert_eq!(
        error,
        CalculatorError::CardCountExceedsMaximum(Card { suit: CardSuit::Clubs, rank: CardRank::Ace }, 9)
    );
}

#[test]
fn standard_outcome_probabilities_sum_to_one() {
    let result = calculate_exact_probabilities(&standard_cards()).expect("public probability API should calculate");

    let total = [BetType::Player, BetType::Banker, BetType::Tie]
        .into_iter()
        .map(|bet_type| probability_of(&result, bet_type))
        .sum::<f64>();
    assert_close(total, 1.0, PROBABILITY_SUM_ABS_TOLERANCE);
}

#[test]
fn standard_outcome_numerators_add_up_to_the_deal_count() {
    let result = calculate_exact_probabilities(&standard_cards()).expect("public probability API should calculate");
    let player = result_by_bet_type(&result, BetType::Player).probability;
    let banker = result_by_bet_type(&result, BetType::Banker).probability;
    let tie = result_by_bet_type(&result, BetType::Tie).probability;
    let deals: u128 = 416 * 415 * 414 * 413 * 412 * 411;
    assert_eq!(player.denominator, deals);
    assert_eq!(banker.denominator, deals);
    assert_eq!(tie.denominator, deals);
    assert_eq!(player.numerator + banker.numerator + tie.numerator, deals);
}

#[test]
fn small_shoe_main_probabilities_match_independent_bruteforce_oracle() {
    let cards = vec![
        CardCount { card: card(CardSuit::Clubs, CardRank::Ten), count: 1 },
        CardCount { card: card(CardSuit::Clubs, CardRank::Ace), count: 1 },
        CardCount { card: card(CardSuit::Clubs, CardRank::Two), count: 1 },
        CardCount { card: card(CardSuit::Clubs, CardRank::Three), count: 1 },
        CardCount { card: card(CardSuit::Clubs, CardRank::Four), count: 1 },
        CardCount { card: card(CardSuit::Clubs, CardRank::Five), count: 1 },
    ];
    let (expected_player, expected_banker, expected_tie) = brute_force_main_probabilities(&cards);
    let result = calculate_exact_probabilities(&cards).expect("small shoe should calculate main bet probabilities");

    assert_close(probability_of(&result, BetType::Player), expected_player, 1e-12);
    assert_close(probability_of(&result, BetType::Banker), expected_banker, 1e-12);
    assert_close(probability_of(&result, BetType::Tie), expected_tie, 1e-12);
}

#[test]
fn small_shoe_perfect_pair_outcomes_match_independent_bruteforce_oracle() {
    let cards = vec![
        CardCount { card: card(CardSuit::Clubs, CardRank::Ace), count: 2 },
        CardCount { card: card(CardSuit::Diamonds, CardRank::Two), count: 2 },
        CardCount { card: card(CardSuit::Hearts, CardRank::Three), count: 1 },
        CardCount { card: card(CardSuit::Spades, CardRank::Four), count: 1 },
    ];
    let expected = brute_force_opening_outcomes(&cards);
    let result = calculate_exact_probabilities(&cards).expect("small shoe should calculate PerfectPair outcome probabilities");

    assert_close(
        outcome_probability(&result, BetType::PerfectPair, BetOutcome::PerfectPairSingleSide),
        probability(expected.perfect_pair_single_side, expected.total),
        1e-12,
    );
    assert_close(
        outcome_probability(&result, BetType::PerfectPair, BetOutcome::PerfectPairBothSides),
        probability(expected.perfect_pair_both_sides, expected.total),
        1e-12,
    );
}

#[test]
fn small_shoe_monkey_outcomes_match_independent_bruteforce_oracle() {
    let cards = vec![
        CardCount { card: card(CardSuit::Clubs, CardRank::Jack), count: 1 },
        CardCount { card: card(CardSuit::Diamonds, CardRank::Queen), count: 1 },
        CardCount { card: card(CardSuit::Hearts, CardRank::King), count: 1 },
        CardCount { card: card(CardSuit::Spades, CardRank::Jack), count: 1 },
        CardCount { card: card(CardSuit::Clubs, CardRank::Ace), count: 1 },
        CardCount { card: card(CardSuit::Diamonds, CardRank::Two), count: 1 },
    ];
    let expected = brute_force_opening_outcomes(&cards);
    let result = calculate_exact_probabilities(&cards).expect("small shoe should calculate Monkey outcome probabilities");

    assert_close(
        outcome_probability(&result, BetType::Monkey, BetOutcome::Monkey),
        probability(expected.monkey, expected.total),
        1e-12,
    );
    assert_close(
        outcome_probability(&result, BetType::Monkey, BetOutcome::NoMonkey),
        probability(expected.no_monkey, expected.total),
        1e-12,
    );
}

#[test]
fn too_few_cards_and_empty_input_are_refused() {
    assert_eq!(calculate_exact_probabilities(&[]).unwrap_err(), CalculatorError::EmptyCards);
    let five = vec![CardCount { card: card(CardSuit::Clubs, CardRank::Ace), count: 5 }];
    assert_eq!(calculate_exact_probabilities(&five).unwrap_err(), CalculatorError::InsufficientCards(5));
    let duplicate = vec![
        CardCount { card: card(CardSuit::Clubs, CardRank::Ace), count: 5 },
        CardCount { card: card(CardSuit::Clubs, CardRank::Ace), count: 3 },
    ];
    assert_eq!(
        calculate_exact_probabilities(&duplicate).unwrap_err(),
        CalculatorError::DuplicateCard(card(CardSuit::Clubs, CardRank::Ace))
    );
}

#[test]
fn the_smallest_playable_shoe_gets_every_public_row() {
    let six = vec![
        CardCount { card: card(CardSuit::Clubs, CardRank::Ace), count: 2 },
        CardCount { card: card(CardSuit::Hearts, CardRank::Nine), count: 2 },
        CardCount { card: card(CardSuit::Spades, CardRank::King), count: 2 },
    ];
    let rows = calculate_exact_probabilities(&six).expect("six cards complete a hand");
    let public = public_probability_definitions();
    assert_eq!(rows.len(), public.len());
    for (row, definition) in rows.iter().zip(public.iter()) {
        assert_eq!(row.bet_type, definition.bet_type());
    }
}

#[test]
fn tiger_pair_family_adds_overlapping_variants() {
    let one_card = vec![CardCount { card: card(CardSuit::Clubs, CardRank::Ace), count: 6 }];
    let rows = calculate_exact_probabilities(&one_card).expect("six cards complete a hand");
    let tiger = rows.iter().find(|row| row.bet_type == BetType::TigerPair).expect("tiger pair row");
    assert_eq!(tiger.probability.numerator, 2 * tiger.probability.denominator);
    let any_pair = rows.iter().find(|row| row.bet_type == BetType::AnyPair).expect("any pair row");
    assert_eq!(any_pair.probability.numerator, any_pair.probability.denominator);
}

#[test]
fn every_row_but_the_tiger_pair_family_is_at_most_one() {
    let small = vec![
        CardCount { card: card(CardSuit::Diamonds, CardRank::Four), count: 3 },
        CardCount { card: card(CardSuit::Clubs, CardRank::Four), count: 2 },
        CardCount { card: card(CardSuit::Hearts, CardRank::King), count: 2 },
        CardCount { card: card(CardSuit::Spades, CardRank::Seven), count: 1 },
    ];
    for cards in [standard_eight_deck_cards(), small] {
        let rows = calculate_exact_probabilities(&cards).expect("shoe should calculate");
        for row in rows.iter().filter(|row| row.bet_type != BetType::TigerPair) {
            assert!(row.probability.numerator <= row.probability.denominator, "{:?}", row.bet_type);
            for variant in &row.variants {
                assert!(variant.probability.numerator <= variant.probability.denominator, "{:?}", variant.variant);
            }
        }
    }
}

#[test]
fn rank_labels_round_trip_and_accept_names() {
    for (label, rank) in [
        ("A", CardRank::Ace),
        ("2", CardRank::Two),
        ("10", CardRank::Ten),
        ("J", CardRank::Jack),
        ("Q", CardRank::Queen),
        ("K", CardRank::King),
    ] {
        assert_eq!(rank.label(), label);
        assert_eq!(CardRank::from_label(label), Some(rank));
    }
    assert_eq!(CardRank::from_label("  ace "), Some(CardRank::Ace));
    assert_eq!(CardRank::from_label("t"), Some(CardRank::Ten));
    assert_eq!(CardRank::from_label("Queen\n"), Some(CardRank::Queen));
    assert_eq!(CardRank::from_label("eleven"), None);
    assert_eq!(CardRank::from_label(""), None);
}
