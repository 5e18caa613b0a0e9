//! Finished baccarat hands and the bets they win.
use vstd::prelude::*;

use crate::bet_registry::{BetDefinition, BetId};
use crate::standard_baccarat::{
    banker_draws_third_card, is_natural_total, player_draws_third_card, spec_banker_draws,
    spec_is_natural, spec_player_draws,
};

verus! {

/// Which side wins a finished hand.
#[derive(Clone, Copy, Debug, PartialEq, Eq, Structural)]
pub enum TerminalWinner {
    Player,
    Banker,
    Tie,
}

/// A finished hand: final totals, hand lengths, whether either opening hand
/// was a natural, the winner, the winning margin and the number of cards dealt.
#[derive(Clone, Copy, Debug, PartialEq, Eq, Structural)]
pub struct TerminalOutcome {
    pub player_total: u8,
    pub banker_total: u8,
    pub player_len: u8,
    pub banker_len: u8,
    pub natural: bool,
    pub winner: TerminalWinner,
    pub margin: u8,
    pub total_card_count: u8,
}

/// The finished hand with the given totals (taken mod 10) and lengths.
pub open spec fn spec_from_totals(pt: int, bt: int, pl: int, bl: int, natural: bool) -> TerminalOutcome {
    let p = pt % 10;
    let b = bt % 10;
    TerminalOutcome {
        player_total: p as u8,
        banker_total: b as u8,
        player_len: pl as u8,
        banker_len: bl as u8,
        natural,
        winner: if p > b {
            TerminalWinner::Player
        } else if p < b {
            TerminalWinner::Banker
        } else {
            TerminalWinner::Tie
        },
        margin: (if p > b {
            p - b
        } else if p < b {
            b - p
        } else {
            0
        }) as u8,
        total_card_count: (pl + bl) as u8,
    }
}

impl TerminalOutcome {
    pub fn from_totals(player_total: u8, banker_total: u8, player_len: u8, banker_len: u8, natural: bool) -> (r:
        TerminalOutcome)
        requires
            player_len + banker_len <= 255,
        ensures
            r == spec_from_totals(
                player_total as int,
                banker_total as int,
                player_len as int,
                banker_len as int,
                natural,
            ),
    {
        let player_total = player_total % 10;
        let banker_total = banker_total % 10;
        let (winner, margin) = if player_total > banker_total {
            (TerminalWinner::Player, player_total - banker_total)
        } else if player_total < banker_total {
            (TerminalWinner::Banker, banker_total - player_total)
        } else {
            (TerminalWinner::Tie, 0)
        };
        TerminalOutcome {
            player_total,
            banker_total,
            player_len,
            banker_len,
            natural,
            winner,
            margin,
            total_card_count: player_len + banker_len,
        }
    }
}

/// The finished hand of bucket `k` (see the bucket layout of the
/// enumeration: player total, banker total, player length, banker length,
/// natural flag, from most to least significant).
pub open spec fn bucket_outcome(k: int) -> TerminalOutcome {
    spec_from_totals(k / 80, (k / 8) % 10, (k / 4) % 2 + 2, (k / 2) % 2 + 2, k % 2 == 1)
}

/// Decodes a bucket index into its finished hand.
pub fn terminal_outcome_from_index(index: usize) -> (r: TerminalOutcome)
    requires
        index < 800,
    ensures
        r == bucket_outcome(index as int),
{
    let natural = index % 2 == 1;
    let i = index / 2;
    let banker_len = (i % 2) as u8 + 2;
    let i = i / 2;
    let player_len = (i % 2) as u8 + 2;
    let i = i / 2;
    let banker_total = (i % 10) as u8;
    let player_total = (i / 10) as u8;
    proof {
        assert(index / 2 / 2 == index / 4);
        assert(index / 4 / 2 == index / 8);
        assert(index / 8 / 10 == index / 80);
    }
    TerminalOutcome::from_totals(player_total, banker_total, player_len, banker_len, natural)
}

/// The finished hand once the opening totals are known: third cards are
/// read from `points` at positions 4 and 5 as the drawing rules call for them.
pub open spec fn spec_outcome_after_opening(pt: int, bt: int, natural: bool, points: Seq<u8>) -> Option<
    TerminalOutcome,
> {
    if spec_player_draws(pt, natural) {
        if points.len() < 5 {
            None
        } else {
            let p3 = (points[4] % 10) as int;
            if spec_banker_draws(bt, Some(p3), natural) {
                if points.len() < 6 {
                    None
                } else {
                    Some(spec_from_totals((pt + p3) % 10, (bt + points[5] % 10) % 10, 3, 3, natural))
                }
            } else {
                Some(spec_from_totals((pt + p3) % 10, bt, 3, 2, natural))
            }
        }
    } else if spec_banker_draws(bt, None, natural) {
        if points.len() < 5 {
            None
        } else {
            Some(spec_from_totals(pt, (bt + points[4] % 10) % 10, 2, 3, natural))
        }
    } else {
        Some(spec_from_totals(pt, bt, 2, 2, natural))
    }
}

/// The finished hand of an ordered deal of point values (player, banker,
/// player, banker, then third cards as the rules call for them), when enough
/// points are supplied.
pub open spec fn spec_outcome_from_points(points: Seq<u8>) -> Option<TerminalOutcome> {
    if points.len() < 4 {
        None
    } else {
        let pt = (points[0] + points[2]) % 10;
        let bt = (points[1] + points[3]) % 10;
        spec_outcome_after_opening(pt, bt, spec_is_natural(pt) || spec_is_natural(bt), points)
    }
}

/// With opening totals `p0` and `b0` and third-card values at positions 4
/// and 5, the hand finishes: a natural (an opening 8 or 9) ends it at two
/// cards each; otherwise the player takes a third card exactly on 0 to 5,
/// the banker then follows the tableau (on 0 to 5 when the player stood),
/// and each side's total is the sum of its cards modulo ten.
#[verifier::spinoff_prover]
#[verifier::rlimit(40)]
pub proof fn lemma_after_opening_deals(p0: int, b0: int, natural: bool, points: Seq<u8>)
    requires
        0 <= p0 < 10,
        0 <= b0 < 10,
        natural == (p0 >= 8 || b0 >= 8),
        points.len() == 6,
        points[4] < 10,
        points[5] < 10,
    ensures
        spec_outcome_after_opening(p0, b0, natural, points) is Some,
        ({
            let o = spec_outcome_after_opening(p0, b0, natural, points)->Some_0;
            &&& o.natural == natural
            &&& natural ==> o.player_len == 2 && o.banker_len == 2
            &&& !natural ==> (o.player_len == 3 <==> p0 <= 5)
            &&& !natural && o.player_len == 2 ==> (o.banker_len == 3 <==> b0 <= 5)
            &&& !natural && o.player_len == 3 ==> (o.banker_len == 3 <==> spec_banker_draws(
                b0,
                Some(points[4] as int),
                false,
            ))
            &&& 2 <= o.player_len <= 3 && 2 <= o.banker_len <= 3
            &&& o.player_total == (if o.player_len == 3 {
                (p0 + points[4]) % 10
            } else {
                p0
            })
            &&& o.banker_total == (if o.banker_len == 3 {
                (b0 + (if o.player_len == 3 {
                    points[5] as int
                } else {
                    points[4] as int
                })) % 10
            } else {
                b0
            })
            &&& o.total_card_count == o.player_len + o.banker_len
        }),
{
    let c4 = points[4] as int;
    let c5 = points[5] as int;
    assert(points[4] % 10 == c4);
    assert(points[5] % 10 == c5);
    if spec_player_draws(p0, natural) {
        if spec_banker_draws(b0, Some(c4), natural) {
            let o = spec_from_totals((p0 + c4) % 10, (b0 + c5) % 10, 3, 3, natural);
            assert(o.player_total == (p0 + c4) % 10 && o.banker_total == (b0 + c5) % 10);
            assert(o.player_len == 3 && o.banker_len == 3 && o.total_card_count == 6 && o.natural == natural);
            assert(spec_outcome_after_opening(p0, b0, natural, points) == Some(o));
        } else {
            let o = spec_from_totals((p0 + c4) % 10, b0, 3, 2, natural);
            assert(o.player_total == (p0 + c4) % 10 && o.banker_total == b0);
            assert(o.player_len == 3 && o.banker_len == 2 && o.total_card_count == 5 && o.natural == natural);
            assert(spec_outcome_after_opening(p0, b0, natural, points) == Some(o));
        }
    } else if spec_banker_draws(b0, None, natural) {
        let o = spec_from_totals(p0, (b0 + c4) % 10, 2, 3, natural);
        assert(o.player_total == p0 && o.banker_total == (b0 + c4) % 10);
        assert(o.player_len == 2 && o.banker_len == 3 && o.total_card_count == 5 && o.natural == natural);
        assert(spec_outcome_after_opening(p0, b0, natural, points) == Some(o));
    } else {
        let o = spec_from_totals(p0, b0, 2, 2, natural);
        assert(o.player_total == p0 && o.banker_total == b0);
        assert(o.player_len == 2 && o.banker_len == 2 && o.total_card_count == 4 && o.natural == natural);
        assert(spec_outcome_after_opening(p0, b0, natural, points) == Some(o));
    }
}

/// A deal of point values (player, banker, player, banker, then third
/// cards) finishes from its opening totals, the sums of each side's first
/// two cards modulo ten, with a natural exactly when either is 8 or 9.
pub proof fn lemma_outcome_from_points_opening(points: Seq<u8>)
    requires
        points.len() >= 4,
    ensures
        spec_outcome_from_points(points) == spec_outcome_after_opening(
            (points[0] + points[2]) % 10,
            (points[1] + points[3]) % 10,
            (points[0] + points[2]) % 10 >= 8 || (points[1] + points[3]) % 10 >= 8,
            points,
        ),
{
}

fn outcome_after_opening(player_total: u8, banker_total: u8, natural: bool, points: &[u8]) -> (r: Option<
    TerminalOutcome,
>)
    requires
        player_total < 10,
        banker_total < 10,
    ensures
        r == spec_outcome_after_opening(player_total as int, banker_total as int, natural, points@),
{
    if player_draws_third_card(player_total, natural) {
        if points.len() < 5 {
            return None;
        }
        let player_third = points[4] % 10;
        let player_final = (player_total + player_third) % 10;
        if banker_draws_third_card(banker_total, Some(player_third), natural) {
            if points.len() < 6 {
                return None;
            }
            let banker_third = points[5] % 10;
            Some(TerminalOutcome::from_totals(player_final, (banker_total + banker_third) % 10, 3, 3, natural))
        } else {
            Some(TerminalOutcome::from_totals(player_final, banker_total, 3, 2, natural))
        }
    } else if banker_draws_third_card(banker_total, None, natural) {
        if points.len() < 5 {
            return None;
        }
        let banker_third = points[4] % 10;
        Some(TerminalOutcome::from_totals(player_total, (banker_total + banker_third) % 10, 2, 3, natural))
    } else {
        Some(TerminalOutcome::from_totals(player_total, banker_total, 2, 2, natural))
    }
}

/// Plays out one ordered deal of point values by the standard drawing rules.
pub fn terminal_outcome_from_ordered_points(points: &[u8]) -> (r: Option<TerminalOutcome>)
    requires
        points@.len() >= 4 ==> points@[0] + points@[2] <= 255 && points@[1] + points@[3] <= 255,
    ensures
        r == spec_outcome_from_points(points@),
{
    if points.len() < 4 {
        return None;
    }
    let player_total = (points[0] + points[2]) % 10;
    let banker_total = (points[1] + points[3]) % 10;
    let natural = is_natural_total(player_total) || is_natural_total(banker_total);
    outcome_after_opening(player_total, banker_total, natural, points)
}

pub open spec fn spec_dragon_natural(o: TerminalOutcome, w: TerminalWinner) -> bool {
    o.natural && o.winner == w
}

fn dragon_natural(o: TerminalOutcome, w: TerminalWinner) -> (r: bool)
    ensures
        r == spec_dragon_natural(o, w),
{
    o.natural && o.winner == w
}

pub open spec fn spec_dragon_point(o: TerminalOutcome, w: TerminalWinner, margin: u8) -> bool {
    !o.natural && o.winner == w && o.margin == margin
}

fn dragon_point(o: TerminalOutcome, w: TerminalWinner, margin: u8) -> (r: bool)
    ensures
        r == spec_dragon_point(o, w, margin),
{
    !o.natural && o.winner == w && o.margin == margin
}

pub open spec fn spec_dragon_push(o: TerminalOutcome) -> bool {
    o.natural && o.winner == TerminalWinner::Tie
}

fn dragon_push(o: TerminalOutcome) -> (r: bool)
    ensures
        r == spec_dragon_push(o),
{
    o.natural && o.winner == TerminalWinner::Tie
}

pub open spec fn spec_natural_win(o: TerminalOutcome, w: TerminalWinner) -> bool {
    o.natural && o.winner == w
}

fn natural_win(o: TerminalOutcome, w: TerminalWinner) -> (r: bool)
    ensures
        r == spec_natural_win(o, w),
{
    o.natural && o.winner == w
}

pub open spec fn spec_banker_six_win(o: TerminalOutcome, banker_len: u8) -> bool {
    o.banker_total == 6 && o.banker_len == banker_len && o.winner == TerminalWinner::Banker
}

fn banker_six_win(o: TerminalOutcome, banker_len: u8) -> (r: bool)
    ensures
        r == spec_banker_six_win(o, banker_len),
{
    o.banker_total == 6 && o.banker_len == banker_len && o.winner == TerminalWinner::Banker
}

pub open spec fn spec_invincible_six(o: TerminalOutcome) -> bool {
    (o.player_total == 6 && o.winner == TerminalWinner::Player) || (o.banker_total == 6 && o.winner
        == TerminalWinner::Banker) || (o.player_total == 6 && o.banker_total == 6)
}

fn invincible_six(o: TerminalOutcome) -> (r: bool)
    ensures
        r == spec_invincible_six(o),
{
    (o.player_total == 6 && o.winner == TerminalWinner::Player) || (o.banker_total == 6 && o.winner
        == TerminalWinner::Banker) || (o.player_total == 6 && o.banker_total == 6)
}

pub open spec fn spec_char_siu(o: TerminalOutcome, w: TerminalWinner, total_cards: u8) -> bool {
    match w {
        TerminalWinner::Tie => false,
        _ => {
            let winning_total = if w == TerminalWinner::Player {
                o.player_total
            } else {
                o.banker_total
            };
            o.winner == w && 7 <= winning_total <= 9 && o.margin == 1 && o.total_card_count == total_cards
        },
    }
}

fn char_siu(o: TerminalOutcome, w: TerminalWinner, total_cards: u8) -> (r: bool)
    ensures
        r == spec_char_siu(o, w, total_cards),
{
    let winning_total = match w {
        TerminalWinner::Player => o.player_total,
        TerminalWinner::Banker => o.banker_total,
        TerminalWinner::Tie => return false,
    };
    o.winner == w && 7 <= winning_total && winning_total <= 9 && o.margin == 1 && o.total_card_count
        == total_cards
}

pub open spec fn spec_player_seven_win(o: TerminalOutcome, player_len: u8) -> bool {
    o.player_total == 7 && o.player_len == player_len && o.winner == TerminalWinner::Player
}

fn player_seven_win(o: TerminalOutcome, player_len: u8) -> (r: bool)
    ensures
        r == spec_player_seven_win(o, player_len),
{
    o.player_total == 7 && o.player_len == player_len && o.winner == TerminalWinner::Player
}

pub open spec fn spec_super_lucky_seven(o: TerminalOutcome, total_cards: u8) -> bool {
    o.player_total == 7 && o.banker_total == 6 && o.total_card_count == total_cards && o.winner
        == TerminalWinner::Player
}

fn super_lucky_seven(o: TerminalOutcome, total_cards: u8) -> (r: bool)
    ensures
        r == spec_super_lucky_seven(o, total_cards),
{
    o.player_total == 7 && o.banker_total == 6 && o.total_card_count == total_cards && o.winner
        == TerminalWinner::Player
}

pub open spec fn spec_flame_sevens(o: TerminalOutcome, hand_len: u8) -> bool {
    o.player_total == 7 && o.banker_total == 7 && o.player_len == hand_len && o.banker_len == hand_len
}

fn flame_sevens(o: TerminalOutcome, hand_len: u8) -> (r: bool)
    ensures
        r == spec_flame_sevens(o, hand_len),
{
    o.player_total == 7 && o.banker_total == 7 && o.player_len == hand_len && o.banker_len == hand_len
}

pub open spec fn spec_heaven_nine_both(o: TerminalOutcome) -> bool {
    o.player_total == 9 && o.banker_total == 9 && o.player_len == 3 && o.banker_len == 3
}

fn heaven_nine_both(o: TerminalOutcome) -> (r: bool)
    ensures
        r == spec_heaven_nine_both(o),
{
    o.player_total == 9 && o.banker_total == 9 && o.player_len == 3 && o.banker_len == 3
}

pub open spec fn spec_heaven_nine_single(o: TerminalOutcome) -> bool {
    ((o.player_total == 9 && o.player_len == 3) || (o.banker_total == 9 && o.banker_len == 3))
        && !spec_heaven_nine_both(o)
}

fn heaven_nine_single(o: TerminalOutcome) -> (r: bool)
    ensures
        r == spec_heaven_nine_single(o),
{
    ((o.player_total == 9 && o.player_len == 3) || (o.banker_total == 9 && o.banker_len == 3))
        && !heaven_nine_both(o)
}

pub open spec fn spec_super_tie(o: TerminalOutcome, total: u8) -> bool {
    o.player_total == total && o.banker_total == total && o.winner == TerminalWinner::Tie
}

fn super_tie(o: TerminalOutcome, total: u8) -> (r: bool)
    ensures
        r == spec_super_tie(o, total),
{
    o.player_total == total && o.banker_total == total && o.winner == TerminalWinner::Tie
}

pub open spec fn spec_terminal_predicate(id: BetId, o: TerminalOutcome) -> bool {
    match id {
        BetId::Player => o.winner == TerminalWinner::Player,
        BetId::Banker => o.winner == TerminalWinner::Banker,
        BetId::Tie => o.winner == TerminalWinner::Tie,
        BetId::PlayerDragonNatural => spec_dragon_natural(o, TerminalWinner::Player),
        BetId::PlayerDragonPoint4 => spec_dragon_point(o, TerminalWinner::Player, 4),
        BetId::PlayerDragonPoint5 => spec_dragon_point(o, TerminalWinner::Player, 5),
        BetId::PlayerDragonPoint6 => spec_dragon_point(o, TerminalWinner::Player, 6),
        BetId::PlayerDragonPoint7 => spec_dragon_point(o, TerminalWinner::Player, 7),
        BetId::PlayerDragonPoint8 => spec_dragon_point(o, TerminalWinner::Player, 8),
        BetId::PlayerDragonPoint9 => spec_dragon_point(o, TerminalWinner::Player, 9),
        BetId::PlayerDragonPush => spec_dragon_push(o),
        BetId::BankerDragonNatural => spec_dragon_natural(o, TerminalWinner::Banker),
        BetId::BankerDragonPoint4 => spec_dragon_point(o, TerminalWinner::Banker, 4),
        BetId::BankerDragonPoint5 => spec_dragon_point(o, TerminalWinner::Banker, 5),
        BetId::BankerDragonPoint6 => spec_dragon_point(o, TerminalWinner::Banker, 6),
        BetId::BankerDragonPoint7 => spec_dragon_point(o, TerminalWinner::Banker, 7),
        BetId::BankerDragonPoint8 => spec_dragon_point(o, TerminalWinner::Banker, 8),
        BetId::BankerDragonPoint9 => spec_dragon_point(o, TerminalWinner::Banker, 9),
        BetId::BankerDragonPush => spec_dragon_push(o),
        BetId::BankerNaturalWin => spec_natural_win(o, TerminalWinner::Banker),
        BetId::BankerNaturalPush => spec_dragon_push(o),
        BetId::PlayerNaturalWin => spec_natural_win(o, TerminalWinner::Player),
        BetId::PlayerNaturalPush => spec_dragon_push(o),
        BetId::Lucky6Two | BetId::TigerTwo | BetId::SmallTiger => spec_banker_six_win(o, 2),
        BetId::Lucky6Three | BetId::TigerThree | BetId::BigTiger => spec_banker_six_win(o, 3),
        BetId::TigerTie => o.player_total == 6 && o.banker_total == 6,
        BetId::Banker4Fortune => o.banker_total == 4 && o.winner == TerminalWinner::Banker,
        BetId::Player4Fortune => o.player_total == 4 && o.winner == TerminalWinner::Player,
        BetId::Invincible6 => spec_invincible_six(o),
        BetId::Big => o.total_card_count > 4,
        BetId::Small => o.total_card_count == 4,
        BetId::BankerCharSiuPoint4 => spec_char_siu(o, TerminalWinner::Banker, 4),
        BetId::BankerCharSiuPoint5 => spec_char_siu(o, TerminalWinner::Banker, 5),
        BetId::BankerCharSiuPoint6 => spec_char_siu(o, TerminalWinner::Banker, 6),
        BetId::PlayerCharSiuPoint4 => spec_char_siu(o, TerminalWinner::Player, 4),
        BetId::PlayerCharSiuPoint5 => spec_char_siu(o, TerminalWinner::Player, 5),
        BetId::PlayerCharSiuPoint6 => spec_char_siu(o, TerminalWinner::Player, 6),
        BetId::SmallBull => o.player_total == 6 && o.player_len == 2 && o.winner == TerminalWinner::Player,
        BetId::BigBull => o.player_total == 6 && o.player_len == 3 && o.winner == TerminalWinner::Player,
        BetId::TigerBull => (o.player_total == 6 && o.winner == TerminalWinner::Player) || (o.banker_total == 6 && o.winner == TerminalWinner::Banker),
        BetId::WuDaLang => o.player_total == 1 && o.winner == TerminalWinner::Player,
        BetId::Dragon7 => o.banker_total == 7 && o.banker_len == 3 && o.winner == TerminalWinner::Banker,
        BetId::Panda8 => o.player_total == 8 && o.player_len == 3 && o.winner == TerminalWinner::Player,
        BetId::SuperTie0 => spec_super_tie(o, 0),
        BetId::SuperTie1 => spec_super_tie(o, 1),
        BetId::SuperTie2 => spec_super_tie(o, 2),
        BetId::SuperTie3 => spec_super_tie(o, 3),
        BetId::SuperTie4 => spec_super_tie(o, 4),
        BetId::SuperTie5 => spec_super_tie(o, 5),
        BetId::SuperTie6 => spec_super_tie(o, 6),
        BetId::SuperTie7 => spec_super_tie(o, 7),
        BetId::SuperTie8 => spec_super_tie(o, 8),
        BetId::SuperTie9 => spec_super_tie(o, 9),
        BetId::Lucky7Two => spec_player_seven_win(o, 2),
        BetId::Lucky7Three => spec_player_seven_win(o, 3),
        BetId::BigLucky7 => spec_player_seven_win(o, 3),
        BetId::SmallLucky7 => spec_player_seven_win(o, 2),
        BetId::SuperLucky7Four => spec_super_lucky_seven(o, 4),
        BetId::SuperLucky7Five => spec_super_lucky_seven(o, 5),
        BetId::SuperLucky7Six => spec_super_lucky_seven(o, 6),
        BetId::Flame7sTwo => spec_flame_sevens(o, 2),
        BetId::Flame7sThree => spec_flame_sevens(o, 3),
        BetId::Heaven9Single => spec_heaven_nine_single(o),
        BetId::Heaven9Both => spec_heaven_nine_both(o),
        BetId::AnyPair | BetId::PlayerPair | BetId::BankerPair | BetId::PerfectPair | BetId::Monkey | BetId::PlayerDragonAggregate | BetId::BankerDragonAggregate | BetId::BankerNaturalAggregate | BetId::PlayerNaturalAggregate | BetId::Lucky6Aggregate | BetId::TigerAggregate | BetId::TigerPairPerfect | BetId::TigerPairBoth | BetId::TigerPairSingle | BetId::TigerPairAggregate | BetId::BankerFortune4PairFortune30 | BetId::BankerFortune4PairFortune15 | BetId::BankerFortune4PairFortune12 | BetId::BankerFortune4PairFortune9 | BetId::BankerFortune4PairAggregate | BetId::PlayerFortune4PairFortune30 | BetId::PlayerFortune4PairFortune15 | BetId::PlayerFortune4PairFortune12 | BetId::PlayerFortune4PairFortune9 | BetId::PlayerFortune4PairAggregate | BetId::PlayerRed | BetId::BankerRed | BetId::PlayerBlack | BetId::BankerBlack | BetId::BankerCharSiuAggregate | BetId::PlayerCharSiuAggregate | BetId::Lucky7Aggregate | BetId::SuperLucky7Aggregate | BetId::Flame7sAggregate | BetId::Heaven9Aggregate | BetId::TreasureAll => false,
    }
}

/// On a finished hand with player total `p`, banker total `b`, hand
/// lengths `pl` and `bl` and a natural flag: Player, Banker and Tie win on
/// the higher or equal total; a dragon natural wins on a natural with the
/// higher total, a dragon point on a non-natural win by exactly that
/// margin; the dragon and natural pushes are natural ties.
pub proof fn lemma_main_dragon_natural_bets_by_totals(p: int, b: int, pl: int, bl: int, natural: bool)
    requires
        0 <= p < 10,
        0 <= b < 10,
        2 <= pl <= 3,
        2 <= bl <= 3,
    ensures
        spec_terminal_predicate(BetId::Player, spec_from_totals(p, b, pl, bl, natural)) <==> (p > b),
        spec_terminal_predicate(BetId::Banker, spec_from_totals(p, b, pl, bl, natural)) <==> (b > p),
        spec_terminal_predicate(BetId::Tie, spec_from_totals(p, b, pl, bl, natural)) <==> (p == b),
        spec_terminal_predicate(BetId::PlayerDragonNatural, spec_from_totals(p, b, pl, bl, natural)) <==> (natural && p > b),
        spec_terminal_predicate(BetId::BankerDragonNatural, spec_from_totals(p, b, pl, bl, natural)) <==> (natural && b > p),
        spec_terminal_predicate(BetId::PlayerDragonPoint4, spec_from_totals(p, b, pl, bl, natural)) <==> (!natural && p > b && p - b == 4),
        spec_terminal_predicate(BetId::PlayerDragonPoint5, spec_from_totals(p, b, pl, bl, natural)) <==> (!natural && p > b && p - b == 5),
        spec_terminal_predicate(BetId::PlayerDragonPoint6, spec_from_totals(p, b, pl, bl, natural)) <==> (!natural && p > b && p - b == 6),
        spec_terminal_predicate(BetId::PlayerDragonPoint7, spec_from_totals(p, b, pl, bl, natural)) <==> (!natural && p > b && p - b == 7),
        spec_terminal_predicate(BetId::PlayerDragonPoint8, spec_from_totals(p, b, pl, bl, natural)) <==> (!natural && p > b && p - b == 8),
        spec_terminal_predicate(BetId::PlayerDragonPoint9, spec_from_totals(p, b, pl, bl, natural)) <==> (!natural && p > b && p - b == 9),
        spec_terminal_predicate(BetId::BankerDragonPoint4, spec_from_totals(p, b, pl, bl, natural)) <==> (!natural && b > p && b - p == 4),
        spec_terminal_predicate(BetId::BankerDragonPoint5, spec_from_totals(p, b, pl, bl, natural)) <==> (!natural && b > p && b - p == 5),
        spec_terminal_predicate(BetId::BankerDragonPoint6, spec_from_totals(p, b, pl, bl, natural)) <==> (!natural && b > p && b - p == 6),
        spec_terminal_predicate(BetId::BankerDragonPoint7, spec_from_totals(p, b, pl, bl, natural)) <==> (!natural && b > p && b - p == 7),
        spec_terminal_predicate(BetId::BankerDragonPoint8, spec_from_totals(p, b, pl, bl, natural)) <==> (!natural && b > p && b - p == 8),
        spec_terminal_predicate(BetId::BankerDragonPoint9, spec_from_totals(p, b, pl, bl, natural)) <==> (!natural && b > p && b - p == 9),
        spec_terminal_predicate(BetId::PlayerDragonPush, spec_from_totals(p, b, pl, bl, natural)) <==> (natural && p == b),
        spec_terminal_predicate(BetId::BankerDragonPush, spec_from_totals(p, b, pl, bl, natural)) <==> (natural && p == b),
        spec_terminal_predicate(BetId::BankerNaturalPush, spec_from_totals(p, b, pl, bl, natural)) <==> (natural && p == b),
        spec_terminal_predicate(BetId::PlayerNaturalPush, spec_from_totals(p, b, pl, bl, natural)) <==> (natural && p == b),
        spec_terminal_predicate(BetId::BankerNaturalWin, spec_from_totals(p, b, pl, bl, natural)) <==> (natural && b > p),
        spec_terminal_predicate(BetId::PlayerNaturalWin, spec_from_totals(p, b, pl, bl, natural)) <==> (natural && p > b),
{
}

/// On a finished hand with player total `p`, banker total `b` and hand
/// lengths `pl` and `bl`: the lucky-six and tiger bets win when the banker
/// wins on six with that many cards, tiger tie on a six-six hand, the
/// fortune-four bets on a win with four, Big and Small on more than or
/// exactly four cards, char siu on a one-point win with seven to nine and
/// that many cards in all, and the bull, Wu Da Lang, Dragon 7 and Panda 8
/// bets on their winning totals and lengths.
pub proof fn lemma_six_bull_fortune_bets_by_totals(p: int, b: int, pl: int, bl: int, natural: bool)
    requires
        0 <= p < 10,
        0 <= b < 10,
        2 <= pl <= 3,
        2 <= bl <= 3,
    ensures
        spec_terminal_predicate(BetId::Lucky6Two, spec_from_totals(p, b, pl, bl, natural)) <==> (b == 6 && bl == 2 && b > p),
        spec_terminal_predicate(BetId::TigerTwo, spec_from_totals(p, b, pl, bl, natural)) <==> (b == 6 && bl == 2 && b > p),
        spec_terminal_predicate(BetId::SmallTiger, spec_from_totals(p, b, pl, bl, natural)) <==> (b == 6 && bl == 2 && b > p),
        spec_terminal_predicate(BetId::Lucky6Three, spec_from_totals(p, b, pl, bl, natural)) <==> (b == 6 && bl == 3 && b > p),
        spec_terminal_predicate(BetId::TigerThree, spec_from_totals(p, b, pl, bl, natural)) <==> (b == 6 && bl == 3 && b > p),
        spec_terminal_predicate(BetId::BigTiger, spec_from_totals(p, b, pl, bl, natural)) <==> (b == 6 && bl == 3 && b > p),
        spec_terminal_predicate(BetId::TigerTie, spec_from_totals(p, b, pl, bl, natural)) <==> (p == 6 && b == 6),
        spec_terminal_predicate(BetId::Banker4Fortune, spec_from_totals(p, b, pl, bl, natural)) <==> (b == 4 && b > p),
        spec_terminal_predicate(BetId::Player4Fortune, spec_from_totals(p, b, pl, bl, natural)) <==> (p == 4 && p > b),
        spec_terminal_predicate(BetId::Invincible6, spec_from_totals(p, b, pl, bl, natural)) <==> ((p == 6 && p > b) || (b == 6 && b > p) || (p == 6 && b == 6)),
        spec_terminal_predicate(BetId::Big, spec_from_totals(p, b, pl, bl, natural)) <==> (pl + bl > 4),
        spec_terminal_predicate(BetId::Small, spec_from_totals(p, b, pl, bl, natural)) <==> (pl + bl == 4),
        spec_terminal_predicate(BetId::BankerCharSiuPoint4, spec_from_totals(p, b, pl, bl, natural)) <==> (b > p && 7 <= b <= 9 && b - p == 1 && pl + bl == 4),
        spec_terminal_predicate(BetId::BankerCharSiuPoint5, spec_from_totals(p, b, pl, bl, natural)) <==> (b > p && 7 <= b <= 9 && b - p == 1 && pl + bl == 5),
        spec_terminal_predicate(BetId::BankerCharSiuPoint6, spec_from_totals(p, b, pl, bl, natural)) <==> (b > p && 7 <= b <= 9 && b - p == 1 && pl + bl == 6),
        spec_terminal_predicate(BetId::PlayerCharSiuPoint4, spec_from_totals(p, b, pl, bl, natural)) <==> (p > b && 7 <= p <= 9 && p - b == 1 && pl + bl == 4),
        spec_terminal_predicate(BetId::PlayerCharSiuPoint5, spec_from_totals(p, b, pl, bl, natural)) <==> (p > b && 7 <= p <= 9 && p - b == 1 && pl + bl == 5),
        spec_terminal_predicate(BetId::PlayerCharSiuPoint6, spec_from_totals(p, b, pl, bl, natural)) <==> (p > b && 7 <= p <= 9 && p - b == 1 && pl + bl == 6),
        spec_terminal_predicate(BetId::SmallBull, spec_from_totals(p, b, pl, bl, natural)) <==> (p == 6 && pl == 2 && p > b),
        spec_terminal_predicate(BetId::BigBull, spec_from_totals(p, b, pl, bl, natural)) <==> (p == 6 && pl == 3 && p > b),
        spec_terminal_predicate(BetId::TigerBull, spec_from_totals(p, b, pl, bl, natural)) <==> ((p == 6 && p > b) || (b == 6 && b > p)),
        spec_terminal_predicate(BetId::WuDaLang, spec_from_totals(p, b, pl, bl, natural)) <==> (p == 1 && p > b),
        spec_terminal_predicate(BetId::Dragon7, spec_from_totals(p, b, pl, bl, natural)) <==> (b == 7 && bl == 3 && b > p),
        spec_terminal_predicate(BetId::Panda8, spec_from_totals(p, b, pl, bl, natural)) <==> (p == 8 && pl == 3 && p > b),
{
}

/// On a finished hand with player total `p`, banker total `b` and hand
/// lengths `pl` and `bl`: a super tie wins when both hands end on its
/// total, lucky seven when the player wins on seven with that many cards,
/// super lucky seven on player seven against banker six with that many
/// cards in all, flame sevens on seven-seven with that many cards each, and
/// heaven nine on a three-card nine on both sides or on exactly one.
pub proof fn lemma_tie_seven_nine_bets_by_totals(p: int, b: int, pl: int, bl: int, natural: bool)
    requires
        0 <= p < 10,
        0 <= b < 10,
        2 <= pl <= 3,
        2 <= bl <= 3,
    ensures
        spec_terminal_predicate(BetId::SuperTie0, spec_from_totals(p, b, pl, bl, natural)) <==> (p == 0 && b == 0),
        spec_terminal_predicate(BetId::SuperTie1, spec_from_totals(p, b, pl, bl, natural)) <==> (p == 1 && b == 1),
        spec_terminal_predicate(BetId::SuperTie2, spec_from_totals(p, b, pl, bl, natural)) <==> (p == 2 && b == 2),
        spec_terminal_predicate(BetId::SuperTie3, spec_from_totals(p, b, pl, bl, natural)) <==> (p == 3 && b == 3),
        spec_terminal_predicate(BetId::SuperTie4, spec_from_totals(p, b, pl, bl, natural)) <==> (p == 4 && b == 4),
        spec_terminal_predicate(BetId::SuperTie5, spec_from_totals(p, b, pl, bl, natural)) <==> (p == 5 && b == 5),
        spec_terminal_predicate(BetId::SuperTie6, spec_from_totals(p, b, pl, bl, natural)) <==> (p == 6 && b == 6),
        spec_terminal_predicate(BetId::SuperTie7, spec_from_totals(p, b, pl, bl, natural)) <==> (p == 7 && b == 7),
        spec_terminal_predicate(BetId::SuperTie8, spec_from_totals(p, b, pl, bl, natural)) <==> (p == 8 && b == 8),
        spec_terminal_predicate(BetId::SuperTie9, spec_from_totals(p, b, pl, bl, natural)) <==> (p == 9 && b == 9),
        spec_terminal_predicate(BetId::Lucky7Two, spec_from_totals(p, b, pl, bl, natural)) <==> (p == 7 && pl == 2 && p > b),
        spec_terminal_predicate(BetId::SmallLucky7, spec_from_totals(p, b, pl, bl, natural)) <==> (p == 7 && pl == 2 && p > b),
        spec_terminal_predicate(BetId::Lucky7Three, spec_from_totals(p, b, pl, bl, natural)) <==> (p == 7 && pl == 3 && p > b),
        spec_terminal_predicate(BetId::BigLucky7, spec_from_totals(p, b, pl, bl, natural)) <==> (p == 7 && pl == 3 && p > b),
        spec_terminal_predicate(BetId::SuperLucky7Four, spec_from_totals(p, b, pl, bl, natural)) <==> (p == 7 && b == 6 && pl + bl == 4),
        spec_terminal_predicate(BetId::SuperLucky7Five, spec_from_totals(p, b, pl, bl, natural)) <==> (p == 7 && b == 6 && pl + bl == 5),
        spec_terminal_predicate(BetId::SuperLucky7Six, spec_from_totals(p, b, pl, bl, natural)) <==> (p == 7 && b == 6 && pl + bl == 6),
        spec_terminal_predicate(BetId::Flame7sTwo, spec_from_totals(p, b, pl, bl, natural)) <==> (p == 7 && b == 7 && pl == 2 && bl == 2),
        spec_terminal_predicate(BetId::Flame7sThree, spec_from_totals(p, b, pl, bl, natural)) <==> (p == 7 && b == 7 && pl == 3 && bl == 3),
        spec_terminal_predicate(BetId::Heaven9Both, spec_from_totals(p, b, pl, bl, natural)) <==> (p == 9 && b == 9 && pl == 3 && bl == 3),
        spec_terminal_predicate(BetId::Heaven9Single, spec_from_totals(p, b, pl, bl, natural)) <==> (((p == 9 && pl == 3) || (b == 9 && bl == 3)) && !(p == 9 && b == 9 && pl == 3 && bl == 3)),
{
}

/// Whether a finished hand wins (or, for push variants, pushes) the bet.
pub fn terminal_predicate_matches(definition: &BetDefinition, o: TerminalOutcome) -> (r: bool)
    ensures
        r == spec_terminal_predicate(definition.id, o),
{
    match definition.id {
        BetId::Player => o.winner == TerminalWinner::Player,
        BetId::Banker => o.winner == TerminalWinner::Banker,
        BetId::Tie => o.winner == TerminalWinner::Tie,
        BetId::PlayerDragonNatural => dragon_natural(o, TerminalWinner::Player),
        BetId::PlayerDragonPoint4 => dragon_point(o, TerminalWinner::Player, 4),
        BetId::PlayerDragonPoint5 => dragon_point(o, TerminalWinner::Player, 5),
        BetId::PlayerDragonPoint6 => dragon_point(o, TerminalWinner::Player, 6),
        BetId::PlayerDragonPoint7 => dragon_point(o, TerminalWinner::Player, 7),
        BetId::PlayerDragonPoint8 => dragon_point(o, TerminalWinner::Player, 8),
        BetId::PlayerDragonPoint9 => dragon_point(o, TerminalWinner::Player, 9),
        BetId::PlayerDragonPush => dragon_push(o),
        BetId::BankerDragonNatural => dragon_natural(o, TerminalWinner::Banker),
        BetId::BankerDragonPoint4 => dragon_point(o, TerminalWinner::Banker, 4),
        BetId::BankerDragonPoint5 => dragon_point(o, TerminalWinner::Banker, 5),
        BetId::BankerDragonPoint6 => dragon_point(o, TerminalWinner::Banker, 6),
        BetId::BankerDragonPoint7 => dragon_point(o, TerminalWinner::Banker, 7),
        BetId::BankerDragonPoint8 => dragon_point(o, TerminalWinner::Banker, 8),
        BetId::BankerDragonPoint9 => dragon_point(o, TerminalWinner::Banker, 9),
        BetId::BankerDragonPush => dragon_push(o),
        BetId::BankerNaturalWin => natural_win(o, TerminalWinner::Banker),
        BetId::BankerNaturalPush => dragon_push(o),
        BetId::PlayerNaturalWin => natural_win(o, TerminalWinner::Player),
        BetId::PlayerNaturalPush => dragon_push(o),
        BetId::Lucky6Two | BetId::TigerTwo | BetId::SmallTiger => banker_six_win(o, 2),
        BetId::Lucky6Three | BetId::TigerThree | BetId::BigTiger => banker_six_win(o, 3),
        BetId::TigerTie => o.player_total == 6 && o.banker_total == 6,
        BetId::Banker4Fortune => o.banker_total == 4 && o.winner == TerminalWinner::Banker,
        BetId::Player4Fortune => o.player_total == 4 && o.winner == TerminalWinner::Player,
        BetId::Invincible6 => invincible_six(o),
        BetId::Big => o.total_card_count > 4,
        BetId::Small => o.total_card_count == 4,
        BetId::BankerCharSiuPoint4 => char_siu(o, TerminalWinner::Banker, 4),
        BetId::BankerCharSiuPoint5 => char_siu(o, TerminalWinner::Banker, 5),
        BetId::BankerCharSiuPoint6 => char_siu(o, TerminalWinner::Banker, 6),
        BetId::PlayerCharSiuPoint4 => char_siu(o, TerminalWinner::Player, 4),
        BetId::PlayerCharSiuPoint5 => char_siu(o, TerminalWinner::Player, 5),
        BetId::PlayerCharSiuPoint6 => char_siu(o, TerminalWinner::Player, 6),
        BetId::SmallBull => o.player_total == 6 && o.player_len == 2 && o.winner == TerminalWinner::Player,
        BetId::BigBull => o.player_total == 6 && o.player_len == 3 && o.winner == TerminalWinner::Player,
        BetId::TigerBull => (o.player_total == 6 && o.winner == TerminalWinner::Player) || (o.banker_total == 6 && o.winner == TerminalWinner::Banker),
        BetId::WuDaLang => o.player_total == 1 && o.winner == TerminalWinner::Player,
        BetId::Dragon7 => o.banker_total == 7 && o.banker_len == 3 && o.winner == TerminalWinner::Banker,
        BetId::Panda8 => o.player_total == 8 && o.player_len == 3 && o.winner == TerminalWinner::Player,
        BetId::SuperTie0 => super_tie(o, 0),
        BetId::SuperTie1 => super_tie(o, 1),
        BetId::SuperTie2 => super_tie(o, 2),
        BetId::SuperTie3 => super_tie(o, 3),
        BetId::SuperTie4 => super_tie(o, 4),
        BetId::SuperTie5 => super_tie(o, 5),
        BetId::SuperTie6 => super_tie(o, 6),
        BetId::SuperTie7 => super_tie(o, 7),
        BetId::SuperTie8 => super_tie(o, 8),
        BetId::SuperTie9 => super_tie(o, 9),
        BetId::Lucky7Two => player_seven_win(o, 2),
        BetId::Lucky7Three => player_seven_win(o, 3),
        BetId::BigLucky7 => player_seven_win(o, 3),
        BetId::SmallLucky7 => player_seven_win(o, 2),
        BetId::SuperLucky7Four => super_lucky_seven(o, 4),
        BetId::SuperLucky7Five => super_lucky_seven(o, 5),
        BetId::SuperLucky7Six => super_lucky_seven(o, 6),
        BetId::Flame7sTwo => flame_sevens(o, 2),
        BetId::Flame7sThree => flame_sevens(o, 3),
        BetId::Heaven9Single => heaven_nine_single(o),
        BetId::Heaven9Both => heaven_nine_both(o),
        BetId::AnyPair | BetId::PlayerPair | BetId::BankerPair | BetId::PerfectPair | BetId::Monkey | BetId::PlayerDragonAggregate | BetId::BankerDragonAggregate | BetId::BankerNaturalAggregate | BetId::PlayerNaturalAggregate | BetId::Lucky6Aggregate | BetId::TigerAggregate | BetId::TigerPairPerfect | BetId::TigerPairBoth | BetId::TigerPairSingle | BetId::TigerPairAggregate | BetId::BankerFortune4PairFortune30 | BetId::BankerFortune4PairFortune15 | BetId::BankerFortune4PairFortune12 | BetId::BankerFortune4PairFortune9 | BetId::BankerFortune4PairAggregate | BetId::PlayerFortune4PairFortune30 | BetId::PlayerFortune4PairFortune15 | BetId::PlayerFortune4PairFortune12 | BetId::PlayerFortune4PairFortune9 | BetId::PlayerFortune4PairAggregate | BetId::PlayerRed | BetId::BankerRed | BetId::PlayerBlack | BetId::BankerBlack | BetId::BankerCharSiuAggregate | BetId::PlayerCharSiuAggregate | BetId::Lucky7Aggregate | BetId::SuperLucky7Aggregate | BetId::Flame7sAggregate | BetId::Heaven9Aggregate | BetId::TreasureAll => false,
    }
}

} // verus!
