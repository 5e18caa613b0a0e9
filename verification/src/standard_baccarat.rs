//! The standard baccarat drawing rules.
use vstd::prelude::*;

pub use crate::cards::{
    CARDS_PER_DECK, RANKS_PER_DECK, STANDARD_DECK_COUNT, STANDARD_SHOE_CARD_COUNT, SUITS_PER_DECK,
};

verus! {

/// A two-card total of 8 or 9 (mod 10) is a natural.
pub open spec fn spec_is_natural(total: int) -> bool {
    total % 10 == 8 || total % 10 == 9
}

/// The player draws a third card on 0-5 unless either hand is a natural.
pub open spec fn spec_player_draws(total: int, natural_present: bool) -> bool {
    !natural_present && total % 10 <= 5
}

/// The banker's third-card rule, given the player's third card when one was
/// drawn.
pub open spec fn spec_banker_draws(total: int, player_third: Option<int>, natural_present: bool) -> bool {
    let t = total % 10;
    if natural_present {
        false
    } else {
        match player_third {
            None => t <= 5,
            Some(p) => {
                let p = p % 10;
                if t <= 2 {
                    true
                } else if t == 3 {
                    p != 8
                } else if t == 4 {
                    2 <= p <= 7
                } else if t == 5 {
                    4 <= p <= 7
                } else if t == 6 {
                    6 <= p <= 7
                } else {
                    false
                }
            },
        }
    }
}

/// The banker's tableau once the player drew a third card `p`, with no
/// natural: the banker stands on 3 only against an 8, on 4 against 0, 1, 8
/// and 9, on 5 against 0 to 3, 8 and 9, on 6 against anything but 6 and 7,
/// and always on 7 or more; it draws on 0 to 2 whatever `p` is. A higher
/// banker total never draws against more player cards than a lower one.
/// With a natural nobody draws.
pub proof fn lemma_banker_tableau(t: int, u: int, p: int, player_third: Option<int>)
    requires
        0 <= t <= u < 10,
        0 <= p < 10,
    ensures
        t <= 2 ==> spec_banker_draws(t, Some(p), false),
        t == 3 ==> (spec_banker_draws(t, Some(p), false) <==> p != 8),
        t == 4 ==> (!spec_banker_draws(t, Some(p), false) <==> (p == 0 || p == 1 || p == 8 || p == 9)),
        t == 5 ==> (!spec_banker_draws(t, Some(p), false) <==> (p <= 3 || p == 8 || p == 9)),
        t == 6 ==> (spec_banker_draws(t, Some(p), false) <==> (p == 6 || p == 7)),
        t >= 7 ==> !spec_banker_draws(t, Some(p), false),
        spec_banker_draws(u, Some(p), false) ==> spec_banker_draws(t, Some(p), false),
        spec_banker_draws(t, None, false) <==> t <= 5,
        !spec_banker_draws(t, player_third, true),
        spec_player_draws(t, false) <==> t <= 5,
        !spec_player_draws(t, true),
{
}

pub fn is_natural_total(total: u8) -> (r: bool)
    ensures
        r == spec_is_natural(total as int),
{
    let t = total % 10;
    t == 8 || t == 9
}

pub fn player_draws_third_card(player_initial_total: u8, natural_present: bool) -> (r: bool)
    ensures
        r == spec_player_draws(player_initial_total as int, natural_present),
{
    !natural_present && player_initial_total % 10 <= 5
}

pub fn banker_draws_third_card(
    banker_initial_total: u8,
    player_third_card_value: Option<u8>,
    natural_present: bool,
) -> (r: bool)
    ensures
        r == spec_banker_draws(
            banker_initial_total as int,
            match player_third_card_value {
                Some(p) => Some(p as int),
                None => None,
            },
            natural_present,
        ),
{
    if natural_present {
        return false;
    }
    let banker_total = banker_initial_total % 10;
    match player_third_card_value {
        None => banker_total <= 5,
        Some(player_third) => {
            let p = player_third % 10;
            if banker_total <= 2 {
                true
            } else if banker_total == 3 {
                p != 8
            } else if banker_total == 4 {
                2 <= p && p <= 7
            } else if banker_total == 5 {
                4 <= p && p <= 7
            } else if banker_total == 6 {
                6 <= p && p <= 7
            } else {
                false
            }
        },
    }
}

} // verus!
