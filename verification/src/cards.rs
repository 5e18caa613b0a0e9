//! Card identities, ranks, suits and the public bet-type list.
use vstd::prelude::*;

use crate::text::{lemma_trim_without_whitespace, spec_upper_trimmed, trimmed_ascii_upper, unicode_white_space};

verus! {

/// Number of decks in a standard baccarat shoe.
pub const STANDARD_DECK_COUNT: u8 = 8;
/// Ranks per deck.
pub const RANKS_PER_DECK: u8 = 13;
/// Suits per deck.
pub const SUITS_PER_DECK: u8 = 4;
/// Cards per deck.
pub const CARDS_PER_DECK: u16 = 52;
/// Cards in a full standard shoe (eight decks of 52 cards).
pub const STANDARD_SHOE_CARD_COUNT: u16 = 416;

#[derive(Clone, Copy, Debug, PartialEq, Eq, Structural, Hash)]
pub enum CardSuit {
    Clubs,
    Diamonds,
    Hearts,
    Spades,
}

impl CardSuit {
    /// Position of the suit in the canonical suit order.
    pub open spec fn spec_index(self) -> int {
        match self {
            CardSuit::Clubs => 0,
            CardSuit::Diamonds => 1,
            CardSuit::Hearts => 2,
            CardSuit::Spades => 3,
        }
    }

    pub fn index(self) -> (r: usize)
        ensures
            r == self.spec_index(),
            r < 4,
    {
        match self {
            CardSuit::Clubs => 0,
            CardSuit::Diamonds => 1,
            CardSuit::Hearts => 2,
            CardSuit::Spades => 3,
        }
    }

    /// The suit at a canonical position.
    pub open spec fn spec_from_index(i: int) -> CardSuit {
        if i == 0 {
            CardSuit::Clubs
        } else if i == 1 {
            CardSuit::Diamonds
        } else if i == 2 {
            CardSuit::Hearts
        } else {
            CardSuit::Spades
        }
    }

    /// Builds the suit at a canonical position.
    pub fn from_index(i: usize) -> (s: CardSuit)
        requires
            i < 4,
        ensures
            s == CardSuit::spec_from_index(i as int),
            s.spec_index() == i,
    {
        if i == 0 {
            CardSuit::Clubs
        } else if i == 1 {
            CardSuit::Diamonds
        } else if i == 2 {
            CardSuit::Hearts
        } else {
            CardSuit::Spades
        }
    }
}

#[derive(Clone, Copy, Debug, PartialEq, Eq, Structural, Hash)]
pub enum CardRank {
    Ace,
    Two,
    Three,
    Four,
    Five,
    Six,
    Seven,
    Eight,
    Nine,
    Ten,
    Jack,
    Queen,
    King,
}

impl CardRank {
    /// Position of the rank in the canonical rank order (Ace first, King last).
    pub open spec fn spec_index(self) -> int {
        match self {
            CardRank::Ace => 0,
            CardRank::Two => 1,
            CardRank::Three => 2,
            CardRank::Four => 3,
            CardRank::Five => 4,
            CardRank::Six => 5,
            CardRank::Seven => 6,
            CardRank::Eight => 7,
            CardRank::Nine => 8,
            CardRank::Ten => 9,
            CardRank::Jack => 10,
            CardRank::Queen => 11,
            CardRank::King => 12,
        }
    }

    pub fn index(self) -> (r: usize)
        ensures
            r == self.spec_index(),
            r < 13,
    {
        match self {
            CardRank::Ace => 0,
            CardRank::Two => 1,
            CardRank::Three => 2,
            CardRank::Four => 3,
            CardRank::Five => 4,
            CardRank::Six => 5,
            CardRank::Seven => 6,
            CardRank::Eight => 7,
            CardRank::Nine => 8,
            CardRank::Ten => 9,
            CardRank::Jack => 10,
            CardRank::Queen => 11,
            CardRank::King => 12,
        }
    }

    /// The rank at a canonical position.
    pub open spec fn spec_from_index(i: int) -> CardRank {
        if i == 0 {
            CardRank::Ace
        } else if i == 1 {
            CardRank::Two
        } else if i == 2 {
            CardRank::Three
        } else if i == 3 {
            CardRank::Four
        } else if i == 4 {
            CardRank::Five
        } else if i == 5 {
            CardRank::Six
        } else if i == 6 {
            CardRank::Seven
        } else if i == 7 {
            CardRank::Eight
        } else if i == 8 {
            CardRank::Nine
        } else if i == 9 {
            CardRank::Ten
        } else if i == 10 {
            CardRank::Jack
        } else if i == 11 {
            CardRank::Queen
        } else {
            CardRank::King
        }
    }

    /// Builds the rank at a canonical position.
    pub fn from_index(i: usize) -> (r: CardRank)
        requires
            i < 13,
        ensures
            r == CardRank::spec_from_index(i as int),
            r.spec_index() == i,
    {
        if i == 0 {
            CardRank::Ace
        } else if i == 1 {
            CardRank::Two
        } else if i == 2 {
            CardRank::Three
        } else if i == 3 {
            CardRank::Four
        } else if i == 4 {
            CardRank::Five
        } else if i == 5 {
            CardRank::Six
        } else if i == 6 {
            CardRank::Seven
        } else if i == 7 {
            CardRank::Eight
        } else if i == 8 {
            CardRank::Nine
        } else if i == 9 {
            CardRank::Ten
        } else if i == 10 {
            CardRank::Jack
        } else if i == 11 {
            CardRank::Queen
        } else {
            CardRank::King
        }
    }

    /// Baccarat point value: Ace is 1, Two to Nine are face value, tens and
    /// court cards are 0.
    pub open spec fn spec_value(self) -> int {
        let i = self.spec_index();
        if i < 9 {
            i + 1
        } else {
            0
        }
    }

    pub fn baccarat_value(self) -> (v: u8)
        ensures
            v == self.spec_value(),
            v < 10,
    {
        match self {
            CardRank::Ace => 1,
            CardRank::Two => 2,
            CardRank::Three => 3,
            CardRank::Four => 4,
            CardRank::Five => 5,
            CardRank::Six => 6,
            CardRank::Seven => 7,
            CardRank::Eight => 8,
            CardRank::Nine => 9,
            CardRank::Ten | CardRank::Jack | CardRank::Queen | CardRank::King => 0,
        }
    }

    /// Court cards (Jack, Queen, King) are the "monkey" ranks.
    pub open spec fn is_court(self) -> bool {
        self.spec_index() >= 10
    }
}

/// Point values by rank: Ace counts one, Two to Nine their face value, Ten
/// and the court cards zero; the court cards are exactly Jack, Queen and
/// King.
pub proof fn lemma_rank_value_and_court(r: CardRank)
    ensures
        r.spec_value() == match r {
            CardRank::Ace => 1int,
            CardRank::Two => 2,
            CardRank::Three => 3,
            CardRank::Four => 4,
            CardRank::Five => 5,
            CardRank::Six => 6,
            CardRank::Seven => 7,
            CardRank::Eight => 8,
            CardRank::Nine => 9,
            CardRank::Ten | CardRank::Jack | CardRank::Queen | CardRank::King => 0,
        },
        r.is_court() <==> (r == CardRank::Jack || r == CardRank::Queen || r == CardRank::King),
{
}

#[derive(Clone, Copy, Debug, PartialEq, Eq, Structural, Hash)]
pub struct Card {
    pub suit: CardSuit,
    pub rank: CardRank,
}

impl Card {
    /// Position of the exact card in the 52-card order (suit-major).
    pub open spec fn spec_index(self) -> int {
        self.suit.spec_index() * 13 + self.rank.spec_index()
    }
}

#[derive(Clone, Copy, Debug, PartialEq, Eq, Structural)]
pub struct CardCount {
    pub card: Card,
    pub count: u32,
}

/// Caller-facing public bet identifier.
#[derive(Clone, Copy, Debug, PartialEq, Eq, Structural, Hash)]
pub enum BetType {
    Player,
    Banker,
    Tie,
    AnyPair,
    PlayerPair,
    BankerPair,
    PerfectPair,
    PlayerDragon,
    BankerDragon,
    BankerNatural,
    PlayerNatural,
    Lucky6,
    Tiger,
    SmallTiger,
    BigTiger,
    TigerTie,
    TigerPair,
    Banker4Fortune,
    Player4Fortune,
    BankerFortune4Pair,
    PlayerFortune4Pair,
    PlayerRed,
    BankerRed,
    PlayerBlack,
    BankerBlack,
    Invincible6,
    Big,
    Small,
    BankerCharSiu,
    PlayerCharSiu,
    SmallBull,
    BigBull,
    TigerBull,
    WuDaLang,
    Dragon7,
    Panda8,
    Lucky7,
    BigLucky7,
    SmallLucky7,
    SuperLucky7,
    Flame7s,
    Monkey,
    SuperTie0,
    SuperTie1,
    SuperTie2,
    SuperTie3,
    SuperTie4,
    SuperTie5,
    SuperTie6,
    SuperTie7,
    SuperTie8,
    SuperTie9,
    Heaven9,
    TreasureAll,
}

/// The rank named by an upper-case label: its short label or its name in
/// letters ("10" and "T" for tens).
pub open spec fn spec_rank_of_label(u: Seq<char>) -> Option<CardRank> {
    if u == "A"@ || u == "ACE"@ {
        Some(CardRank::Ace)
    } else if u == "2"@ || u == "TWO"@ {
        Some(CardRank::Two)
    } else if u == "3"@ || u == "THREE"@ {
        Some(CardRank::Three)
    } else if u == "4"@ || u == "FOUR"@ {
        Some(CardRank::Four)
    } else if u == "5"@ || u == "FIVE"@ {
        Some(CardRank::Five)
    } else if u == "6"@ || u == "SIX"@ {
        Some(CardRank::Six)
    } else if u == "7"@ || u == "SEVEN"@ {
        Some(CardRank::Seven)
    } else if u == "8"@ || u == "EIGHT"@ {
        Some(CardRank::Eight)
    } else if u == "9"@ || u == "NINE"@ {
        Some(CardRank::Nine)
    } else if u == "10"@ || u == "T"@ || u == "TEN"@ {
        Some(CardRank::Ten)
    } else if u == "J"@ || u == "JACK"@ {
        Some(CardRank::Jack)
    } else if u == "Q"@ || u == "QUEEN"@ {
        Some(CardRank::Queen)
    } else if u == "K"@ || u == "KING"@ {
        Some(CardRank::King)
    } else {
        None
    }
}

/// The rank a label names, after trimming whitespace and ignoring ASCII
/// case.
pub open spec fn spec_from_label(s: Seq<char>) -> Option<CardRank> {
    spec_rank_of_label(spec_upper_trimmed(s))
}

fn matches_word(a: &Vec<char>, word: &str) -> (r: bool)
    ensures
        r == (a@ == word@),
{
    let n = word.unicode_len();
    if a.len() != n {
        return false;
    }
    let mut i: usize = 0;
    while i < n
        invariant
            i <= n,
            n == word@.len(),
            a@.len() == n,
            forall|j: int| 0 <= j < i ==> a@[j] == word@[j],
        decreases n - i,
    {
        if a[i] != word.get_char(i) {
            return false;
        }
        i = i + 1;
    }
    assert(a@ =~= word@);
    true
}

impl CardRank {
    /// The short label of the rank.
    pub open spec fn spec_label(self) -> Seq<char> {
        match self {
            CardRank::Ace => "A"@,
            CardRank::Two => "2"@,
            CardRank::Three => "3"@,
            CardRank::Four => "4"@,
            CardRank::Five => "5"@,
            CardRank::Six => "6"@,
            CardRank::Seven => "7"@,
            CardRank::Eight => "8"@,
            CardRank::Nine => "9"@,
            CardRank::Ten => "10"@,
            CardRank::Jack => "J"@,
            CardRank::Queen => "Q"@,
            CardRank::King => "K"@,
        }
    }

    /// The short label of the rank: "A", "2" to "10", "J", "Q", "K".
    pub fn label(self) -> (r: &'static str)
        ensures
            r@ == self.spec_label(),
    {
        match self {
            CardRank::Ace => "A",
            CardRank::Two => "2",
            CardRank::Three => "3",
            CardRank::Four => "4",
            CardRank::Five => "5",
            CardRank::Six => "6",
            CardRank::Seven => "7",
            CardRank::Eight => "8",
            CardRank::Nine => "9",
            CardRank::Ten => "10",
            CardRank::Jack => "J",
            CardRank::Queen => "Q",
            CardRank::King => "K",
        }
    }

    /// The rank a label names: the short label or the name in letters, in
    /// any ASCII case, with surrounding whitespace ignored; `None` for
    /// anything else.
    pub fn from_label(label: &str) -> (r: Option<CardRank>)
        ensures
            r == spec_from_label(label@),
    {
        let u = trimmed_ascii_upper(label);
        if matches_word(&u, "A") || matches_word(&u, "ACE") {
            Some(CardRank::Ace)
        } else if matches_word(&u, "2") || matches_word(&u, "TWO") {
            Some(CardRank::Two)
        } else if matches_word(&u, "3") || matches_word(&u, "THREE") {
            Some(CardRank::Three)
        } else if matches_word(&u, "4") || matches_word(&u, "FOUR") {
            Some(CardRank::Four)
        } else if matches_word(&u, "5") || matches_word(&u, "FIVE") {
            Some(CardRank::Five)
        } else if matches_word(&u, "6") || matches_word(&u, "SIX") {
            Some(CardRank::Six)
        } else if matches_word(&u, "7") || matches_word(&u, "SEVEN") {
            Some(CardRank::Seven)
        } else if matches_word(&u, "8") || matches_word(&u, "EIGHT") {
            Some(CardRank::Eight)
        } else if matches_word(&u, "9") || matches_word(&u, "NINE") {
            Some(CardRank::Nine)
        } else if matches_word(&u, "10") || matches_word(&u, "T") || matches_word(&u, "TEN") {
            Some(CardRank::Ten)
        } else if matches_word(&u, "J") || matches_word(&u, "JACK") {
            Some(CardRank::Jack)
        } else if matches_word(&u, "Q") || matches_word(&u, "QUEEN") {
            Some(CardRank::Queen)
        } else if matches_word(&u, "K") || matches_word(&u, "KING") {
            Some(CardRank::King)
        } else {
            None
        }
    }
}

/// Labels round-trip: reading a rank's label gives the rank back.
pub proof fn lemma_label_round_trip(r: CardRank)
    ensures
        spec_from_label(r.spec_label()) == Some(r),
{
    reveal_strlit("A");
    reveal_strlit("ACE");
    reveal_strlit("2");
    reveal_strlit("TWO");
    reveal_strlit("3");
    reveal_strlit("THREE");
    reveal_strlit("4");
    reveal_strlit("FOUR");
    reveal_strlit("5");
    reveal_strlit("FIVE");
    reveal_strlit("6");
    reveal_strlit("SIX");
    reveal_strlit("7");
    reveal_strlit("SEVEN");
    reveal_strlit("8");
    reveal_strlit("EIGHT");
    reveal_strlit("9");
    reveal_strlit("NINE");
    reveal_strlit("10");
    reveal_strlit("T");
    reveal_strlit("TEN");
    reveal_strlit("J");
    reveal_strlit("JACK");
    reveal_strlit("Q");
    reveal_strlit("QUEEN");
    reveal_strlit("K");
    reveal_strlit("KING");
    let l = r.spec_label();
    assert forall|i: int| 0 <= i < l.len() implies !unicode_white_space(#[trigger] l[i]) by {}
    lemma_trim_without_whitespace(l);
    assert(spec_upper_trimmed(l) =~= l);
}

} // verus!
