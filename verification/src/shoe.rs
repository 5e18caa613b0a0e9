//! Remaining-shoe card counts and their validation.
use vstd::prelude::*;

use crate::cards::{Card, CardCount, CardRank, CardSuit};
use crate::error::CalculatorError;
use crate::sums::sum_to;

verus! {

/// Counts of the remaining shoe by exact card, by rank and by point value.
///
/// `card` is indexed by `suit * 13 + rank`, `rank` by the rank index, `point`
/// by the baccarat point value.
#[derive(Debug)]
pub struct ShoeCounts {
    pub card: Vec<u16>,
    pub rank: Vec<u16>,
    pub point: Vec<u16>,
    pub total: u16,
}

/// How many copies of the exact card with index `k` the entries list.
pub open spec fn entries_count(s: Seq<CardCount>, k: int) -> int
    decreases s.len(),
{
    if s.len() == 0 {
        0
    } else {
        entries_count(s.drop_last(), k) + if s.last().card.spec_index() == k {
            s.last().count as int
        } else {
            0int
        }
    }
}

/// Why entry `i` is refused, given the entries before it.
pub open spec fn entry_error(s: Seq<CardCount>, i: int) -> Option<CalculatorError> {
    if entries_count(s.take(i), s[i].card.spec_index()) != 0 {
        Some(CalculatorError::DuplicateCard(s[i].card))
    } else if s[i].count > 8 {
        Some(CalculatorError::CardCountExceedsMaximum(s[i].card, s[i].count))
    } else {
        None
    }
}

/// The refusal of the first refused entry, if any.
pub open spec fn entries_error(s: Seq<CardCount>) -> Option<CalculatorError>
    decreases s.len(),
{
    if s.len() == 0 {
        None
    } else {
        match entries_error(s.drop_last()) {
            Some(e) => Some(e),
            None => entry_error(s, s.len() - 1),
        }
    }
}

/// The rank total: the four suits of the rank.
pub open spec fn rank_from_cards(card: Seq<u16>, r: int) -> int {
    card[r] + card[13 + r] + card[26 + r] + card[39 + r]
}

/// The point total: tens and court cards count 0, Ace to Nine count 1 to 9.
pub open spec fn point_from_ranks(rank: Seq<u16>, p: int) -> int {
    if p == 0 {
        rank[9] + rank[10] + rank[11] + rank[12]
    } else {
        rank[p - 1] as int
    }
}

impl ShoeCounts {
    /// The counts are internally consistent and no exact card exceeds eight
    /// copies.
    pub open spec fn wf(self) -> bool {
        &&& self.card@.len() == 52
        &&& self.rank@.len() == 13
        &&& self.point@.len() == 10
        &&& forall|k: int| 0 <= k < 52 ==> #[trigger] self.card@[k] <= 8
        &&& forall|r: int| 0 <= r < 13 ==> #[trigger] self.rank@[r] == rank_from_cards(self.card@, r)
        &&& forall|p: int| 0 <= p < 10 ==> #[trigger] self.point@[p] == point_from_ranks(self.rank@, p)
        &&& self.total == sum_to(|k: int| self.card@[k] as int, 52)
    }

    /// The counts are those of the entries.
    pub open spec fn counts_entries(self, s: Seq<CardCount>) -> bool {
        forall|k: int| 0 <= k < 52 ==> #[trigger] self.card@[k] == entries_count(s, k)
    }

    /// Point counts as mathematical integers.
    pub open spec fn spec_points(self) -> Seq<int> {
        Seq::new(10, |i: int| self.point@[i] as int)
    }

    /// Builds the counts of a remaining shoe from card-count entries.
    ///
    /// Refuses an empty list, an entry for a card that an earlier entry
    /// already gave a nonzero count, and an entry with more than eight copies,
    /// whichever comes first.
    pub fn from_cards(cards: &[CardCount]) -> (r: Result<ShoeCounts, CalculatorError>)
        ensures
            cards@.len() == 0 ==> r == Err::<ShoeCounts, CalculatorError>(CalculatorError::EmptyCards),
            cards@.len() > 0 ==> match entries_error(cards@) {
                Some(e) => r == Err::<ShoeCounts, CalculatorError>(e),
                None => r is Ok,
            },
            r matches Ok(c) ==> c.wf() && c.counts_entries(cards@),
    {
        card_counts_from_entries(cards)
    }
}

proof fn lemma_entries_count_take(s: Seq<CardCount>, i: int, k: int)
    requires
        0 <= i < s.len(),
    ensures
        entries_count(s.take(i + 1), k) == entries_count(s.take(i), k) + if s[i].card.spec_index() == k {
            s[i].count as int
        } else {
            0int
        },
{
    assert(s.take(i + 1).drop_last() =~= s.take(i));
}

proof fn lemma_entries_error_take(s: Seq<CardCount>, i: int)
    requires
        0 <= i < s.len(),
    ensures
        entries_error(s.take(i + 1)) == match entries_error(s.take(i)) {
            Some(e) => Some(e),
            None => entry_error(s, i),
        },
{
    assert(s.take(i + 1).drop_last() =~= s.take(i));
    assert(s.take(i + 1).take(i) =~= s.take(i));
}

proof fn lemma_entries_error_prefix(s: Seq<CardCount>, i: int, e: CalculatorError)
    requires
        0 <= i <= s.len(),
        entries_error(s.take(i)) == Some(e),
    ensures
        entries_error(s) == Some(e),
    decreases s.len() - i,
{
    if i < s.len() {
        lemma_entries_error_take(s, i);
        lemma_entries_error_prefix(s, i + 1, e);
    } else {
        assert(s.take(i) =~= s);
    }
}

fn card_index(card: Card) -> (r: usize)
    ensures
        r == card.spec_index(),
        r < 52,
{
    card.suit.index() * 13 + card.rank.index()
}

fn card_counts_from_entries(cards: &[CardCount]) -> (r: Result<ShoeCounts, CalculatorError>)
    ensures
        cards@.len() == 0 ==> r == Err::<ShoeCounts, CalculatorError>(CalculatorError::EmptyCards),
        cards@.len() > 0 ==> match entries_error(cards@) {
            Some(e) => r == Err::<ShoeCounts, CalculatorError>(e),
            None => r is Ok,
        },
        r matches Ok(c) ==> c.wf() && c.counts_entries(cards@),
{
    if cards.len() == 0 {
        return Err(CalculatorError::EmptyCards);
    }
    let mut card: Vec<u16> = Vec::new();
    let mut k: usize = 0;
    while k < 52
        invariant
            k <= 52,
            card@.len() == k,
            forall|j: int| 0 <= j < k ==> #[trigger] card@[j] == 0,
        decreases 52 - k,
    {
        card.push(0);
        k = k + 1;
    }
    let mut i: usize = 0;
    while i < cards.len()
        invariant
            i <= cards@.len(),
            card@.len() == 52,
            entries_error(cards@.take(i as int)) is None,
            forall|j: int| 0 <= j < 52 ==> #[trigger] card@[j] == entries_count(cards@.take(i as int), j),
            forall|j: int| 0 <= j < 52 ==> #[trigger] card@[j] <= 8,
        decreases cards@.len() - i,
    {
        let entry = cards[i];
        let idx = card_index(entry.card);
        proof {
            lemma_entries_error_take(cards@, i as int);
            assert forall|j: int| 0 <= j < 52 implies #[trigger] entries_count(cards@.take(i as int + 1), j)
                == entries_count(cards@.take(i as int), j) + if cards@[i as int].card.spec_index() == j {
                cards@[i as int].count as int
            } else {
                0int
            } by {
                lemma_entries_count_take(cards@, i as int, j);
            }
        }
        if card[idx] != 0 {
            proof {
                lemma_entries_error_prefix(cards@, i as int + 1, CalculatorError::DuplicateCard(entry.card));
            }
            return Err(CalculatorError::DuplicateCard(entry.card));
        }
        if entry.count > 8 {
            proof {
                lemma_entries_error_prefix(
                    cards@,
                    i as int + 1,
                    CalculatorError::CardCountExceedsMaximum(entry.card, entry.count),
                );
            }
            return Err(CalculatorError::CardCountExceedsMaximum(entry.card, entry.count));
        }
        card.set(idx, entry.count as u16);
        i = i + 1;
    }
    proof {
        assert(cards@.take(cards@.len() as int) =~= cards@);
    }
    let mut rank: Vec<u16> = Vec::new();
    let mut r: usize = 0;
    while r < 13
        invariant
            r <= 13,
            card@.len() == 52,
            forall|j: int| 0 <= j < 52 ==> #[trigger] card@[j] <= 8,
            rank@.len() == r,
            forall|q: int| 0 <= q < r ==> #[trigger] rank@[q] == rank_from_cards(card@, q),
        decreases 13 - r,
    {
        let v = card[r] + card[13 + r] + card[26 + r] + card[39 + r];
        rank.push(v);
        r = r + 1;
    }
    let mut point: Vec<u16> = Vec::new();
    point.push(rank[9] + rank[10] + rank[11] + rank[12]);
    let mut p: usize = 1;
    while p < 10
        invariant
            1 <= p <= 10,
            rank@.len() == 13,
            forall|q: int| 0 <= q < 13 ==> #[trigger] rank@[q] <= 32,
            point@.len() == p,
            forall|q: int| 0 <= q < p ==> #[trigger] point@[q] == point_from_ranks(rank@, q),
        decreases 10 - p,
    {
        point.push(rank[p - 1]);
        p = p + 1;
    }
    let mut total: u16 = 0;
    let mut j: usize = 0;
    while j < 52
        invariant
            j <= 52,
            card@.len() == 52,
            forall|q: int| 0 <= q < 52 ==> #[trigger] card@[q] <= 8,
            total == sum_to(|q: int| card@[q] as int, j as int),
            total <= 8 * j,
        decreases 52 - j,
    {
        total = total + card[j];
        j = j + 1;
    }
    Ok(ShoeCounts { card, rank, point, total })
}

/// The full eight-deck shoe: eight copies of every exact card, suits in
/// canonical order, ranks in canonical order within each suit.
pub open spec fn standard_shoe_entry(i: int) -> CardCount {
    CardCount {
        card: Card { suit: CardSuit::spec_from_index(i / 13), rank: CardRank::spec_from_index(i % 13) },
        count: 8,
    }
}

/// Returns a full standard baccarat shoe with eight copies of every exact card.
pub fn standard_eight_deck_cards() -> (r: Vec<CardCount>)
    ensures
        r@.len() == 52,
        forall|i: int| 0 <= i < 52 ==> #[trigger] r@[i] == standard_shoe_entry(i),
{
    let mut r: Vec<CardCount> = Vec::new();
    let mut s: usize = 0;
    while s < 4
        invariant
            s <= 4,
            r@.len() == 13 * s,
            forall|i: int| 0 <= i < 13 * s ==> #[trigger] r@[i] == standard_shoe_entry(i),
        decreases 4 - s,
    {
        let suit = CardSuit::from_index(s);
        let mut k: usize = 0;
        while k < 13
            invariant
                s < 4,
                k <= 13,
                suit == CardSuit::spec_from_index(s as int),
                r@.len() == 13 * s + k,
                forall|i: int| 0 <= i < 13 * s + k ==> #[trigger] r@[i] == standard_shoe_entry(i),
            decreases 13 - k,
        {
            let rank = CardRank::from_index(k);
            r.push(CardCount { card: Card { suit, rank }, count: 8 });
            proof {
                let i = 13 * s + k;
                assert(i / 13 == s as int) by (nonlinear_arith)
                    requires
                        i == 13 * s + k,
                        k < 13,
                ;
                assert(i % 13 == k as int) by (nonlinear_arith)
                    requires
                        i == 13 * s + k,
                        k < 13,
                ;
            }
            k = k + 1;
        }
        s = s + 1;
    }
    r
}

} // verus!
