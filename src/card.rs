//! Cards, the standard deck, and hand categories.
use vstd::prelude::*;
use itertools::Itertools;
use crate::bits::{is_rank_bit, is_suit_bit, lemma_rank_shift, lemma_suit_shift, rank_index, suit_index};

verus! {

/// The category of a five-card hand, strongest first.
#[derive(Hash, PartialEq, Eq, Structural, Debug, Clone, Copy)]
pub enum Value {
    FiveOfAKind,
    RoyalFlush,
    StraightFlush,
    FourOfAKind,
    FullHouse,
    Flush,
    RoyalStraight,
    Straight,
    ThreeOfAKind,
    TwoPair,
    OnePair,
    HighCard,
}

/// A playing card: its rank is one of 13 one-hot bits, its suit one of 4.
#[derive(Debug, Clone, Copy)]
pub struct Card {
    pub rank: u32,
    pub suit: u8,
}

impl Card {
    /// Exactly one rank bit and exactly one suit bit are set.
    pub open spec fn wf(self) -> bool {
        is_rank_bit(self.rank) && is_suit_bit(self.suit)
    }
}

/// The ace's rank bit, the highest of the thirteen.
pub const ACE: u32 = 0x1000;

/// The card at position `i` of a fresh standard deck: suit-major order.
pub open spec fn standard_card(i: int) -> Card {
    Card { rank: 1u32 << ((i % 13) as u32), suit: 1u8 << ((i / 13) as u8) }
}

/// The standard deck in its canonical order.
pub open spec fn standard_deck() -> Seq<Card> {
    Seq::new(52, |i: int| standard_card(i))
}

/// Each card of the standard deck has one rank bit and one suit bit.
pub proof fn lemma_standard_card_wf(i: int)
    requires
        0 <= i < 52,
    ensures
        standard_card(i).wf(),
{
    lemma_rank_shift((i % 13) as u32, 0);
    lemma_suit_shift((i / 13) as u8, 0);
}

/// A standard deck has 52 cards, each with one rank bit and one suit bit, no two
/// alike, and holds every such card. The card at position `i` has the rank of
/// position `i % 13` and the suit of position `i / 13`.
pub proof fn lemma_standard_deck()
    ensures
        standard_deck().len() == 52,
        forall|i: int| 0 <= i < 52 ==> (#[trigger] standard_deck()[i]).wf(),
        forall|i: int, j: int|
            0 <= i < 52 && 0 <= j < 52 && i != j ==> #[trigger] standard_deck()[i] != #[trigger] standard_deck()[j],
        forall|c: Card| c.wf() ==> #[trigger] standard_deck().contains(c),
        forall|i: int, k: u32|
            #![trigger standard_deck()[i], 1u32 << k]
            0 <= i < 52 && k < 13 ==> (standard_deck()[i].rank == 1u32 << k) == (i % 13 == k),
        forall|i: int, k: u8|
            #![trigger standard_deck()[i], 1u8 << k]
            0 <= i < 52 && k < 4 ==> (standard_deck()[i].suit == 1u8 << k) == (i / 13 == k),
{
    assert forall|i: int| 0 <= i < 52 implies (#[trigger] standard_deck()[i]).wf() by {
        lemma_standard_card_wf(i);
    }
    assert forall|i: int, j: int|
        0 <= i < 52 && 0 <= j < 52 && i != j implies #[trigger] standard_deck()[i] != #[trigger] standard_deck()[j] by {
        lemma_rank_shift((i % 13) as u32, 0);
        lemma_suit_shift((i / 13) as u8, 0);
        lemma_rank_shift((j % 13) as u32, 0);
        lemma_suit_shift((j / 13) as u8, 0);
    }
    assert forall|c: Card| c.wf() implies #[trigger] standard_deck().contains(c) by {
        lemma_rank_shift(0, c.rank);
        lemma_suit_shift(0, c.suit);
        let i = 13 * suit_index(c.suit) + rank_index(c.rank);
        assert(i % 13 == rank_index(c.rank) as int && i / 13 == suit_index(c.suit) as int);
        assert(standard_deck()[i] == c);
    }
    assert forall|i: int, k: u32|
        #![trigger standard_deck()[i], 1u32 << k]
        0 <= i < 52 && k < 13 implies (standard_deck()[i].rank == 1u32 << k) == (i % 13 == k) by {
        lemma_rank_shift((i % 13) as u32, 0);
        lemma_rank_shift(k, 0);
    }
    assert forall|i: int, k: u8|
        #![trigger standard_deck()[i], 1u8 << k]
        0 <= i < 52 && k < 4 implies (standard_deck()[i].suit == 1u8 << k) == (i / 13 == k) by {
        lemma_suit_shift((i / 13) as u8, 0);
        lemma_suit_shift(k, 0);
    }
}

/// Picks the cards whose rank is bit `k`.
pub open spec fn has_rank(k: u32) -> spec_fn(Card) -> bool {
    |c: Card| c.rank == 1u32 << k
}

/// Picks the cards whose suit is bit `k`.
pub open spec fn has_suit(k: u8) -> spec_fn(Card) -> bool {
    |c: Card| c.suit == 1u8 << k
}

proof fn lemma_rank_count_prefix(n: int, k: u32)
    requires
        0 <= n <= 52,
        k < 13,
    ensures
        standard_deck().take(n).filter(has_rank(k)).len() == if n <= k {
            0
        } else {
            (n - 1 - k) / 13 + 1
        },
    decreases n,
{
    if n > 0 {
        lemma_rank_count_prefix(n - 1, k);
        lemma_standard_deck();
        assert(standard_deck().take(n) =~= standard_deck().take(n - 1).push(standard_deck()[n - 1]));
        standard_deck().take(n - 1).lemma_filter_len_push(has_rank(k), standard_deck()[n - 1]);
        assert(has_rank(k)(standard_deck()[n - 1]) == ((n - 1) % 13 == k));
    }
}

proof fn lemma_suit_count_prefix(n: int, k: u8)
    requires
        0 <= n <= 52,
        k < 4,
    ensures
        standard_deck().take(n).filter(has_suit(k)).len() == if n <= 13 * k {
            0
        } else if n <= 13 * k + 13 {
            n - 13 * k
        } else {
            13
        },
    decreases n,
{
    if n > 0 {
        lemma_suit_count_prefix(n - 1, k);
        lemma_standard_deck();
        assert(standard_deck().take(n) =~= standard_deck().take(n - 1).push(standard_deck()[n - 1]));
        standard_deck().take(n - 1).lemma_filter_len_push(has_suit(k), standard_deck()[n - 1]);
        assert(has_suit(k)(standard_deck()[n - 1]) == ((n - 1) / 13 == k));
    }
}

/// The standard deck holds four cards of each rank and thirteen of each suit.
pub proof fn lemma_standard_deck_counts(rank_pos: u32, suit_pos: u8)
    requires
        rank_pos < 13,
        suit_pos < 4,
    ensures
        standard_deck().filter(has_rank(rank_pos)).len() == 4,
        standard_deck().filter(has_suit(suit_pos)).len() == 13,
{
    lemma_rank_count_prefix(52, rank_pos);
    lemma_suit_count_prefix(52, suit_pos);
    assert(standard_deck().take(52) =~= standard_deck());
}

/// Every card of a deck holding the standard deck's cards has one rank bit and one
/// suit bit.
pub proof fn lemma_full_deck_cards(d: Seq<Card>)
    requires
        d.to_multiset() == standard_deck().to_multiset(),
    ensures
        d.len() == 52,
        forall|i: int| 0 <= i < d.len() ==> (#[trigger] d[i]).wf(),
{
    vstd::seq_lib::to_multiset_len(d);
    vstd::seq_lib::to_multiset_len(standard_deck());
    assert forall|i: int| 0 <= i < d.len() implies (#[trigger] d[i]).wf() by {
        assert(d.contains(d[i]));
        vstd::seq_lib::to_multiset_contains(d, d[i]);
        vstd::seq_lib::to_multiset_contains(standard_deck(), d[i]);
        let j = choose|j: int| 0 <= j < 52 && standard_deck()[j] == d[i];
        lemma_standard_card_wf(j);
    }
}

/// An ordered sequence of cards; a well-formed deck holds each standard card once.
#[derive(Debug, Clone)]
pub struct Deck {
    pub cards: Vec<Card>,
}

/// Relies on `Itertools::cartesian_product` over two ranges: every pair, in order,
/// with the first range outermost.
#[verifier::external_body]
fn index_pairs(outer: u32, inner: u32) -> (r: Vec<(u32, u32)>)
    requires
        0 < inner,
        outer * inner <= usize::MAX,
    ensures
        r@.len() == outer * inner,
        forall|i: int| 0 <= i < r@.len() ==> #[trigger] r@[i] == ((i / inner as int) as u32, (i % inner as int) as u32),
{
    (0..outer).cartesian_product(0..inner).collect()
}

/// Relies on `fastrand::shuffle`: it only swaps elements of the slice, so the
/// cards come back reordered, none lost or added.
#[verifier::external_body]
fn shuffle_cards(cards: &mut Vec<Card>)
    ensures
        final(cards)@.to_multiset() == old(cards)@.to_multiset(),
{
    fastrand::shuffle(cards)
}

impl Deck {
    /// The deck holds exactly the 52 standard cards, in some order.
    pub open spec fn wf(self) -> bool {
        self.cards@.to_multiset() == standard_deck().to_multiset()
    }

    /// The 52 cards, one for each rank and suit, suit by suit.
    pub fn standard() -> (r: Deck)
        ensures
            r.wf(),
            r.cards@ == standard_deck(),
    {
        let pairs = index_pairs(4, 13);
        let mut cards: Vec<Card> = Vec::new();
        let mut i: usize = 0;
        while i < pairs.len()
            invariant
                pairs@.len() == 52,
                forall|j: int| 0 <= j < 52 ==> #[trigger] pairs@[j] == ((j / 13) as u32, (j % 13) as u32),
                i <= 52,
                cards@.len() == i,
                forall|j: int| 0 <= j < i ==> #[trigger] cards@[j] == standard_card(j),
            decreases 52 - i,
        {
            let (suit_index, rank_index) = pairs[i];
            assert(suit_index < 4 && rank_index < 13);
            cards.push(Card { rank: 1u32 << rank_index, suit: 1u8 << (suit_index as u8) });
            i += 1;
        }
        assert(cards@ =~= standard_deck());
        Deck { cards }
    }

    /// Puts the cards in a random order.
    pub fn shuffle(&mut self)
        ensures
            final(self).cards@.to_multiset() == old(self).cards@.to_multiset(),
            final(self).cards@.len() == old(self).cards@.len(),
            old(self).wf() ==> final(self).wf(),
    {
        let ghost before = self.cards@;
        shuffle_cards(&mut self.cards);
        proof {
            vstd::seq_lib::to_multiset_len(before);
            vstd::seq_lib::to_multiset_len(self.cards@);
        }
    }
}

} // verus!
