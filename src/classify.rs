//! Classification of a five-card hand into its category.
use vstd::prelude::*;
use crate::bits::{
    distinct5, is_rank_bit, lemma_low_rank, lemma_rank_at_most_ace, lemma_rank_union_ones, lemma_run_top,
    lemma_suit_union_single,
};
use crate::card::{Card, Value, ACE};
use crate::tally::{rank_tally, tally_ranks, top_count};

verus! {

/// Five cards, each with one rank bit and one suit bit.
pub open spec fn is_hand(h: Seq<Card>) -> bool {
    h.len() == 5 && forall|i: int| 0 <= i < 5 ==> #[trigger] h[i].wf()
}

/// The ranks of the cards, in order.
pub open spec fn ranks(h: Seq<Card>) -> Seq<u32> {
    h.map_values(|c: Card| c.rank)
}

/// How many cards of the hand have rank `r`.
pub open spec fn rank_count(h: Seq<Card>, r: u32) -> nat {
    ranks(h).to_multiset().count(r)
}

/// How many different ranks the five cards show.
pub open spec fn distinct_ranks(h: Seq<Card>) -> int {
    distinct5(h[0].rank, h[1].rank, h[2].rank, h[3].rank, h[4].rank)
}

pub open spec fn max(a: nat, b: nat) -> nat {
    if a >= b {
        a
    } else {
        b
    }
}

/// The largest rank count among the ranks of the first `n` cards.
pub open spec fn max_count_upto(h: Seq<Card>, n: nat) -> nat
    decreases n,
{
    if n == 0 {
        0
    } else {
        max(max_count_upto(h, (n - 1) as nat), rank_count(h, h[n - 1].rank))
    }
}

/// The size of the largest group of cards sharing a rank.
pub open spec fn max_group(h: Seq<Card>) -> nat {
    max_count_upto(h, h.len())
}

proof fn lemma_max_count_upto(h: Seq<Card>, n: nat)
    requires
        n <= h.len(),
    ensures
        forall|i: int| 0 <= i < n ==> rank_count(h, #[trigger] h[i].rank) <= max_count_upto(h, n),
        n > 0 ==> exists|j: int| 0 <= j < n && rank_count(h, #[trigger] h[j].rank) == max_count_upto(h, n),
    decreases n,
{
    if n > 0 {
        lemma_max_count_upto(h, (n - 1) as nat);
        if n > 1 {
            let j = choose|j: int| 0 <= j < n - 1 && rank_count(h, #[trigger] h[j].rank) == max_count_upto(h, (n - 1) as nat);
            assert(0 <= j < n);
        }
        let last = (n - 1) as int;
        assert(rank_count(h, h[last].rank) <= max_count_upto(h, n));
    }
}

/// All five cards share one suit.
pub open spec fn one_suit(h: Seq<Card>) -> bool {
    h[1].suit == h[0].suit && h[2].suit == h[0].suit && h[3].suit == h[0].suit && h[4].suit == h[0].suit
}

/// Every rank lies between `lo` and four positions above it.
pub open spec fn spans_from(h: Seq<Card>, lo: u32) -> bool {
    forall|j: int| 0 <= j < 5 ==> lo <= #[trigger] h[j].rank <= lo * 16
}

/// The ranks lie within five adjacent positions from the lowest of them: with five
/// different ranks, they are those five positions.
pub open spec fn is_run(h: Seq<Card>) -> bool {
    exists|i: int| 0 <= i < 5 && #[trigger] spans_from(h, h[i].rank)
}

/// Every rank is an ace or at most five: with five different ranks, ace to five.
pub open spec fn is_wheel(h: Seq<Card>) -> bool {
    forall|j: int| 0 <= j < 5 ==> #[trigger] h[j].rank == ACE || h[j].rank <= 8
}

pub open spec fn has_ace(h: Seq<Card>) -> bool {
    exists|j: int| 0 <= j < 5 && #[trigger] h[j].rank == ACE
}

/// The category of five different ranks, before suits are looked at.
pub open spec fn straight_shape(h: Seq<Card>) -> Value {
    if is_run(h) {
        if has_ace(h) {
            Value::RoyalStraight
        } else {
            Value::Straight
        }
    } else if is_wheel(h) {
        Value::Straight
    } else {
        Value::HighCard
    }
}

/// The category that the ranks alone give.
pub open spec fn rank_shape(h: Seq<Card>) -> Value {
    let d = distinct_ranks(h);
    if d == 1 {
        Value::FiveOfAKind
    } else if d == 2 {
        if max_group(h) == 4 {
            Value::FourOfAKind
        } else {
            Value::FullHouse
        }
    } else if d == 3 {
        if max_group(h) == 3 {
            Value::ThreeOfAKind
        } else {
            Value::TwoPair
        }
    } else if d == 4 {
        Value::OnePair
    } else {
        straight_shape(h)
    }
}

/// The category of a hand: the rank shape, combined with whether it is a flush.
pub open spec fn hand_value(h: Seq<Card>) -> Value {
    let v = rank_shape(h);
    if one_suit(h) {
        match v {
            Value::FiveOfAKind => Value::FiveOfAKind,
            Value::RoyalStraight => Value::RoyalFlush,
            Value::Straight => Value::StraightFlush,
            Value::FourOfAKind => Value::FourOfAKind,
            Value::FullHouse => Value::FullHouse,
            _ => Value::Flush,
        }
    } else {
        match v {
            Value::RoyalStraight => Value::Straight,
            _ => v,
        }
    }
}

/// The suits collapse to a single bit exactly when the hand is a flush.
fn is_flush(hand: &[Card]) -> (r: bool)
    requires
        is_hand(hand@),
    ensures
        r == one_suit(hand@),
{
    let suits = hand[0].suit | hand[1].suit | hand[2].suit | hand[3].suit | hand[4].suit;
    proof {
        assert(hand@[0].wf() && hand@[1].wf() && hand@[2].wf() && hand@[3].wf() && hand@[4].wf());
        lemma_suit_union_single(hand@[0].suit, hand@[1].suit, hand@[2].suit, hand@[3].suit, hand@[4].suit);
    }
    suits.count_ones() == 1
}

/// The smaller and the larger of two values.
fn order(x: u32, y: u32) -> (r: (u32, u32))
    ensures
        r.0 <= r.1,
        (r.0 == x && r.1 == y) || (r.0 == y && r.1 == x),
{
    if x <= y {
        (x, y)
    } else {
        (y, x)
    }
}

pub open spec fn among5(x: u32, a: u32, b: u32, c: u32, d: u32, e: u32) -> bool {
    x == a || x == b || x == c || x == d || x == e
}

/// The five ranks of a hand in ascending order.
fn sorted_ranks(hand: &[Card]) -> (s: (u32, u32, u32, u32, u32))
    requires
        hand@.len() == 5,
    ensures
        s.0 <= s.1 <= s.2 <= s.3 <= s.4,
        forall|j: int|
            0 <= j < 5 ==> among5(#[trigger] hand@[j].rank, s.0, s.1, s.2, s.3, s.4),
        among5(s.0, hand@[0].rank, hand@[1].rank, hand@[2].rank, hand@[3].rank, hand@[4].rank),
        among5(s.1, hand@[0].rank, hand@[1].rank, hand@[2].rank, hand@[3].rank, hand@[4].rank),
        among5(s.2, hand@[0].rank, hand@[1].rank, hand@[2].rank, hand@[3].rank, hand@[4].rank),
        among5(s.3, hand@[0].rank, hand@[1].rank, hand@[2].rank, hand@[3].rank, hand@[4].rank),
        among5(s.4, hand@[0].rank, hand@[1].rank, hand@[2].rank, hand@[3].rank, hand@[4].rank),
{
    let (a, b) = order(hand[0].rank, hand[1].rank);
    let (d, e) = order(hand[3].rank, hand[4].rank);
    let (c, e) = order(hand[2].rank, e);
    let (c, d) = order(c, d);
    let (b, e) = order(b, e);
    let (a, d) = order(a, d);
    let (a, c) = order(a, c);
    let (b, d) = order(b, d);
    let (b, c) = order(b, c);
    (a, b, c, d, e)
}

/// Five different ranks: a straight (royal when it ends in the ace), or a high card.
fn check_straight(hand: &[Card]) -> (r: Value)
    requires
        is_hand(hand@),
        distinct_ranks(hand@) == 5,
    ensures
        r == straight_shape(hand@),
{
    let (s0, s1, s2, s3, s4) = sorted_ranks(hand);
    let ghost h = hand@;
    proof {
        assert(h[0].wf() && h[1].wf() && h[2].wf() && h[3].wf() && h[4].wf());
        assert(among5(h[0].rank, s0, s1, s2, s3, s4));
        assert(among5(h[1].rank, s0, s1, s2, s3, s4));
        assert(among5(h[2].rank, s0, s1, s2, s3, s4));
        assert(among5(h[3].rank, s0, s1, s2, s3, s4));
        assert(among5(h[4].rank, s0, s1, s2, s3, s4));
        assert(s0 < s1 < s2 < s3 < s4);
        assert(is_rank_bit(s0) && is_rank_bit(s1) && is_rank_bit(s2) && is_rank_bit(s3) && is_rank_bit(s4));
        lemma_run_top(s0, s1, s2, s3, s4);
        lemma_rank_at_most_ace(s4);
        if is_run(h) {
            let i = choose|i: int| 0 <= i < 5 && #[trigger] spans_from(h, h[i].rank);
            assert(h[i].rank <= s0);
            assert(s4 <= h[i].rank * 16);
        }
        if s0 * 16 == s4 {
            let i: int = if s0 == h[0].rank { 0 } else if s0 == h[1].rank { 1 } else if s0 == h[2].rank { 2 } else if s0 == h[3].rank { 3 } else { 4 };
            assert(spans_from(h, h[i].rank));
        }
        if has_ace(h) {
            let j = choose|j: int| 0 <= j < 5 && #[trigger] h[j].rank == ACE;
            assert(among5(h[j].rank, s0, s1, s2, s3, s4));
        }
        if s4 == ACE {
            assert(among5(s4, h[0].rank, h[1].rank, h[2].rank, h[3].rank, h[4].rank));
        }
        if is_wheel(h) {
            assert(s4 == ACE || s4 <= 8);
            assert(s3 == ACE || s3 <= 8);
        }
    }
    if s0 * 16 != s4 {
        if 8 == s3 && s4 == ACE {
            Value::Straight
        } else {
            Value::HighCard
        }
    } else if s4 == ACE {
        Value::RoyalStraight
    } else {
        Value::Straight
    }
}

/// The size of the largest group of cards that share a rank.
fn max_same_kind(hand: &[Card]) -> (r: usize)
    requires
        hand@.len() > 0,
    ensures
        r == max_group(hand@),
{
    let counts = tally_ranks(hand);
    let ghost h = hand@;
    let ghost m = ranks(h).to_multiset();
    proof {
        broadcast use vstd::seq_lib::group_to_multiset_ensures;

        assert(ranks(h).len() == h.len());
    }
    let top = top_count(&counts);
    proof {
        broadcast use vstd::seq_lib::group_to_multiset_ensures;

        lemma_max_count_upto(h, h.len());
        let x = choose|x: u32| m.count(x) == top;
        let j = choose|j: int| 0 <= j < h.len() && rank_count(h, #[trigger] h[j].rank) == max_group(h);
        assert(m.count(h[j].rank) <= top);
        assert(ranks(h)[0] == h[0].rank);
        assert(m.count(h[0].rank) > 0);
        assert(ranks(h).contains(x));
        let k = choose|k: int| 0 <= k < ranks(h).len() && ranks(h)[k] == x;
        assert(ranks(h)[k] == h[k].rank);
    }
    top
}

/// The category of a five-card hand.
pub fn get_hand_value(hand: &[Card]) -> (r: Value)
    requires
        is_hand(hand@),
    ensures
        r == hand_value(hand@),
        r != Value::RoyalStraight,
{
    let bit_ranks = hand[0].rank | hand[1].rank | hand[2].rank | hand[3].rank | hand[4].rank;
    proof {
        let h = hand@;
        assert(h[0].wf() && h[1].wf() && h[2].wf() && h[3].wf() && h[4].wf());
        lemma_rank_union_ones(h[0].rank, h[1].rank, h[2].rank, h[3].rank, h[4].rank);
    }
    let distinct = bit_ranks.count_ones();
    let value = if distinct == 1 {
        Value::FiveOfAKind
    } else if distinct == 2 {
        if max_same_kind(hand) == 4 {
            Value::FourOfAKind
        } else {
            Value::FullHouse
        }
    } else if distinct == 3 {
        if max_same_kind(hand) == 3 {
            Value::ThreeOfAKind
        } else {
            Value::TwoPair
        }
    } else if distinct == 4 {
        Value::OnePair
    } else {
        check_straight(hand)
    };
    match (value, is_flush(hand)) {
        (Value::RoyalStraight, true) => Value::RoyalFlush,
        (Value::Straight, true) => Value::StraightFlush,
        (Value::FiveOfAKind, _) => Value::FiveOfAKind,
        (Value::FourOfAKind, _) => Value::FourOfAKind,
        (Value::FullHouse, _) => Value::FullHouse,
        (_, true) => Value::Flush,
        (Value::RoyalStraight, false) => Value::Straight,
        (v, false) => v,
    }
}

/// Five cards of one rank are five of a kind, whatever their suits.
pub proof fn lemma_one_rank(h: Seq<Card>)
    requires
        is_hand(h),
        forall|i: int| 0 <= i < 5 ==> #[trigger] h[i].rank == h[0].rank,
    ensures
        hand_value(h) == Value::FiveOfAKind,
{
    assert(h[1].rank == h[0].rank && h[2].rank == h[0].rank && h[3].rank == h[0].rank && h[4].rank == h[0].rank);
}

/// Two ranks in groups of four and one are four of a kind; in groups of three and
/// two, a full house. A shared suit changes neither.
pub proof fn lemma_two_ranks(h: Seq<Card>)
    requires
        is_hand(h),
        distinct_ranks(h) == 2,
    ensures
        max_group(h) == 4 ==> hand_value(h) == Value::FourOfAKind,
        max_group(h) == 3 ==> hand_value(h) == Value::FullHouse,
{
}

/// Three ranks, not all of one suit, in groups of three, one and one are three of a
/// kind; in groups of two, two and one, two pair.
pub proof fn lemma_three_ranks(h: Seq<Card>)
    requires
        is_hand(h),
        distinct_ranks(h) == 3,
        !one_suit(h),
    ensures
        max_group(h) == 3 ==> hand_value(h) == Value::ThreeOfAKind,
        max_group(h) == 2 ==> hand_value(h) == Value::TwoPair,
{
}

/// Five different adjacent ranks of one suit are a straight flush, or a royal flush
/// when they run up to the ace.
pub proof fn lemma_run_of_one_suit(h: Seq<Card>)
    requires
        is_hand(h),
        distinct_ranks(h) == 5,
        is_run(h),
        one_suit(h),
    ensures
        hand_value(h) == (if has_ace(h) {
            Value::RoyalFlush
        } else {
            Value::StraightFlush
        }),
{
}

/// Ace, two, three, four and five of one suit are a straight flush: the ace counts
/// low, and the hand is no royal flush.
pub proof fn lemma_wheel_of_one_suit(h: Seq<Card>)
    requires
        is_hand(h),
        distinct_ranks(h) == 5,
        is_wheel(h),
        one_suit(h),
    ensures
        hand_value(h) == Value::StraightFlush,
{
    assert(h[0].wf() && h[1].wf() && h[2].wf() && h[3].wf() && h[4].wf());
    assert forall|j: int| 0 <= j < 5 implies #[trigger] h[j].rank == ACE || h[j].rank == 1 || h[j].rank == 2
        || h[j].rank == 4 || h[j].rank == 8 by {
        if h[j].rank != ACE {
            lemma_low_rank(h[j].rank);
        }
    }
    if is_run(h) {
        let i = choose|i: int| 0 <= i < 5 && #[trigger] spans_from(h, h[i].rank);
        assert(h[0].rank <= h[i].rank * 16 && h[1].rank <= h[i].rank * 16 && h[2].rank <= h[i].rank * 16);
        assert(h[i].rank <= h[0].rank && h[i].rank <= h[1].rank && h[i].rank <= h[2].rank);
        assert(h[3].rank <= h[i].rank * 16 && h[4].rank <= h[i].rank * 16);
        assert(h[i].rank <= h[3].rank && h[i].rank <= h[4].rank);
        assert(false);
    }
}

} // verus!
