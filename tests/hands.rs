use cardstats::{get_hand_value, Card, Value};

const CLUBS: u8 = 1;
const DIAMONDS: u8 = 2;
const HEARTS: u8 = 4;
const SPADES: u8 = 8;

/// The rank bit of a face value from 2 (lowest) to 14 (ace).
fn rank(face: u32) -> u32 {
    1 << (face - 2)
}

fn card(face: u32, suit: u8) -> Card {
    Card { rank: rank(face), suit }
}

fn value_of(cards: [(u32, u8); 5]) -> Value {
    let hand: Vec<Card> = cards.iter().map(|&(f, s)| card(f, s)).collect();
    get_hand_value(&hand)
}

#[test]
fn two_pair_example() {
    let v = value_of([(2, CLUBS), (2, DIAMONDS), (7, SPADES), (7, HEARTS), (9, CLUBS)]);
    assert_eq!(v, Value::TwoPair);
}

#[test]
fn royal_flush_example() {
    let v = value_of([(10, SPADES), (11, SPADES), (12, SPADES), (13, SPADES), (14, SPADES)]);
    assert_eq!(v, Value::RoyalFlush);
}

#[test]
fn royal_flush_in_any_order() {
    let v = value_of([(14, HEARTS), (12, HEARTS), (10, HEARTS), (13, HEARTS), (11, HEARTS)]);
    assert_eq!(v, Value::RoyalFlush);
}

#[test]
fn five_of_a_kind() {
    let v = value_of([(7, CLUBS), (7, DIAMONDS), (7, HEARTS), (7, SPADES), (7, CLUBS)]);
    assert_eq!(v, Value::FiveOfAKind);
}

#[test]
fn five_of_a_kind_of_one_suit() {
    let v = value_of([(7, SPADES), (7, SPADES), (7, SPADES), (7, SPADES), (7, SPADES)]);
    assert_eq!(v, Value::FiveOfAKind);
}

#[test]
fn four_of_a_kind() {
    let v = value_of([(9, CLUBS), (9, DIAMONDS), (9, HEARTS), (9, SPADES), (3, CLUBS)]);
    assert_eq!(v, Value::FourOfAKind);
}

#[test]
fn four_of_a_kind_is_kept_under_one_suit() {
    let v = value_of([(9, CLUBS), (9, CLUBS), (9, CLUBS), (9, CLUBS), (3, CLUBS)]);
    assert_eq!(v, Value::FourOfAKind);
}

#[test]
fn full_house() {
    let v = value_of([(4, CLUBS), (4, DIAMONDS), (4, HEARTS), (13, SPADES), (13, CLUBS)]);
    assert_eq!(v, Value::FullHouse);
}

#[test]
fn full_house_is_kept_under_one_suit() {
    let v = value_of([(4, HEARTS), (4, HEARTS), (4, HEARTS), (13, HEARTS), (13, HEARTS)]);
    assert_eq!(v, Value::FullHouse);
}

#[test]
fn three_of_a_kind() {
    let v = value_of([(12, CLUBS), (12, DIAMONDS), (12, HEARTS), (5, SPADES), (8, CLUBS)]);
    assert_eq!(v, Value::ThreeOfAKind);
}

#[test]
fn three_of_a_kind_of_one_suit_is_a_flush() {
    let v = value_of([(12, CLUBS), (12, CLUBS), (12, CLUBS), (5, CLUBS), (8, CLUBS)]);
    assert_eq!(v, Value::Flush);
}

#[test]
fn one_pair() {
    let v = value_of([(3, CLUBS), (3, DIAMONDS), (6, HEARTS), (10, SPADES), (14, CLUBS)]);
    assert_eq!(v, Value::OnePair);
}

#[test]
fn high_card() {
    let v = value_of([(2, CLUBS), (3, DIAMONDS), (4, HEARTS), (5, SPADES), (7, CLUBS)]);
    assert_eq!(v, Value::HighCard);
}

#[test]
fn flush() {
    let v = value_of([(2, DIAMONDS), (5, DIAMONDS), (8, DIAMONDS), (11, DIAMONDS), (13, DIAMONDS)]);
    assert_eq!(v, Value::Flush);
}

#[test]
fn straight() {
    let v = value_of([(5, CLUBS), (6, DIAMONDS), (7, HEARTS), (8, SPADES), (9, CLUBS)]);
    assert_eq!(v, Value::Straight);
}

#[test]
fn straight_flush() {
    let v = value_of([(9, CLUBS), (5, CLUBS), (7, CLUBS), (8, CLUBS), (6, CLUBS)]);
    assert_eq!(v, Value::StraightFlush);
}

#[test]
fn top_straight_without_flush_is_a_straight() {
    let v = value_of([(10, CLUBS), (11, DIAMONDS), (12, HEARTS), (13, SPADES), (14, CLUBS)]);
    assert_eq!(v, Value::Straight);
}

#[test]
fn low_ace_straight() {
    let v = value_of([(14, CLUBS), (2, DIAMONDS), (3, HEARTS), (4, SPADES), (5, CLUBS)]);
    assert_eq!(v, Value::Straight);
}

#[test]
fn low_ace_straight_flush() {
    let v = value_of([(3, SPADES), (14, SPADES), (5, SPADES), (2, SPADES), (4, SPADES)]);
    assert_eq!(v, Value::StraightFlush);
}

#[test]
fn ace_with_two_to_four_and_six_is_high_card() {
    let v = value_of([(14, CLUBS), (2, DIAMONDS), (3, HEARTS), (4, SPADES), (6, CLUBS)]);
    assert_eq!(v, Value::HighCard);
}

#[test]
fn king_high_run_is_a_straight_not_royal() {
    let v = value_of([(9, HEARTS), (10, HEARTS), (11, HEARTS), (12, HEARTS), (13, HEARTS)]);
    assert_eq!(v, Value::StraightFlush);
}

#[test]
fn every_five_card_hand_of_one_deck() {
    let cards = cardstats::Deck::standard().cards;
    let mut counts = std::collections::HashMap::new();
    for a in 0..52 {
        for b in a + 1..52 {
            for c in b + 1..52 {
                for d in c + 1..52 {
                    for e in d + 1..52 {
                        let hand = [cards[a], cards[b], cards[c], cards[d], cards[e]];
                        *counts.entry(get_hand_value(&hand)).or_insert(0usize) += 1;
                    }
                }
            }
        }
    }
    let expected = [
        (Value::HighCard, 1302540),
        (Value::OnePair, 1098240),
        (Value::TwoPair, 123552),
        (Value::ThreeOfAKind, 54912),
        (Value::Straight, 10200),
        (Value::Flush, 5108),
        (Value::FullHouse, 3744),
        (Value::FourOfAKind, 624),
        (Value::StraightFlush, 36),
        (Value::RoyalFlush, 4),
    ];
    for (v, n) in expected {
        assert_eq!(counts.get(&v).copied().unwrap_or(0), n, "{:?}", v);
    }
    assert_eq!(counts.values().sum::<usize>(), 2598960);
}
