use cardstats::{Deck, ACE};

fn pairs(deck: &Deck) -> Vec<(u32, u8)> {
    deck.cards.iter().map(|c| (c.rank, c.suit)).collect()
}

#[test]
fn standard_deck_has_every_card_once() {
    let deck = Deck::standard();
    assert_eq!(deck.cards.len(), 52);
    let mut all = pairs(&deck);
    all.sort();
    all.dedup();
    assert_eq!(all.len(), 52);
    for k in 0..13u32 {
        let n = deck.cards.iter().filter(|c| c.rank == 1 << k).count();
        assert_eq!(n, 4);
    }
    for k in 0..4u32 {
        let n = deck.cards.iter().filter(|c| c.suit == 1 << k).count();
        assert_eq!(n, 13);
    }
}

#[test]
fn standard_deck_is_in_suit_major_order() {
    let deck = Deck::standard();
    assert_eq!((deck.cards[0].rank, deck.cards[0].suit), (1, 1));
    assert_eq!((deck.cards[12].rank, deck.cards[12].suit), (ACE, 1));
    assert_eq!((deck.cards[13].rank, deck.cards[13].suit), (1, 2));
    assert_eq!((deck.cards[51].rank, deck.cards[51].suit), (ACE, 8));
}

#[test]
fn shuffle_keeps_the_cards() {
    let mut deck = Deck::standard();
    let mut before = pairs(&deck);
    deck.shuffle();
    let mut after = pairs(&deck);
    assert_eq!(after.len(), 52);
    before.sort();
    after.sort();
    assert_eq!(before, after);
}

#[test]
fn shuffle_reorders_the_cards() {
    let standard = pairs(&Deck::standard());
    let mut deck = Deck::standard();
    deck.shuffle();
    let first = pairs(&deck);
    deck.shuffle();
    let second = pairs(&deck);
    assert!(first != standard || second != standard);
}
