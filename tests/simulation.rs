use cardstats::{simulate_hands, Value};

#[test]
fn total_is_rounded_down_to_whole_decks() {
    let counts = simulate_hands(25);
    assert_eq!(counts.total::<usize>(), 20);
}

#[test]
fn fewer_than_ten_hands_give_an_empty_histogram() {
    let counts = simulate_hands(9);
    assert_eq!(counts.total::<usize>(), 0);
    let counts = simulate_hands(0);
    assert_eq!(counts.total::<usize>(), 0);
}

#[test]
fn exact_multiple_of_ten_is_kept() {
    let counts = simulate_hands(1000);
    assert_eq!(counts.total::<usize>(), 1000);
    assert!(counts.keys().all(|v| *v != Value::FiveOfAKind));
}

#[test]
fn one_pair_frequency_converges() {
    let counts = simulate_hands(200_000);
    let total = counts.total::<usize>();
    assert_eq!(total, 200_000);
    let pairs = counts[&Value::OnePair] as f64 / total as f64;
    assert!((pairs - 0.4226).abs() < 0.01, "one pair frequency {}", pairs);
    let high = counts[&Value::HighCard] as f64 / total as f64;
    assert!((high - 0.5012).abs() < 0.01, "high card frequency {}", high);
}

#[test]
fn one_deck_adds_ten_hands() {
    let counts = cardstats::simulate::deal_shuffled_deck(counter::Counter::new());
    assert_eq!(counts.total::<usize>(), 10);
    let again = cardstats::simulate::deal_shuffled_deck(counts);
    assert_eq!(again.total::<usize>(), 20);
}

#[test]
fn merging_adds_counts_pointwise() {
    let a = simulate_hands(500);
    let b = simulate_hands(300);
    let expected: Vec<(Value, usize)> = [Value::OnePair, Value::HighCard, Value::TwoPair]
        .iter()
        .map(|v| (*v, a[v] + b[v]))
        .collect();
    let merged = cardstats::simulate::merge_histograms(a, b);
    assert_eq!(merged.total::<usize>(), 800);
    for (v, n) in expected {
        assert_eq!(merged[&v], n);
    }
}

#[test]
fn dealing_a_fresh_deck_in_order() {
    let deck = cardstats::Deck::standard();
    let counts = cardstats::simulate::deal_deck(&deck, counter::Counter::new());
    assert_eq!(counts.total::<usize>(), 10);
    // Suit-major order: seven hands are five adjacent ranks of one suit; of the
    // three that cross into the next suit, ace to five is a straight and the
    // other two are high cards.
    assert_eq!(counts[&Value::StraightFlush], 7);
    assert_eq!(counts[&Value::HighCard], 2);
    assert_eq!(counts[&Value::Straight], 1);
}
