//! Repeated shuffle, deal and classify cycles, merged into one histogram.
use vstd::prelude::*;
use vstd::multiset::Multiset;
use counter::Counter;
use rayon::prelude::{IntoParallelIterator, ParallelIterator};
use crate::card::{lemma_full_deck_cards, standard_deck, Card, Deck, Value};
use crate::classify::{get_hand_value, hand_value};
use crate::tally::{add_counts, histogram_of, record};

verus! {

/// Disjoint five-card hands dealt from one deck; the last two cards are left over.
pub const HANDS_PER_SHUFFLE: usize = 52 / 5;

/// The values of the first `k` consecutive five-card hands of `d`.
pub open spec fn dealt_values(d: Seq<Card>, k: nat) -> Multiset<Value>
    decreases k,
{
    if k == 0 {
        Multiset::empty()
    } else {
        dealt_values(d, (k - 1) as nat).insert(hand_value(d.subrange(5 * (k - 1), 5 * k as int)))
    }
}

/// The values of the ten hands of every deck in `decks`, together.
pub open spec fn dealt_from(decks: Seq<Seq<Card>>) -> Multiset<Value>
    decreases decks.len(),
{
    if decks.len() == 0 {
        Multiset::empty()
    } else {
        dealt_from(decks.drop_last()).add(dealt_values(decks.last(), 10))
    }
}

/// Each of `decks` holds exactly the 52 standard cards, in some order.
pub open spec fn all_full_decks(decks: Seq<Seq<Card>>) -> bool {
    forall|i: int| 0 <= i < decks.len() ==> (#[trigger] decks[i]).to_multiset() == standard_deck().to_multiset()
}

/// `counts` holds the values of the ten hands of each of `n` shuffled standard decks.
pub open spec fn is_deal_of(counts: Multiset<Value>, n: nat) -> bool {
    exists|decks: Seq<Seq<Card>>|
        decks.len() == n && all_full_decks(decks) && counts == #[trigger] dealt_from(decks)
}

/// The number of hands classified for a request of `reps`: whole decks only.
pub open spec fn hands_processed(reps: int) -> int {
    reps / 10 * 10
}

proof fn lemma_dealt_len(d: Seq<Card>, k: nat)
    ensures
        dealt_values(d, k).len() == k,
    decreases k,
{
    broadcast use vstd::multiset::group_multiset_properties;

    if k > 0 {
        lemma_dealt_len(d, (k - 1) as nat);
    }
}

proof fn lemma_dealt_from_len(decks: Seq<Seq<Card>>)
    ensures
        dealt_from(decks).len() == 10 * decks.len(),
    decreases decks.len(),
{
    if decks.len() > 0 {
        lemma_dealt_from_len(decks.drop_last());
        lemma_dealt_len(decks.last(), 10);
    }
}

/// Classifies the ten disjoint five-card hands at the front of `deck` and adds them
/// to `counts`; the last two cards are not dealt.
pub fn deal_deck(deck: &Deck, counts: Counter<Value, usize>) -> (r: Counter<Value, usize>)
    requires
        deck.wf(),
        histogram_of(counts).len() + 10 <= usize::MAX,
    ensures
        histogram_of(r) == histogram_of(counts).add(dealt_values(deck.cards@, 10)),
        histogram_of(r).len() == histogram_of(counts).len() + 10,
{
    let ghost d = deck.cards@;
    proof {
        lemma_full_deck_cards(d);
    }
    let mut counts = counts;
    let ghost before = histogram_of(counts);
    let mut k: usize = 0;
    while k < HANDS_PER_SHUFFLE
        invariant
            k <= 10,
            deck.cards@ == d,
            d.len() == 52,
            forall|i: int| 0 <= i < 52 ==> (#[trigger] d[i]).wf(),
            histogram_of(counts) == before.add(dealt_values(d, k as nat)),
            before.len() + 10 <= usize::MAX,
        decreases 10 - k,
    {
        let hand = vstd::slice::slice_subrange(deck.cards.as_slice(), 5 * k, 5 * k + 5);
        assert(hand@ == d.subrange(5 * k as int, 5 * k + 5));
        let v = get_hand_value(hand);
        proof {
            lemma_dealt_len(d, k as nat);
            assert(histogram_of(counts).count(v) <= histogram_of(counts).len());
        }
        record(&mut counts, v);
        assert(histogram_of(counts) =~= before.add(dealt_values(d, (k + 1) as nat)));
        k += 1;
    }
    proof {
        lemma_dealt_len(d, 10);
    }
    counts
}

/// Shuffles a fresh standard deck, classifies its ten disjoint hands, and adds them
/// to `counts`.
pub fn deal_shuffled_deck(counts: Counter<Value, usize>) -> (r: Counter<Value, usize>)
    requires
        histogram_of(counts).len() + 10 <= usize::MAX,
    ensures
        exists|d: Seq<Card>|
            d.to_multiset() == standard_deck().to_multiset() && histogram_of(r) == histogram_of(
                counts,
            ).add(#[trigger] dealt_values(d, 10)),
        histogram_of(r).len() == histogram_of(counts).len() + 10,
{
    let mut deck = Deck::standard();
    deck.shuffle();
    deal_deck(&deck, counts)
}

/// The pointwise sum of two histograms.
pub fn merge_histograms(a: Counter<Value, usize>, b: Counter<Value, usize>) -> (r: Counter<
    Value,
    usize,
>)
    requires
        histogram_of(a).len() + histogram_of(b).len() <= usize::MAX,
    ensures
        histogram_of(r) == histogram_of(a).add(histogram_of(b)),
{
    let mut a = a;
    add_counts(&mut a, &b);
    a
}

/// Relies on rayon's `into_par_iter`, `fold` and `reduce` over `0..n`: each index is
/// folded exactly once into one of the partial histograms, and `reduce` merges all of
/// them, so the result counts the ten hands of each of the `n` shuffled decks.
#[verifier::external_body]
fn deal_decks_in_parallel(n: usize) -> (r: Counter<Value, usize>)
    requires
        10 * n <= usize::MAX,
    ensures
        is_deal_of(histogram_of(r), n as nat),
{
    (0..n).into_par_iter().fold(Counter::new, |counts, _| deal_shuffled_deck(counts)).reduce(
        Counter::new,
        merge_histograms,
    )
}

/// Classifies about `reps` random hands, ten from each shuffled deck, and returns how
/// often each value came up.
pub fn simulate_hands(reps: usize) -> (r: Counter<Value, usize>)
    ensures
        is_deal_of(histogram_of(r), (reps / 10) as nat),
        histogram_of(r).len() == hands_processed(reps as int),
{
    let outer_reps = reps / HANDS_PER_SHUFFLE;
    let counts = deal_decks_in_parallel(outer_reps);
    proof {
        let decks = choose|decks: Seq<Seq<Card>>|
            decks.len() == outer_reps && all_full_decks(decks) && histogram_of(counts) == #[trigger] dealt_from(decks);
        lemma_dealt_from_len(decks);
    }
    counts
}

/// The histogram's total is the number of hands processed, a multiple of ten, never
/// more than asked for, and positive once ten hands or more are asked for.
pub proof fn lemma_hands_processed(reps: int)
    requires
        reps >= 0,
    ensures
        hands_processed(reps) % 10 == 0,
        hands_processed(reps) <= reps,
        reps >= 10 ==> hands_processed(reps) >= 10,
{
}

} // verus!
