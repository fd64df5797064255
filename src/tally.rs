//! Counters of the `counter` crate: rank tallies of a hand and histograms of hand values.
use vstd::prelude::*;
use vstd::multiset::Multiset;
use counter::Counter;
use crate::card::{Card, Value};
use crate::classify::ranks;

verus! {

#[verifier::external_type_specification]
#[verifier::external_body]
#[verifier::reject_recursive_types(T)]
#[verifier::reject_recursive_types(N)]
#[verifier::reject_recursive_types(S)]
pub struct ExCounter<T, N, S>(Counter<T, N, S>);

/// How often each rank occurs in a rank counter.
pub uninterp spec fn rank_tally(c: Counter<u32, usize>) -> Multiset<u32>;

/// How often each hand value occurs in a histogram.
pub uninterp spec fn histogram_of(c: Counter<Value, usize>) -> Multiset<Value>;

/// Relies on `Counter`'s `FromIterator`: each rank drawn from the cards is counted once.
#[verifier::external_body]
pub(crate) fn tally_ranks(hand: &[Card]) -> (r: Counter<u32, usize>)
    ensures
        rank_tally(r) == ranks(hand@).to_multiset(),
{
    hand.iter().map(|card| card.rank).collect::<Counter<_>>()
}

/// Relies on `Counter::k_most_common_ordered(1)`: on a non-empty counter its single
/// entry holds a largest count.
#[verifier::external_body]
pub(crate) fn top_count(c: &Counter<u32, usize>) -> (r: usize)
    requires
        rank_tally(*c).len() > 0,
    ensures
        exists|x: u32| rank_tally(*c).count(x) == r,
        forall|x: u32| #[trigger] rank_tally(*c).count(x) <= r,
{
    c.k_most_common_ordered(1)[0].1
}

/// Relies on `Counter::update`: each item of the iterable adds one to its count.
#[verifier::external_body]
pub(crate) fn record(c: &mut Counter<Value, usize>, v: Value)
    requires
        histogram_of(*old(c)).count(v) < usize::MAX,
    ensures
        histogram_of(*final(c)) == histogram_of(*old(c)).insert(v),
{
    c.update(std::iter::once(v))
}

/// Relies on `Counter`'s `Extend<(&T, &N)>`: the counts of `b` are added to those of `a`.
#[verifier::external_body]
pub(crate) fn add_counts(a: &mut Counter<Value, usize>, b: &Counter<Value, usize>)
    requires
        forall|v: Value| #[trigger] histogram_of(*old(a)).count(v) + histogram_of(*b).count(v) <= usize::MAX,
    ensures
        histogram_of(*final(a)) == histogram_of(*old(a)).add(histogram_of(*b)),
{
    a.extend(b)
}

} // verus!
