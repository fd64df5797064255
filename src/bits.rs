//! Bit-level facts about one-hot rank and suit encodings.
use vstd::prelude::*;

verus! {

/// Bit `i` of `x`, as 0 or 1.
pub open spec fn bit_at(x: u32, i: u32) -> u32 {
    (x >> i) & 1
}

pub open spec fn ones_in_byte(x: u32) -> int {
    bit_at(x, 0) + bit_at(x, 1) + bit_at(x, 2) + bit_at(x, 3) + bit_at(x, 4) + bit_at(x, 5)
        + bit_at(x, 6) + bit_at(x, 7)
}

/// The number of set bits of `x`.
pub open spec fn ones(x: u32) -> int {
    ones_in_byte(x) + ones_in_byte(x >> 8) + ones_in_byte(x >> 16) + ones_in_byte(x >> 24)
}

/// Relies on `u32::count_ones`: the number of one bits in the binary form of the value.
pub assume_specification[ u32::count_ones ](x: u32) -> (r: u32)
    ensures
        r as int == ones(x),
;

/// Relies on `u8::count_ones`: the number of one bits in the binary form of the value.
pub assume_specification[ u8::count_ones ](x: u8) -> (r: u32)
    ensures
        r as int == ones(x as u32),
;

/// A one-hot rank: exactly one of the low 13 bits is set.
pub open spec fn is_rank_bit(r: u32) -> bool {
    0 < r < 0x2000 && r & ((r - 1) as u32) == 0
}

/// A one-hot suit: exactly one of the low 4 bits is set.
pub open spec fn is_suit_bit(s: u8) -> bool {
    0 < s < 0x10 && s & ((s - 1) as u8) == 0
}

pub open spec fn fresh(b: bool) -> int {
    if b {
        1
    } else {
        0
    }
}

/// How many different values occur among five: one for each value that is unequal
/// to every value before it.
pub open spec fn distinct5(a: u32, b: u32, c: u32, d: u32, e: u32) -> int {
    1 + fresh(b != a) + fresh(c != a && c != b) + fresh(d != a && d != b && d != c) + fresh(
        e != a && e != b && e != c && e != d,
    )
}

/// The union of five one-hot ranks has one bit for each different rank among them.
pub proof fn lemma_rank_union_ones(a: u32, b: u32, c: u32, d: u32, e: u32)
    by (bit_vector)
    requires
        is_rank_bit(a),
        is_rank_bit(b),
        is_rank_bit(c),
        is_rank_bit(d),
        is_rank_bit(e),
    ensures
        ones(a | b | c | d | e) == distinct5(a, b, c, d, e),
{
}

/// The union of five one-hot suits has a single bit exactly when all five are equal.
pub proof fn lemma_suit_union_single(a: u8, b: u8, c: u8, d: u8, e: u8)
    by (bit_vector)
    requires
        is_suit_bit(a),
        is_suit_bit(b),
        is_suit_bit(c),
        is_suit_bit(d),
        is_suit_bit(e),
    ensures
        (ones((a | b | c | d | e) as u32) == 1) == (a == b && a == c && a == d && a == e),
{
}

/// Five strictly increasing one-hot ranks that all lie within four positions of the
/// lowest are the five adjacent ranks starting at the lowest.
pub proof fn lemma_run_top(a: u32, b: u32, c: u32, d: u32, e: u32)
    by (bit_vector)
    requires
        is_rank_bit(a),
        is_rank_bit(b),
        is_rank_bit(c),
        is_rank_bit(d),
        is_rank_bit(e),
        a < b < c < d < e,
    ensures
        (e <= a * 16) == (e == a * 16),
        e == a * 16 ==> b == a * 2 && c == a * 4 && d == a * 8,
        d == 8 ==> a == 1 && b == 2 && c == 4,
        d >= 8 && e >= 16,
{
}

/// The one-hot ranks up to five are the four lowest.
pub proof fn lemma_low_rank(r: u32)
    by (bit_vector)
    requires
        is_rank_bit(r),
        r <= 8,
    ensures
        r == 1 || r == 2 || r == 4 || r == 8,
{
}

/// The highest one-hot rank is the ace's bit.
pub proof fn lemma_rank_at_most_ace(r: u32)
    by (bit_vector)
    requires
        is_rank_bit(r),
    ensures
        r <= 0x1000,
{
}

/// The position of a one-hot rank's bit.
pub open spec fn rank_index(r: u32) -> u32 {
    if r == 0x1 { 0 } else if r == 0x2 { 1 } else if r == 0x4 { 2 } else if r == 0x8 { 3 }
    else if r == 0x10 { 4 } else if r == 0x20 { 5 } else if r == 0x40 { 6 } else if r == 0x80 { 7 }
    else if r == 0x100 { 8 } else if r == 0x200 { 9 } else if r == 0x400 { 10 }
    else if r == 0x800 { 11 } else { 12 }
}

/// The position of a one-hot suit's bit.
pub open spec fn suit_index(s: u8) -> u8 {
    if s == 0x1 { 0 } else if s == 0x2 { 1 } else if s == 0x4 { 2 } else { 3 }
}

/// Setting one of the low 13 bits gives a one-hot rank, and each rank is one of those.
pub proof fn lemma_rank_shift(k: u32, r: u32)
    by (bit_vector)
    ensures
        k < 13 ==> is_rank_bit(1u32 << k) && rank_index(1u32 << k) == k,
        is_rank_bit(r) ==> rank_index(r) < 13 && 1u32 << rank_index(r) == r,
{
}

/// Setting one of the low 4 bits gives a one-hot suit, and each suit is one of those.
pub proof fn lemma_suit_shift(k: u8, s: u8)
    by (bit_vector)
    ensures
        k < 4 ==> is_suit_bit(1u8 << k) && suit_index(1u8 << k) == k,
        is_suit_bit(s) ==> suit_index(s) < 4 && 1u8 << suit_index(s) == s,
{
}

} // verus!
