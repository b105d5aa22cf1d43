//! Mathematical helpers used throughout the contracts: little-endian byte
//! values, decimal renderings of unbounded naturals, and sums of sequences.

use vstd::prelude::*;

verus! {

/// The value of a little-endian byte string, read as an unsigned integer.
pub open spec fn le_val(s: Seq<u8>) -> nat
    decreases s.len(),
{
    if s.len() == 0 {
        0
    } else {
        (s[0] as nat) + 256 * le_val(s.skip(1))
    }
}

/// The ASCII character for a single decimal digit.
pub open spec fn dec_digit(d: nat) -> char {
    if d == 0 {
        '0'
    } else if d == 1 {
        '1'
    } else if d == 2 {
        '2'
    } else if d == 3 {
        '3'
    } else if d == 4 {
        '4'
    } else if d == 5 {
        '5'
    } else if d == 6 {
        '6'
    } else if d == 7 {
        '7'
    } else if d == 8 {
        '8'
    } else {
        '9'
    }
}

/// The decimal rendering of a natural number: no sign, no leading zeros,
/// a single `'0'` for zero.
pub open spec fn dec_str(n: nat) -> Seq<char>
    decreases n,
{
    if n < 10 {
        seq![dec_digit(n)]
    } else {
        dec_str(n / 10).push(dec_digit(n % 10))
    }
}

/// The sum of a sequence of naturals.
pub open spec fn sum_seq(s: Seq<nat>) -> nat
    decreases s.len(),
{
    if s.len() == 0 {
        0
    } else {
        sum_seq(s.drop_last()) + s.last()
    }
}

/// A byte sequence reinterpreted as a sequence of naturals.
pub open spec fn nat_seq(s: Seq<u8>) -> Seq<nat> {
    s.map_values(|b: u8| b as nat)
}

/// All entries of the sequence are bits (zero or one).
pub open spec fn all_bits(s: Seq<nat>) -> bool {
    forall|i: int| 0 <= i < s.len() ==> s[i] <= 1
}

pub proof fn lemma_nat_seq_push(s: Seq<u8>, v: u8)
    ensures
        nat_seq(s.push(v)) == nat_seq(s).push(v as nat),
{
    assert(nat_seq(s.push(v)) =~= nat_seq(s).push(v as nat));
}

pub proof fn lemma_sum_push(s: Seq<nat>, x: nat)
    ensures
        sum_seq(s.push(x)) == sum_seq(s) + x,
{
    assert(s.push(x).drop_last() =~= s);
    assert(s.push(x).last() == x);
}

pub proof fn lemma_sum_bound(s: Seq<nat>)
    requires
        all_bits(s),
    ensures
        sum_seq(s) <= s.len(),
    decreases s.len(),
{
    if s.len() > 0 {
        lemma_sum_bound(s.drop_last());
    }
}

}
