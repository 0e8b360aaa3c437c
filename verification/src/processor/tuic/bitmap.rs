//! A set of fragment numbers below 128, kept in the bits of a `u128`.

use vstd::prelude::*;

verus! {

/// Whether bit `i` of `bitmap` is set.
pub open spec fn bit_is_set(bitmap: u128, i: u8) -> bool {
    (bitmap >> (i as u128)) & 1 == 1
}

/// How many of the bits below `n` are set.
pub open spec fn popcount_below(bitmap: u128, n: nat) -> nat
    decreases n,
{
    if n == 0 {
        0
    } else {
        popcount_below(bitmap, (n - 1) as nat) + if bit_is_set(bitmap, (n - 1) as u8) {
            1nat
        } else {
            0nat
        }
    }
}

/// How many bits of `bitmap` are set.
pub open spec fn popcount(bitmap: u128) -> nat {
    popcount_below(bitmap, 128)
}

/// `bitmap` with bit `i` set.
pub open spec fn with_bit(bitmap: u128, i: u8) -> u128 {
    bitmap | (1u128 << (i as u128))
}

/// Setting bit `i` changes bit `i` and no other.
pub proof fn lemma_with_bit(bitmap: u128, i: u8, j: u8)
    requires
        i < 128,
        j < 128,
    ensures
        bit_is_set(with_bit(bitmap, i), j) == (j == i || bit_is_set(bitmap, j)),
{
    let a: u128 = i as u128;
    let b: u128 = j as u128;
    assert(((bitmap | (1u128 << a)) >> b) & 1 == 1 <==> (b == a || (bitmap >> b) & 1 == 1))
        by (bit_vector)
        requires
            a < 128,
            b < 128,
    ;
}

/// No bit of 0 is set.
pub proof fn lemma_zero_bits(j: u8)
    requires
        j < 128,
    ensures
        !bit_is_set(0, j),
{
    let b: u128 = j as u128;
    assert((0u128 >> b) & 1 == 0) by (bit_vector)
        requires
            b < 128,
    ;
}

/// `u128::count_ones` of std: the number of ones in the binary form of
/// `bitmap`.
#[verifier::external_body]
pub(crate) fn count_ones(bitmap: u128) -> (n: u32)
    ensures
        n == popcount(bitmap),
{
    bitmap.count_ones()
}

/// Whether bit `i` is set.
pub fn test_bit(bitmap: u128, i: u8) -> (r: bool)
    requires
        i < 128,
    ensures
        r == bit_is_set(bitmap, i),
{
    (bitmap >> (i as u128)) & 1 == 1
}

/// Sets bit `i`.
pub fn set_bit(bitmap: u128, i: u8) -> (r: u128)
    requires
        i < 128,
    ensures
        r == with_bit(bitmap, i),
{
    bitmap | (1u128 << (i as u128))
}

} // verus!
