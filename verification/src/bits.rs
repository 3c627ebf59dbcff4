//! Bit-level views of register words

use vstd::prelude::*;

verus! {

/// Bit `b` of `w` is set
pub open spec fn bit(w: u32, b: int) -> bool {
    ((w >> (b as u32)) & 1u32) == 1u32
}

/// Number of set bits of `w` among bits `0..n`
pub open spec fn bits_set_below(w: u32, n: nat) -> nat
    decreases n,
{
    if n == 0 {
        0
    } else {
        bits_set_below(w, (n - 1) as nat) + if bit(w, n - 1) {
            1nat
        } else {
            0nat
        }
    }
}

/// Number of set bits of `w`
pub open spec fn popcount(w: u32) -> nat {
    bits_set_below(w, 32)
}

/// At most `n` of the bits `0..n` are set
pub proof fn lemma_bits_set_below_bound(w: u32, n: nat)
    ensures
        bits_set_below(w, n) <= n,
    decreases n,
{
    if n > 0 {
        lemma_bits_set_below_bound(w, (n - 1) as nat);
    }
}

/// A byte has at most 8 bits set: none of the bits above bit 7 is set
pub proof fn lemma_popcount_byte(w: u32, n: nat)
    requires
        w < 256,
        8 <= n <= 32,
    ensures
        bits_set_below(w, n) == bits_set_below(w, 8),
        bits_set_below(w, n) <= 8,
    decreases n,
{
    lemma_bits_set_below_bound(w, 8);
    if n > 8 {
        lemma_popcount_byte(w, (n - 1) as nat);
        let b = (n - 1) as u32;
        assert((w >> b) & 1u32 == 0u32) by (bit_vector)
            requires
                w < 256,
                8 <= b,
        ;
    }
}

/// A bit is either set or clear
pub proof fn lemma_bit_value(w: u32, b: u32)
    requires
        b < 32,
    ensures
        (w >> b) & 1u32 == 1u32 || (w >> b) & 1u32 == 0u32,
{
    assert((w >> b) & 1u32 == 1u32 || (w >> b) & 1u32 == 0u32) by (bit_vector);
}

/// Testing a bit with a one-hot mask agrees with `bit`
pub proof fn lemma_mask_test(w: u32, b: u32)
    requires
        b < 32,
    ensures
        (w & (1u32 << b) != 0u32) == bit(w, b as int),
{
    assert((w & (1u32 << b) != 0u32) == (((w >> b) & 1u32) == 1u32)) by (bit_vector)
        requires
            b < 32,
    ;
}

/// Clearing bit `t` leaves every other bit as it was
pub proof fn lemma_clear_bit(w: u32, t: u32, b: u32)
    requires
        t < 32,
        b < 32,
    ensures
        bit(w & !(1u32 << t), b as int) == (bit(w, b as int) && b != t),
{
    assert((((w & !(1u32 << t)) >> b) & 1u32 == 1u32) == (((w >> b) & 1u32) == 1u32 && b != t))
        by (bit_vector)
        requires
            t < 32,
            b < 32,
    ;
}

/// Returns the number of set bits of `w`
pub fn count_ones(w: u32) -> (r: u32)
    ensures
        r == popcount(w),
        r <= 32,
{
    let mut count: u32 = 0;
    let mut b: u32 = 0;
    while b < 32
        invariant
            b <= 32,
            count == bits_set_below(w, b as nat),
            count <= b,
        decreases 32 - b,
    {
        proof {
            lemma_bit_value(w, b);
        }
        count = count + ((w >> b) & 1);
        b = b + 1;
    }
    count
}

} // verus!
