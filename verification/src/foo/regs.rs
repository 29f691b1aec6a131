//! Bit masks of register fields, first generation.

use vstd::prelude::*;
use vstd::bits::{low_bits_mask, lemma_usize_shl_is_mul, lemma_usize_pow2_no_overflow, lemma_usize_shr_is_div};
use vstd::arithmetic::power2::pow2;

verus! {

/// A field of a register, described by its width in bits.
#[derive(Clone, Copy)]
pub struct RegField {
    pub width: usize,
}

/// The value of bit `n` of `x`, kept at its place: `2^n` when it is set, else 0.
pub open spec fn bit_at(x: nat, n: nat) -> nat {
    if (x / pow2(n)) % 2 == 1 { pow2(n) } else { 0 }
}

proof fn lemma_single_bit(width: usize, value: usize)
    requires
        width < usize::BITS,
    ensures
        ((1usize << width) & value) as nat == bit_at(value as nat, width as nat),
        (1usize << width) as nat == pow2(width as nat),
{
    lemma_usize_pow2_no_overflow(width as nat);
    lemma_usize_shl_is_mul(1, width);
    lemma_usize_shr_is_div(value, width);
    assert(((1usize << width) & value) == (if (value >> width) % 2 == 1 { 1usize << width } else { 0 })) by (bit_vector)
        requires
            width < usize::BITS,
    ;
}

impl RegField {
    /// Whether the field's mask fits in a machine word.
    pub open spec fn wf(&self) -> bool {
        self.width < usize::BITS
    }

    /// The mask of the field's bits, at position 0.
    pub open spec fn mask(&self) -> nat {
        low_bits_mask(self.width as nat)
    }

    /// The pair (bits to clear, bits to set) that sets every bit of the field.
    pub fn set(&self) -> (r: (usize, usize))
        requires
            self.wf(),
        ensures
            r.0 == 0,
            r.1 == self.mask(),
    {
        proof {
            lemma_usize_pow2_no_overflow(self.width as nat);
            lemma_usize_shl_is_mul(1, self.width);
        }
        (0, (1usize << self.width) - 1)
    }

    /// The pair that sets, on a cleared word, bit `width` of `value` at its own place.
    pub fn value(&self, value: usize) -> (r: (usize, usize))
        requires
            self.wf(),
        ensures
            r.0 == 0,
            r.1 == bit_at(value as nat, self.width as nat),
    {
        proof {
            lemma_single_bit(self.width, value);
        }
        (0, (1usize << self.width) & value)
    }

    /// The pair that clears every bit of the field and sets none.
    pub fn clear(&self) -> (r: (usize, usize))
        requires
            self.wf(),
        ensures
            r.0 == self.mask(),
            r.1 == 0,
    {
        proof {
            lemma_usize_pow2_no_overflow(self.width as nat);
            lemma_usize_shl_is_mul(1, self.width);
        }
        ((1usize << self.width) - 1, 0)
    }

    /// The pair that clears the field and sets bit `width` of `value` at its own place.
    pub fn update(&self, value: usize) -> (r: (usize, usize))
        requires
            self.wf(),
        ensures
            r.0 == self.mask(),
            r.1 == bit_at(value as nat, self.width as nat),
    {
        proof {
            lemma_single_bit(self.width, value);
            lemma_usize_pow2_no_overflow(self.width as nat);
            lemma_usize_shl_is_mul(1, self.width);
        }
        ((1usize << self.width) - 1, (1usize << self.width) & value)
    }
}

} // verus!
