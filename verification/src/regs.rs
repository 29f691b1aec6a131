//! Bit masks of register fields.

use vstd::prelude::*;
use vstd::bits::{low_bits_mask, lemma_usize_shl_is_mul, lemma_usize_pow2_no_overflow, lemma_usize_low_bits_mask_is_mod};
use vstd::arithmetic::power2::pow2;

verus! {

/// A field of a register, described by its width in bits.
pub struct RegField {
    pub width: usize,
}

/// The mask of the `width` low bits.
#[inline]
fn spread(width: usize) -> (mask: usize)
    requires
        width < usize::BITS,
    ensures
        mask == low_bits_mask(width as nat),
{
    proof {
        lemma_usize_pow2_no_overflow(width as nat);
        lemma_usize_shl_is_mul(1, width);
    }
    (1usize << width) - 1
}

impl RegField {
    /// Whether the field's mask fits in a machine word.
    pub open spec fn wf(&self) -> bool {
        self.width < usize::BITS
    }

    /// The mask of the field's bits, at position 0.
    pub open spec fn mask(&self) -> nat {
        low_bits_mask(self.width as nat)
    }

    /// The pair (bits to clear, bits to set) that sets every bit of the field.
    pub fn set(&self) -> (r: (usize, usize))
        requires
            self.wf(),
        ensures
            r.0 == 0,
            r.1 == self.mask(),
    {
        (0, spread(self.width))
    }

    /// The pair that clears the field and sets every bit of it.
    pub fn update(&self) -> (r: (usize, usize))
        requires
            self.wf(),
        ensures
            r.0 == self.mask(),
            r.1 == self.mask(),
    {
        (spread(self.width), spread(self.width))
    }

    /// The pair that writes `value`, cut to the field's width, on a cleared word.
    pub fn set_value(&self, value: usize) -> (r: (usize, usize))
        requires
            self.wf(),
        ensures
            r.0 == 0,
            r.1 == value as nat % pow2(self.width as nat),
            r.1 == value & (self.mask() as usize),
    {
        let m = spread(self.width);
        proof {
            lemma_usize_low_bits_mask_is_mod(value, self.width as nat);
            lemma_usize_pow2_no_overflow(self.width as nat);
            assert(m & value == value & m) by (bit_vector);
        }
        (0, m & value)
    }

    /// The pair that clears the field and then writes `value`, cut to the field's width.
    pub fn update_value(&self, value: usize) -> (r: (usize, usize))
        requires
            self.wf(),
        ensures
            r.0 == self.mask(),
            r.1 == value as nat % pow2(self.width as nat),
            r.1 == value & (self.mask() as usize),
    {
        let m = spread(self.width);
        proof {
            lemma_usize_low_bits_mask_is_mod(value, self.width as nat);
            lemma_usize_pow2_no_overflow(self.width as nat);
            assert(m & value == value & m) by (bit_vector);
        }
        (m, m & value)
    }

    /// The field's value in `value`, whose bit 0 is the field's first bit.
    pub fn read(&self, value: usize) -> (r: usize)
        requires
            self.wf(),
        ensures
            r == value as nat % pow2(self.width as nat),
            r == value & (self.mask() as usize),
    {
        let m = spread(self.width);
        proof {
            lemma_usize_low_bits_mask_is_mod(value, self.width as nat);
            lemma_usize_pow2_no_overflow(self.width as nat);
            assert(m & value == value & m) by (bit_vector);
        }
        m & value
    }
}

} // verus!
