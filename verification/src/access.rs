//! What the generated register accessors do with the (clear, set) pairs of
//! their fields: gather them, write them to the register, read fields back.

use vstd::prelude::*;
use vstd::bits::{low_bits_mask, lemma_usize_shl_is_mul, lemma_usize_pow2_no_overflow, lemma_usize_low_bits_mask_is_mod};
use vstd::arithmetic::power2::pow2;
use crate::regs::RegField;
use crate::util::{or_tuples, shift_tuple};

verus! {

/// The register value after the pair `diff` is written over `value`.
pub open spec fn spec_modify(value: usize, diff: (usize, usize)) -> usize {
    if diff.0 != 0 {
        (value & !diff.0) | diff.1
    } else {
        diff.1
    }
}

/// The bits of `value` under the mask `mask` moved up by `pos`, moved back down.
pub open spec fn field_bits(value: usize, pos: usize, mask: usize) -> usize {
    (value >> pos) & mask
}

/// Adds the pair of a field at bit `pos` to the gathered pair `acc`, as the
/// `apply` method of a generated writer does.
pub fn apply(acc: (usize, usize), pos: usize, diff: (usize, usize)) -> (r: (usize, usize))
    requires
        pos < usize::BITS,
    ensures
        r.0 == acc.0 | (diff.0 << pos),
        r.1 == acc.1 | (diff.1 << pos),
{
    or_tuples(acc, shift_tuple(pos, diff))
}

/// The new register value when the gathered pair `diff` is written over
/// `value`, as the `modify` method of a generated register does: where
/// there are bits to clear, they are cleared and the bits to set are set;
/// where there are none, the register takes the bits to set alone.
pub fn modify(value: usize, diff: (usize, usize)) -> (r: usize)
    ensures
        r == spec_modify(value, diff),
{
    let (c, s) = diff;
    if c != 0 {
        (value & !c) | s
    } else {
        s
    }
}

/// The value of the field `field` at bit `pos` of the register value
/// `value`, as the read methods of a generated register give it.
pub fn read_field(field: &RegField, pos: usize, value: usize) -> (r: usize)
    requires
        field.wf(),
        pos < usize::BITS,
    ensures
        r == field_bits(value, pos, field.mask() as usize),
{
    field.read(value >> pos)
}

proof fn lemma_mask(w: usize)
    requires
        w < usize::BITS,
    ensures
        low_bits_mask(w as nat) as usize == ((1usize << w) - 1) as usize,
        low_bits_mask(w as nat) <= usize::MAX,
        (1usize << w) >= 1,
{
    lemma_usize_pow2_no_overflow(w as nat);
    lemma_usize_shl_is_mul(1, w);
}

proof fn bv_update_read(old: usize, v: usize, w: usize, pos: usize, m: usize)
    by (bit_vector)
    requires
        w < usize::BITS,
        pos < usize::BITS,
        pos + w <= usize::BITS,
        m + 1 == (1usize << w),
    ensures
        ((((old & !(m << pos)) | ((v & m) << pos)) >> pos) & m) == v & m,
        ((old & !(m << pos)) | ((v & m) << pos)) & !(m << pos) == old & !(m << pos),
{
}

proof fn bv_set_read(v: usize, w: usize, pos: usize, m: usize)
    by (bit_vector)
    requires
        w < usize::BITS,
        pos < usize::BITS,
        pos + w <= usize::BITS,
        m + 1 == (1usize << w),
    ensures
        ((((v & m) << pos) >> pos) & m) == v & m,
        ((v & m) << pos) & !(m << pos) == 0,
{
}

/// Writing a value to a field and reading the field back gives the value
/// cut to the field's width, whether the write keeps the register's other
/// bits (`update`) or clears them (`write`). An update of a field that is
/// one bit wide or more leaves every bit outside the field as it was.
pub proof fn lemma_write_then_read(field: RegField, pos: usize, old: usize, v: usize)
    requires
        field.wf(),
        pos < usize::BITS,
        pos + field.width <= usize::BITS,
    ensures
        ({
            let d = field.mask() as usize;
            let upd = ((d << pos) as usize, ((v & d) << pos) as usize);
            let set = (0usize, ((v & d) << pos) as usize);
            &&& (field.width > 0 ==> field_bits(spec_modify(old, upd), pos, d) == v as nat % pow2(field.width as nat))
            &&& (field.width > 0 ==> spec_modify(old, upd) & !upd.0 == old & !upd.0)
            &&& field_bits(spec_modify(old, set), pos, d) == v as nat % pow2(field.width as nat)
        }),
{
    let w = field.width;
    lemma_mask(w);
    let m = ((1usize << w) - 1) as usize;
    bv_update_read(old, v, w, pos, m);
    bv_set_read(v, w, pos, m);
    lemma_usize_low_bits_mask_is_mod(v, w as nat);
    lemma_usize_pow2_no_overflow(w as nat);
    if w > 0 {
        assert(m << pos != 0) by (bit_vector)
            requires
                w > 0,
                w < usize::BITS,
                pos + w <= usize::BITS,
                m + 1 == (1usize << w),
        ;
    }
}

proof fn bv_two_fields(v1: usize, w1: usize, p1: usize, m1: usize, v2: usize, w2: usize, p2: usize, m2: usize)
    by (bit_vector)
    requires
        w1 < usize::BITS,
        w2 < usize::BITS,
        p1 < usize::BITS,
        p2 < usize::BITS,
        p1 + w1 <= p2,
        p2 + w2 <= usize::BITS,
        m1 + 1 == (1usize << w1),
        m2 + 1 == (1usize << w2),
    ensures
        ((((v1 & m1) << p1) | ((v2 & m2) << p2)) >> p1) & m1 == v1 & m1,
        ((((v1 & m1) << p1) | ((v2 & m2) << p2)) >> p2) & m2 == v2 & m2,
{
}

/// Two fields that do not overlap, written together by one writer that
/// clears the register, read back the values written to them, cut to
/// their widths, whatever the register held before.
pub proof fn lemma_write_two_fields(old: usize, f1: RegField, p1: usize, v1: usize, f2: RegField, p2: usize, v2: usize)
    requires
        f1.wf(),
        f2.wf(),
        p1 + f1.width <= p2,
        p2 < usize::BITS,
        p2 + f2.width <= usize::BITS,
    ensures
        ({
            let d1 = f1.mask() as usize;
            let d2 = f2.mask() as usize;
            let s = (((v1 & d1) << p1) as usize | ((v2 & d2) << p2) as usize) as usize;
            &&& field_bits(spec_modify(old, (0usize, s)), p1, d1) == v1 as nat % pow2(f1.width as nat)
            &&& field_bits(spec_modify(old, (0usize, s)), p2, d2) == v2 as nat % pow2(f2.width as nat)
        }),
{
    lemma_mask(f1.width);
    lemma_mask(f2.width);
    let m1 = ((1usize << f1.width) - 1) as usize;
    let m2 = ((1usize << f2.width) - 1) as usize;
    bv_two_fields(v1, f1.width, p1, m1, v2, f2.width, p2, m2);
    lemma_usize_low_bits_mask_is_mod(v1, f1.width as nat);
    lemma_usize_low_bits_mask_is_mod(v2, f2.width as nat);
    lemma_usize_pow2_no_overflow(f1.width as nat);
    lemma_usize_pow2_no_overflow(f2.width as nat);
}

} // verus!
