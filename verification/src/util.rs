//! Operations on (clear, set) pairs of bit masks.

use vstd::prelude::*;

verus! {

/// Joins two (clear, set) pairs bit by bit.
#[inline]
pub fn or_tuples(l: (usize, usize), r: (usize, usize)) -> (res: (usize, usize))
    ensures
        res.0 == l.0 | r.0,
        res.1 == l.1 | r.1,
{
    let (la, lb) = l;
    let (ra, rb) = r;
    (la | ra, lb | rb)
}

/// Moves both masks of a (clear, set) pair up by `pos` bits.
#[inline]
pub fn shift_tuple(pos: usize, l: (usize, usize)) -> (res: (usize, usize))
    requires
        pos < usize::BITS,
    ensures
        res.0 == l.0 << pos,
        res.1 == l.1 << pos,
{
    let (la, lb) = l;
    (la << pos, lb << pos)
}

} // verus!
