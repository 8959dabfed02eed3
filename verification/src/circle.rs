//! The circle predicate: exact integer membership in the quarter disk.

use vstd::prelude::*;

verus! {

/// A lattice point (x, y) lies in the closed quarter disk of radius r
/// exactly when x^2 + y^2 <= r^2.
pub open spec fn in_disk(x: int, y: int, r: int) -> bool {
    x * x + y * y <= r * r
}

/// Squaring is monotone on the non-negative integers.
pub proof fn lemma_sq_le(a: int, b: int)
    requires
        0 <= a <= b,
    ensures
        a * a <= b * b,
{
    assert(a * a <= b * b) by (nonlinear_arith)
        requires
            0 <= a <= b,
    ;
}

/// The quarter disk is downward closed: shrinking either coordinate of a
/// point inside it keeps the point inside.
pub proof fn lemma_disk_monotone(x1: int, y1: int, x2: int, y2: int, r: int)
    requires
        0 <= x1 <= x2,
        0 <= y1 <= y2,
        in_disk(x2, y2, r),
    ensures
        in_disk(x1, y1, r),
{
    lemma_sq_le(x1, x2);
    lemma_sq_le(y1, y2);
}

/// Decides membership in the quarter disk with exact integer arithmetic,
/// so that no rounding bias can appear at the disk's edge.
pub fn point_in_disk(x: u32, y: u32, r: u32) -> (inside: bool)
    ensures
        inside == in_disk(x as int, y as int, r as int),
{
    proof {
        assert((x as u128) * (x as u128) + (y as u128) * (y as u128) <= u128::MAX)
            by (nonlinear_arith);
        assert((r as u128) * (r as u128) <= u128::MAX) by (nonlinear_arith);
    }
    let xx: u128 = (x as u128) * (x as u128);
    let yy: u128 = (y as u128) * (y as u128);
    let rr: u128 = (r as u128) * (r as u128);
    xx + yy <= rr
}

} // verus!
