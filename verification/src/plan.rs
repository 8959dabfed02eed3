//! The grid partition planner: the fixed 8 x 8 classification table over the
//! block grid, and the proofs that it is geometrically correct.

use vstd::prelude::*;

use crate::circle::{in_disk, lemma_disk_monotone, lemma_sq_le};

verus! {

/// Classification of one block of the 8 x 8 partition: entirely inside the
/// quarter disk, entirely outside it, or straddling its edge. A straddling
/// block carries the index of the representative boundary block whose exact
/// count it shares.
#[derive(Clone, Copy, Debug, PartialEq, Eq, Structural)]
pub enum Cell {
    Full,
    Empty,
    Boundary(u8),
}

/// Block column of the representative boundary block with the given index.
pub open spec fn rep_bx(i: int) -> int {
    if i <= 3 {
        7
    } else if i <= 6 {
        6
    } else {
        5
    }
}

/// Block row of the representative boundary block with the given index.
pub open spec fn rep_by(i: int) -> int {
    if i <= 2 {
        i
    } else if i <= 4 {
        3
    } else if i == 5 {
        4
    } else {
        5
    }
}

/// The fixed 8 x 8 classification table (row = by, column = bx, with
/// F = Full, E = Empty, Bi = Boundary(i)):
///
/// ```text
/// F  F  F  F  F  F  F  B0
/// F  F  F  F  F  F  F  B1
/// F  F  F  F  F  F  F  B2
/// F  F  F  F  F  F  B4 B3
/// F  F  F  F  F  F  B5 E
/// F  F  F  F  F  B7 B6 E
/// F  F  F  B4 B5 B6 E  E
/// B0 B1 B2 B3 E  E  E  E
/// ```
pub open spec fn table_cell(bx: int, by: int) -> Cell {
    if by == 0 {
        if bx <= 6 {
            Cell::Full
        } else {
            Cell::Boundary(0)
        }
    } else if by == 1 {
        if bx <= 6 {
            Cell::Full
        } else {
            Cell::Boundary(1)
        }
    } else if by == 2 {
        if bx <= 6 {
            Cell::Full
        } else {
            Cell::Boundary(2)
        }
    } else if by == 3 {
        if bx <= 5 {
            Cell::Full
        } else if bx == 6 {
            Cell::Boundary(4)
        } else {
            Cell::Boundary(3)
        }
    } else if by == 4 {
        if bx <= 5 {
            Cell::Full
        } else if bx == 6 {
            Cell::Boundary(5)
        } else {
            Cell::Empty
        }
    } else if by == 5 {
        if bx <= 4 {
            Cell::Full
        } else if bx == 5 {
            Cell::Boundary(7)
        } else if bx == 6 {
            Cell::Boundary(6)
        } else {
            Cell::Empty
        }
    } else if by == 6 {
        if bx <= 2 {
            Cell::Full
        } else if bx == 3 {
            Cell::Boundary(4)
        } else if bx == 4 {
            Cell::Boundary(5)
        } else if bx == 5 {
            Cell::Boundary(6)
        } else {
            Cell::Empty
        }
    } else {
        if bx == 0 {
            Cell::Boundary(0)
        } else if bx == 1 {
            Cell::Boundary(1)
        } else if bx == 2 {
            Cell::Boundary(2)
        } else if bx == 3 {
            Cell::Boundary(3)
        } else {
            Cell::Empty
        }
    }
}

/// Looks a block's classification up in the fixed table.
pub fn classify(bx: u32, by: u32) -> (c: Cell)
    requires
        bx < 8,
        by < 8,
    ensures
        c == table_cell(bx as int, by as int),
{
    if by == 0 {
        if bx <= 6 {
            Cell::Full
        } else {
            Cell::Boundary(0)
        }
    } else if by == 1 {
        if bx <= 6 {
            Cell::Full
        } else {
            Cell::Boundary(1)
        }
    } else if by == 2 {
        if bx <= 6 {
            Cell::Full
        } else {
            Cell::Boundary(2)
        }
    } else if by == 3 {
        if bx <= 5 {
            Cell::Full
        } else if bx == 6 {
            Cell::Boundary(4)
        } else {
            Cell::Boundary(3)
        }
    } else if by == 4 {
        if bx <= 5 {
            Cell::Full
        } else if bx == 6 {
            Cell::Boundary(5)
        } else {
            Cell::Empty
        }
    } else if by == 5 {
        if bx <= 4 {
            Cell::Full
        } else if bx == 5 {
            Cell::Boundary(7)
        } else if bx == 6 {
            Cell::Boundary(6)
        } else {
            Cell::Empty
        }
    } else if by == 6 {
        if bx <= 2 {
            Cell::Full
        } else if bx == 3 {
            Cell::Boundary(4)
        } else if bx == 4 {
            Cell::Boundary(5)
        } else if bx == 5 {
            Cell::Boundary(6)
        } else {
            Cell::Empty
        }
    } else {
        if bx == 0 {
            Cell::Boundary(0)
        } else if bx == 1 {
            Cell::Boundary(1)
        } else if bx == 2 {
            Cell::Boundary(2)
        } else if bx == 3 {
            Cell::Boundary(3)
        } else {
            Cell::Empty
        }
    }
}

/// Block coordinates of the representative boundary block with the given
/// index.
pub fn rep_block(i: u8) -> (p: (u32, u32))
    requires
        i < 8,
    ensures
        p.0 == rep_bx(i as int),
        p.1 == rep_by(i as int),
{
    if i == 0 {
        (7, 0)
    } else if i == 1 {
        (7, 1)
    } else if i == 2 {
        (7, 2)
    } else if i == 3 {
        (7, 3)
    } else if i == 4 {
        (6, 3)
    } else if i == 5 {
        (6, 4)
    } else if i == 6 {
        (6, 5)
    } else {
        (5, 5)
    }
}

/// The outer corner of a cell with (bx + 1)^2 + (by + 1)^2 <= 61 lies inside
/// the disk of radius 8b - 1, for every block side b >= 1.
proof fn lemma_full_corner_inside(u: int, v: int, b: int)
    requires
        1 <= u <= 8,
        1 <= v <= 8,
        u * u + v * v <= 61,
        1 <= b,
    ensures
        (u * b - 1) * (u * b - 1) + (v * b - 1) * (v * b - 1) <= (8 * b - 1) * (8 * b - 1),
{
    assert((u * b - 1) * (u * b - 1) + (v * b - 1) * (v * b - 1) <= (8 * b - 1) * (8 * b - 1))
        by (nonlinear_arith)
        requires
            1 <= u <= 8,
            1 <= v <= 8,
            u * u + v * v <= 61,
            1 <= b,
    ;
}

/// The inner corner of a cell with bx^2 + by^2 >= 65 lies outside the disk
/// of radius 8b - 1, for every block side b >= 1.
proof fn lemma_empty_corner_outside(p: int, q: int, b: int)
    requires
        0 <= p,
        0 <= q,
        p * p + q * q >= 65,
        1 <= b,
    ensures
        (p * b) * (p * b) + (q * b) * (q * b) > (8 * b - 1) * (8 * b - 1),
{
    assert((p * b) * (p * b) + (q * b) * (q * b) > (8 * b - 1) * (8 * b - 1))
        by (nonlinear_arith)
        requires
            0 <= p,
            0 <= q,
            p * p + q * q >= 65,
            1 <= b,
    ;
}

/// Every cell the table marks Full has its whole outer corner square sum
/// within the squared radius.
proof fn lemma_full_cell_corner_bound(bx: int, by: int)
    requires
        0 <= bx < 8,
        0 <= by < 8,
        table_cell(bx, by) == Cell::Full,
    ensures
        (bx + 1) * (bx + 1) + (by + 1) * (by + 1) <= 61,
{
    let u: int = bx + 1;
    let v: int = by + 1;
    if by == 0 {
        lemma_sq_le(u, 7);
        lemma_sq_le(v, 1);
    } else if by == 1 {
        lemma_sq_le(u, 7);
        lemma_sq_le(v, 2);
    } else if by == 2 {
        lemma_sq_le(u, 7);
        lemma_sq_le(v, 3);
    } else if by == 3 {
        lemma_sq_le(u, 6);
        lemma_sq_le(v, 4);
    } else if by == 4 {
        lemma_sq_le(u, 6);
        lemma_sq_le(v, 5);
    } else if by == 5 {
        lemma_sq_le(u, 5);
        lemma_sq_le(v, 6);
    } else {
        lemma_sq_le(u, 3);
        lemma_sq_le(v, 7);
    }
}

/// Every cell the table marks Empty has its inner corner square sum beyond
/// the squared radius.
proof fn lemma_empty_cell_corner_bound(bx: int, by: int)
    requires
        0 <= bx < 8,
        0 <= by < 8,
        table_cell(bx, by) == Cell::Empty,
    ensures
        bx * bx + by * by >= 65,
{
    if by == 4 || by == 5 {
        assert(bx * bx + by * by >= 65) by (nonlinear_arith)
            requires
                bx == 7,
                by >= 4,
        ;
    } else if by == 6 {
        assert(bx * bx + by * by >= 65) by (nonlinear_arith)
            requires
                bx >= 6,
                by == 6,
        ;
    } else {
        assert(bx * bx + by * by >= 65) by (nonlinear_arith)
            requires
                bx >= 4,
                by == 7,
        ;
    }
}

/// Classification soundness for Full cells: every point of a block the
/// table marks Full lies inside the quarter disk of radius 8b - 1, for any
/// block side b >= 1.
pub proof fn lemma_full_cell_inside(bx: int, by: int, b: int, lx: int, ly: int)
    requires
        0 <= bx < 8,
        0 <= by < 8,
        table_cell(bx, by) == Cell::Full,
        1 <= b,
        0 <= lx < b,
        0 <= ly < b,
    ensures
        in_disk(bx * b + lx, by * b + ly, 8 * b - 1),
{
    let u: int = bx + 1;
    let v: int = by + 1;
    lemma_full_cell_corner_bound(bx, by);
    lemma_full_corner_inside(u, v, b);
    assert(bx * b + lx <= u * b - 1 && by * b + ly <= v * b - 1) by (nonlinear_arith)
        requires
            u == bx + 1,
            v == by + 1,
            lx < b,
            ly < b,
    ;
    assert(0 <= bx * b + lx && 0 <= by * b + ly) by (nonlinear_arith)
        requires
            0 <= bx,
            0 <= by,
            0 <= lx,
            0 <= ly,
            1 <= b,
    ;
    lemma_disk_monotone(bx * b + lx, by * b + ly, u * b - 1, v * b - 1, 8 * b - 1);
}

/// Classification soundness for Empty cells: every point of a block the
/// table marks Empty lies outside the quarter disk of radius 8b - 1, for any
/// block side b >= 1.
pub proof fn lemma_empty_cell_outside(bx: int, by: int, b: int, lx: int, ly: int)
    requires
        0 <= bx < 8,
        0 <= by < 8,
        table_cell(bx, by) == Cell::Empty,
        1 <= b,
        0 <= lx < b,
        0 <= ly < b,
    ensures
        !in_disk(bx * b + lx, by * b + ly, 8 * b - 1),
{
    lemma_empty_cell_corner_bound(bx, by);
    lemma_empty_corner_outside(bx, by, b);
    assert(bx * b <= bx * b + lx && by * b <= by * b + ly);
    assert(0 <= bx * b && 0 <= by * b) by (nonlinear_arith)
        requires
            0 <= bx,
            0 <= by,
            1 <= b,
    ;
    if in_disk(bx * b + lx, by * b + ly, 8 * b - 1) {
        lemma_disk_monotone(bx * b, by * b, bx * b + lx, by * b + ly, 8 * b - 1);
    }
}

/// Every cell the table marks Boundary(i) is either the representative
/// block of index i or its mirror image across the grid's diagonal.
pub proof fn lemma_boundary_rep(bx: int, by: int, i: u8)
    requires
        0 <= bx < 8,
        0 <= by < 8,
        table_cell(bx, by) == Cell::Boundary(i),
    ensures
        i < 8,
        (bx == rep_bx(i as int) && by == rep_by(i as int)) || (by == rep_bx(i as int) && bx
            == rep_by(i as int)),
{
}

} // verus!
