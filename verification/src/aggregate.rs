//! The aggregator: folds the eight boundary block counts and the fixed table
//! into the Lattice Total, and the proof that this total equals the
//! brute-force count of quarter-disk points over the whole grid.

use vstd::prelude::*;

use crate::circle::in_disk;
use crate::kernel::{
    block_count, fill_block, lemma_block_all_inside, lemma_block_all_outside, lemma_block_count_le,
    lemma_block_split_cols, lemma_block_split_rows, lemma_block_transpose, lemma_block_width_zero,
    reduce_block,
};
use crate::plan::{
    classify, lemma_boundary_rep, lemma_empty_cell_outside, lemma_full_cell_inside, rep_block,
    rep_bx, rep_by, table_cell, Cell,
};

verus! {

/// A grid size the estimator accepts: at least 8, divisible by 8, and small
/// enough that the block buffers stay addressable and every accumulation
/// fits in 64 bits.
pub open spec fn valid_grid_size(n: int) -> bool {
    &&& 8 <= n <= 0x4000_0000
    &&& n % 8 == 0
    &&& (n / 8) * (n / 8) <= usize::MAX
}

/// The count the fixed table assigns to cell (bx, by) of the block grid,
/// for block side b and radius r: the full area b * b for a Full cell,
/// nothing for an Empty one, and the representative block's exact count for
/// a Boundary cell.
pub open spec fn cell_weight(bx: int, by: int, b: nat, r: int) -> nat {
    match table_cell(bx, by) {
        Cell::Full => b * b,
        Cell::Empty => 0,
        Cell::Boundary(i) => block_count(rep_bx(i as int) * b, rep_by(i as int) * b, r, b, b),
    }
}

/// Sum of the table's weights over the first k cells of row by.
pub open spec fn row_weight_sum(by: int, b: nat, r: int, k: nat) -> nat
    decreases k,
{
    if k == 0 {
        0
    } else {
        row_weight_sum(by, b, r, (k - 1) as nat) + cell_weight(k - 1, by, b, r)
    }
}

/// Sum of the table's weights over the first `rows` full rows of the block
/// grid: the Lattice Total once all eight rows are in.
pub open spec fn grid_weight_sum(b: nat, r: int, rows: nat) -> nat
    decreases rows,
{
    if rows == 0 {
        0
    } else {
        grid_weight_sum(b, r, (rows - 1) as nat) + row_weight_sum(rows - 1, b, r, 8)
    }
}

/// The Lattice Total for grid size n: the table-weighted sum over all 64
/// cells, with block side n / 8 and radius n - 1.
pub open spec fn lattice_total_spec(n: int) -> nat {
    grid_weight_sum((n / 8) as nat, n - 1, 8)
}

/// Sum of the exact block counts over the first k cells of row by.
spec fn row_block_sum(by: int, b: nat, r: int, k: nat) -> nat
    decreases k,
{
    if k == 0 {
        0
    } else {
        row_block_sum(by, b, r, (k - 1) as nat) + block_count((k - 1) * b, by * b, r, b, b)
    }
}

/// Sum of the exact block counts over the first `rows` full rows.
spec fn grid_block_sum(b: nat, r: int, rows: nat) -> nat
    decreases rows,
{
    if rows == 0 {
        0
    } else {
        grid_block_sum(b, r, (rows - 1) as nat) + row_block_sum(rows - 1, b, r, 8)
    }
}

/// Correctness of one table cell: the weight the table assigns to a cell is
/// that cell's exact point count, for every block side b >= 1 and the
/// matching radius 8b - 1.
pub proof fn lemma_cell_weight_exact(bx: int, by: int, b: nat, r: int)
    requires
        0 <= bx < 8,
        0 <= by < 8,
        1 <= b,
        r == 8 * b - 1,
    ensures
        cell_weight(bx, by, b, r) == block_count(bx * b, by * b, r, b, b),
{
    match table_cell(bx, by) {
        Cell::Full => {
            assert forall|lx: int, ly: int|
                0 <= lx < b && 0 <= ly < b implies #[trigger] in_disk(
                bx * b + lx,
                by * b + ly,
                r,
            ) by {
                lemma_full_cell_inside(bx, by, b as int, lx, ly);
            }
            lemma_block_all_inside(bx * b, by * b, r, b, b);
        },
        Cell::Empty => {
            assert forall|lx: int, ly: int|
                0 <= lx < b && 0 <= ly < b implies !#[trigger] in_disk(
                bx * b + lx,
                by * b + ly,
                r,
            ) by {
                lemma_empty_cell_outside(bx, by, b as int, lx, ly);
            }
            lemma_block_all_outside(bx * b, by * b, r, b, b);
        },
        Cell::Boundary(i) => {
            lemma_boundary_rep(bx, by, i);
            if by == rep_bx(i as int) && bx == rep_by(i as int) {
                lemma_block_transpose(bx * b, by * b, r, b, b);
            }
        },
    }
}

/// The weighted sum of a row prefix equals the exact sum of its blocks.
proof fn lemma_row_sums_equal(by: int, b: nat, r: int, k: nat)
    requires
        0 <= by < 8,
        k <= 8,
        1 <= b,
        r == 8 * b - 1,
    ensures
        row_weight_sum(by, b, r, k) == row_block_sum(by, b, r, k),
    decreases k,
{
    if k > 0 {
        lemma_row_sums_equal(by, b, r, (k - 1) as nat);
        lemma_cell_weight_exact(k - 1, by, b, r);
    }
}

/// The weighted sum of the first rows equals the exact sum of their blocks.
proof fn lemma_grid_sums_equal(b: nat, r: int, rows: nat)
    requires
        rows <= 8,
        1 <= b,
        r == 8 * b - 1,
    ensures
        grid_weight_sum(b, r, rows) == grid_block_sum(b, r, rows),
    decreases rows,
{
    if rows > 0 {
        lemma_grid_sums_equal(b, r, (rows - 1) as nat);
        lemma_row_sums_equal(rows - 1, b, r, 8);
    }
}

/// A band of k blocks of row by, counted as one wide block, equals the sum
/// of its k individual blocks.
proof fn lemma_band_decompose(by: int, b: nat, r: int, k: nat)
    requires
        0 <= by,
        1 <= b,
    ensures
        block_count(0, by * b, r, (k * b) as nat, b) == row_block_sum(by, b, r, k),
    decreases k,
{
    if k == 0 {
        assert(k * b == 0) by (nonlinear_arith)
            requires
                k == 0,
        ;
        lemma_block_width_zero(0, by * b, r, b);
    } else {
        lemma_band_decompose(by, b, r, (k - 1) as nat);
        lemma_block_split_cols(0, by * b, r, (((k - 1) as nat) * b) as nat, b, b);
        assert((k - 1) * b + b == k * b) by (nonlinear_arith)
            requires
                k >= 1,
        ;
    }
}

/// The first `rows` block rows of the grid, counted as one wide block of
/// height rows * b, equal the sum of their individual blocks.
proof fn lemma_grid_decompose(b: nat, r: int, rows: nat)
    requires
        1 <= b,
        rows <= 8,
    ensures
        block_count(0, 0, r, (8 * b) as nat, (rows * b) as nat) == grid_block_sum(b, r, rows),
    decreases rows,
{
    if rows == 0 {
        assert(rows * b == 0) by (nonlinear_arith)
            requires
                rows == 0,
        ;
    } else {
        lemma_grid_decompose(b, r, (rows - 1) as nat);
        lemma_block_split_rows(0, 0, r, (8 * b) as nat, (((rows - 1) as nat) * b) as nat, b);
        assert((rows - 1) * b + b == rows * b) by (nonlinear_arith)
            requires
                rows >= 1,
        ;
        lemma_band_decompose(rows - 1, b, r, 8);
        assert((rows - 1) * b >= 0) by (nonlinear_arith)
            requires
                rows >= 1,
                b >= 1,
        ;
    }
}

/// The Lattice Total computed through the 8 x 8 weighted table equals the
/// brute-force count of lattice points inside the quarter disk of radius
/// n - 1 over the whole n x n grid.
pub proof fn lemma_lattice_total_is_grid_count(n: int)
    requires
        8 <= n,
        n % 8 == 0,
    ensures
        lattice_total_spec(n) == block_count(0, 0, n - 1, n as nat, n as nat),
{
    let b: nat = (n / 8) as nat;
    assert(n == 8 * b);
    lemma_grid_sums_equal(b, n - 1, 8);
    lemma_grid_decompose(b, n - 1, 8);
}

/// Upper bound on one cell's weight: never more than the block area.
proof fn lemma_cell_weight_le(bx: int, by: int, b: nat, r: int)
    ensures
        cell_weight(bx, by, b, r) <= b * b,
{
    match table_cell(bx, by) {
        Cell::Full => {},
        Cell::Empty => {},
        Cell::Boundary(i) => {
            lemma_block_count_le(rep_bx(i as int) * b, rep_by(i as int) * b, r, b, b);
        },
    }
}

/// Upper bound on a row prefix's weighted sum.
proof fn lemma_row_weight_le(by: int, b: nat, r: int, k: nat)
    ensures
        row_weight_sum(by, b, r, k) <= k * (b * b),
    decreases k,
{
    if k == 0 {
        assert(k * (b * b) == 0) by (nonlinear_arith)
            requires
                k == 0,
        ;
    } else {
        lemma_row_weight_le(by, b, r, (k - 1) as nat);
        lemma_cell_weight_le(k - 1, by, b, r);
        assert((k - 1) * (b * b) + b * b == k * (b * b)) by (nonlinear_arith)
            requires
                k >= 1,
        ;
    }
}

/// Upper bound on the weighted sum of the first rows.
pub proof fn lemma_grid_weight_le(b: nat, r: int, rows: nat)
    ensures
        grid_weight_sum(b, r, rows) <= rows * 8 * (b * b),
    decreases rows,
{
    if rows == 0 {
        assert(rows * 8 * (b * b) == 0) by (nonlinear_arith)
            requires
                rows == 0,
        ;
    } else {
        lemma_grid_weight_le(b, r, (rows - 1) as nat);
        lemma_row_weight_le(rows - 1, b, r, 8);
        assert((rows - 1) * 8 * (b * b) + 8 * (b * b) == rows * 8 * (b * b)) by (nonlinear_arith)
            requires
                rows >= 1,
        ;
    }
}

/// Drives one kernel run per representative boundary block, reduces each
/// result buffer to a scalar, and folds every cell of the fixed table into
/// the Lattice Total: the count of lattice points of the whole n x n grid
/// that lie inside the quarter disk of radius n - 1.
pub fn lattice_total(n: u32) -> (total: u64)
    requires
        valid_grid_size(n as int),
    ensures
        total == lattice_total_spec(n as int),
        total == block_count(0, 0, n - 1, n as nat, n as nat),
{
    let b: u32 = n / 8;
    let r: u32 = n - 1;
    let mut counts: Vec<u64> = Vec::new();
    let mut i: u8 = 0;
    while i < 8
        invariant
            i <= 8,
            counts.len() == i as int,
            b == n as int / 8,
            r == n - 1,
            valid_grid_size(n as int),
            forall|j: int|
                0 <= j < i ==> #[trigger] counts[j] == block_count(
                    rep_bx(j) * b,
                    rep_by(j) * b,
                    r as int,
                    b as nat,
                    b as nat,
                ),
        decreases 8 - i,
    {
        let (bx, by) = rep_block(i);
        proof {
            assert(bx * b <= 7 * b && by * b <= 7 * b) by (nonlinear_arith)
                requires
                    0 <= bx <= 7,
                    0 <= by <= 7,
                    0 <= b,
            ;
        }
        let buf = fill_block(bx * b, by * b, b, r);
        let c: u64 = reduce_block(&buf, bx * b, by * b, b, r);
        counts.push(c);
        i = i + 1;
    }
    let mut total: u64 = 0;
    let mut by: u32 = 0;
    while by < 8
        invariant
            by <= 8,
            counts.len() == 8,
            b == n as int / 8,
            r == n - 1,
            valid_grid_size(n as int),
            forall|j: int|
                0 <= j < 8 ==> #[trigger] counts[j] == block_count(
                    rep_bx(j) * b,
                    rep_by(j) * b,
                    r as int,
                    b as nat,
                    b as nat,
                ),
            total == grid_weight_sum(b as nat, r as int, by as nat),
        decreases 8 - by,
    {
        let mut bx: u32 = 0;
        while bx < 8
            invariant
                bx <= 8,
                by < 8,
                counts.len() == 8,
                b == n as int / 8,
                r == n - 1,
                valid_grid_size(n as int),
                forall|j: int|
                    0 <= j < 8 ==> #[trigger] counts[j] == block_count(
                        rep_bx(j) * b,
                        rep_by(j) * b,
                        r as int,
                        b as nat,
                        b as nat,
                    ),
                total == grid_weight_sum(b as nat, r as int, by as nat) + row_weight_sum(
                    by as int,
                    b as nat,
                    r as int,
                    bx as nat,
                ),
            decreases 8 - bx,
        {
            proof {
                lemma_grid_weight_le(b as nat, r as int, by as nat);
                lemma_row_weight_le(by as int, b as nat, r as int, bx as nat);
                lemma_cell_weight_le(bx as int, by as int, b as nat, r as int);
                assert(by * 8 * (b * b) + bx * (b * b) + (b * b) <= 64 * (b * b)) by (nonlinear_arith)
                    requires
                        0 <= by < 8,
                        0 <= bx < 8,
                        0 <= b,
                ;
                assert(64 * (b * b) <= 0x4000_0000_0000_0000) by (nonlinear_arith)
                    requires
                        0 <= b <= 0x800_0000,
                ;
            }
            let c = classify(bx, by);
            match c {
                Cell::Full => {
                    total = total + (b as u64) * (b as u64);
                },
                Cell::Empty => {},
                Cell::Boundary(i) => {
                    let v: u64 = counts[i as usize];
                    total = total + v;
                },
            }
            bx = bx + 1;
        }
        by = by + 1;
    }
    proof {
        lemma_lattice_total_is_grid_count(n as int);
    }
    total
}

} // verus!
