//! The boundary counting kernel: evaluates the circle predicate over every
//! point of one block, writes the per-point 0/1 result buffer, and reduces a
//! buffer to the block's exact count.

use vstd::prelude::*;

use crate::circle::{in_disk, point_in_disk};

verus! {

/// Number of points (ox + lx, y) with lx in [0, len) inside the disk.
pub open spec fn row_count(ox: int, y: int, r: int, len: nat) -> nat
    decreases len,
{
    if len == 0 {
        0
    } else {
        row_count(ox, y, r, (len - 1) as nat) + if in_disk(ox + len - 1, y, r) {
            1nat
        } else {
            0nat
        }
    }
}

/// Number of points (ox + lx, oy + ly) with lx in [0, width) and
/// ly in [0, rows) inside the disk: the exact count of a width x rows block
/// at offset (ox, oy).
pub open spec fn block_count(ox: int, oy: int, r: int, width: nat, rows: nat) -> nat
    decreases rows,
{
    if rows == 0 {
        0
    } else {
        block_count(ox, oy, r, width, (rows - 1) as nat) + row_count(ox, oy + rows - 1, r, width)
    }
}

/// A row's count never exceeds its length.
pub proof fn lemma_row_count_le(ox: int, y: int, r: int, len: nat)
    ensures
        row_count(ox, y, r, len) <= len,
    decreases len,
{
    if len > 0 {
        lemma_row_count_le(ox, y, r, (len - 1) as nat);
    }
}

/// A block's count never exceeds its area.
pub proof fn lemma_block_count_le(ox: int, oy: int, r: int, width: nat, rows: nat)
    ensures
        block_count(ox, oy, r, width, rows) <= width * rows,
    decreases rows,
{
    if rows > 0 {
        lemma_block_count_le(ox, oy, r, width, (rows - 1) as nat);
        lemma_row_count_le(ox, oy + rows - 1, r, width);
        assert(width * (rows - 1) + width == width * rows) by (nonlinear_arith)
            requires
                rows >= 1,
        ;
    }
}

/// Splitting a row: the count over [0, a + b) is the count over [0, a) plus
/// the count of the shifted row over [0, b).
pub proof fn lemma_row_split(ox: int, y: int, r: int, a: nat, b: nat)
    ensures
        row_count(ox, y, r, a + b) == row_count(ox, y, r, a) + row_count(ox + a, y, r, b),
    decreases b,
{
    if b > 0 {
        lemma_row_split(ox, y, r, a, (b - 1) as nat);
    }
}

/// Splitting a block into an upper and a lower band of rows.
pub proof fn lemma_block_split_rows(ox: int, oy: int, r: int, width: nat, h1: nat, h2: nat)
    ensures
        block_count(ox, oy, r, width, h1 + h2) == block_count(ox, oy, r, width, h1) + block_count(
            ox,
            oy + h1,
            r,
            width,
            h2,
        ),
    decreases h2,
{
    if h2 > 0 {
        lemma_block_split_rows(ox, oy, r, width, h1, (h2 - 1) as nat);
    }
}

/// Splitting a block into a left and a right band of columns.
pub proof fn lemma_block_split_cols(ox: int, oy: int, r: int, w1: nat, w2: nat, rows: nat)
    ensures
        block_count(ox, oy, r, w1 + w2, rows) == block_count(ox, oy, r, w1, rows) + block_count(
            ox + w1,
            oy,
            r,
            w2,
            rows,
        ),
    decreases rows,
{
    if rows > 0 {
        lemma_block_split_cols(ox, oy, r, w1, w2, (rows - 1) as nat);
        lemma_row_split(ox, oy + rows - 1, r, w1, w2);
    }
}

/// A block of width zero holds no points.
pub proof fn lemma_block_width_zero(ox: int, oy: int, r: int, rows: nat)
    ensures
        block_count(ox, oy, r, 0, rows) == 0,
    decreases rows,
{
    if rows > 0 {
        lemma_block_width_zero(ox, oy, r, (rows - 1) as nat);
    }
}

/// Peeling the last column off a block: its points form one vertical row,
/// counted with the coordinates exchanged.
proof fn lemma_block_peel_col(ox: int, oy: int, r: int, width: nat, rows: nat)
    requires
        width >= 1,
    ensures
        block_count(ox, oy, r, width, rows) == block_count(ox, oy, r, (width - 1) as nat, rows)
            + row_count(oy, ox + width - 1, r, rows),
    decreases rows,
{
    if rows > 0 {
        lemma_block_peel_col(ox, oy, r, width, (rows - 1) as nat);
        assert(in_disk(ox + width - 1, oy + rows - 1, r) == in_disk(
            oy + rows - 1,
            ox + width - 1,
            r,
        ));
    }
}

/// Diagonal symmetry: a block and its mirror image across the diagonal hold
/// the same number of points of the quarter disk.
pub proof fn lemma_block_transpose(ox: int, oy: int, r: int, width: nat, rows: nat)
    ensures
        block_count(ox, oy, r, width, rows) == block_count(oy, ox, r, rows, width),
    decreases width,
{
    if width == 0 {
        lemma_block_width_zero(ox, oy, r, rows);
    } else {
        lemma_block_peel_col(ox, oy, r, width, rows);
        lemma_block_transpose(ox, oy, r, (width - 1) as nat, rows);
    }
}

/// A row whose points all lie inside the disk counts its full length.
proof fn lemma_row_all_inside(ox: int, y: int, r: int, len: nat)
    requires
        forall|lx: int| 0 <= lx < len ==> #[trigger] in_disk(ox + lx, y, r),
    ensures
        row_count(ox, y, r, len) == len,
    decreases len,
{
    if len > 0 {
        lemma_row_all_inside(ox, y, r, (len - 1) as nat);
        assert(in_disk(ox + (len - 1), y, r));
    }
}

/// A block whose points all lie inside the disk counts its full area.
pub proof fn lemma_block_all_inside(ox: int, oy: int, r: int, width: nat, rows: nat)
    requires
        forall|lx: int, ly: int|
            0 <= lx < width && 0 <= ly < rows ==> #[trigger] in_disk(ox + lx, oy + ly, r),
    ensures
        block_count(ox, oy, r, width, rows) == width * rows,
    decreases rows,
{
    if rows == 0 {
        assert(width * rows == 0) by (nonlinear_arith)
            requires
                rows == 0,
        ;
    } else {
        lemma_block_all_inside(ox, oy, r, width, (rows - 1) as nat);
        assert forall|lx: int| 0 <= lx < width implies #[trigger] in_disk(
            ox + lx,
            oy + (rows - 1),
            r,
        ) by {
            assert(in_disk(ox + lx, oy + (rows - 1), r));
        }
        lemma_row_all_inside(ox, oy + (rows - 1), r, width);
        assert(width * (rows - 1) + width == width * rows) by (nonlinear_arith)
            requires
                rows >= 1,
        ;
    }
}

/// A row whose points all lie outside the disk counts nothing.
proof fn lemma_row_all_outside(ox: int, y: int, r: int, len: nat)
    requires
        forall|lx: int| 0 <= lx < len ==> !#[trigger] in_disk(ox + lx, y, r),
    ensures
        row_count(ox, y, r, len) == 0,
    decreases len,
{
    if len > 0 {
        lemma_row_all_outside(ox, y, r, (len - 1) as nat);
        assert(!in_disk(ox + (len - 1), y, r));
    }
}

/// A block whose points all lie outside the disk counts nothing.
pub proof fn lemma_block_all_outside(ox: int, oy: int, r: int, width: nat, rows: nat)
    requires
        forall|lx: int, ly: int|
            0 <= lx < width && 0 <= ly < rows ==> !#[trigger] in_disk(ox + lx, oy + ly, r),
    ensures
        block_count(ox, oy, r, width, rows) == 0,
    decreases rows,
{
    if rows > 0 {
        lemma_block_all_outside(ox, oy, r, width, (rows - 1) as nat);
        assert forall|lx: int| 0 <= lx < width implies !#[trigger] in_disk(
            ox + lx,
            oy + (rows - 1),
            r,
        ) by {
            assert(!in_disk(ox + lx, oy + (rows - 1), r));
        }
        lemma_row_all_outside(ox, oy + (rows - 1), r, width);
    }
}

/// The boundary counting kernel: evaluates the circle predicate at every
/// point of the b x b block at grid offset (ox, oy) and writes 1 for inside
/// and 0 for outside into the result buffer, at position ly * b + lx for the
/// local point (lx, ly).
pub fn fill_block(ox: u32, oy: u32, b: u32, r: u32) -> (buf: Vec<u32>)
    requires
        1 <= b,
        ox + b <= u32::MAX,
        oy + b <= u32::MAX,
        b * b <= usize::MAX,
    ensures
        buf.len() == b * b,
        forall|ly: int, lx: int|
            0 <= ly < b && 0 <= lx < b ==> #[trigger] buf[ly * b + lx] == (if in_disk(
                ox + lx,
                oy + ly,
                r as int,
            ) {
                1u32
            } else {
                0u32
            }),
{
    let mut buf: Vec<u32> = Vec::new();
    let mut ly: u32 = 0;
    while ly < b
        invariant
            ly <= b,
            1 <= b,
            ox + b <= u32::MAX,
            oy + b <= u32::MAX,
            b * b <= usize::MAX,
            buf.len() == ly * b,
            forall|ly2: int, lx2: int|
                0 <= ly2 < ly && 0 <= lx2 < b ==> #[trigger] buf[ly2 * b + lx2] == (if in_disk(
                    ox + lx2,
                    oy + ly2,
                    r as int,
                ) {
                    1u32
                } else {
                    0u32
                }),
        decreases b - ly,
    {
        let mut lx: u32 = 0;
        while lx < b
            invariant
                lx <= b,
                ly < b,
                1 <= b,
                ox + b <= u32::MAX,
                oy + b <= u32::MAX,
                b * b <= usize::MAX,
                buf.len() == ly * b + lx,
                forall|ly2: int, lx2: int|
                    0 <= ly2 < ly && 0 <= lx2 < b ==> #[trigger] buf[ly2 * b + lx2] == (if in_disk(
                        ox + lx2,
                        oy + ly2,
                        r as int,
                    ) {
                        1u32
                    } else {
                        0u32
                    }),
                forall|lx2: int|
                    0 <= lx2 < lx ==> #[trigger] buf[ly * b + lx2] == (if in_disk(
                        ox + lx2,
                        oy + ly as int,
                        r as int,
                    ) {
                        1u32
                    } else {
                        0u32
                    }),
            decreases b - lx,
        {
            proof {
                assert(ly * b + lx < b * b) by (nonlinear_arith)
                    requires
                        ly < b,
                        lx < b,
                        0 <= ly,
                        0 <= lx,
                ;
            }
            let inside = point_in_disk(ox + lx, oy + ly, r);
            let v: u32 = if inside {
                1
            } else {
                0
            };
            buf.push(v);
            lx = lx + 1;
            proof {
                assert forall|lx2: int|
                    0 <= lx2 < lx implies #[trigger] buf[ly * b + lx2] == (if in_disk(
                    ox + lx2,
                    oy + ly as int,
                    r as int,
                ) {
                    1u32
                } else {
                    0u32
                }) by {
                    if lx2 < lx - 1 {
                        assert(buf[ly * b + lx2] == (if in_disk(ox + lx2, oy + ly as int, r as int) {
                            1u32
                        } else {
                            0u32
                        }));
                    }
                }
                assert forall|ly2: int, lx2: int|
                    0 <= ly2 < ly && 0 <= lx2 < b implies #[trigger] buf[ly2 * b + lx2] == (
                if in_disk(ox + lx2, oy + ly2, r as int) {
                    1u32
                } else {
                    0u32
                }) by {
                    assert(ly2 * b + lx2 < ly * b) by (nonlinear_arith)
                        requires
                            0 <= ly2 < ly,
                            0 <= lx2 < b,
                    ;
                }
            }
        }
        ly = ly + 1;
        proof {
            assert(ly * b == (ly - 1) * b + b) by (nonlinear_arith)
                requires
                    ly >= 1,
            ;
        }
    }
    buf
}

/// Reduces a result buffer written by the kernel for the b x b block at
/// offset (ox, oy) to the block's exact point count.
pub fn reduce_block(buf: &Vec<u32>, ox: u32, oy: u32, b: u32, r: u32) -> (total: u64)
    requires
        1 <= b,
        ox + b <= u32::MAX,
        oy + b <= u32::MAX,
        b * b <= usize::MAX,
        buf.len() == b * b,
        forall|ly: int, lx: int|
            0 <= ly < b && 0 <= lx < b ==> #[trigger] buf[ly * b + lx] == (if in_disk(
                ox + lx,
                oy + ly,
                r as int,
            ) {
                1u32
            } else {
                0u32
            }),
    ensures
        total == block_count(ox as int, oy as int, r as int, b as nat, b as nat),
{
    let mut total: u64 = 0;
    let mut ly: u32 = 0;
    while ly < b
        invariant
            ly <= b,
            1 <= b,
            ox + b <= u32::MAX,
            oy + b <= u32::MAX,
            b * b <= usize::MAX,
            buf.len() == b * b,
            forall|ly2: int, lx2: int|
                0 <= ly2 < b && 0 <= lx2 < b ==> #[trigger] buf[ly2 * b + lx2] == (if in_disk(
                    ox + lx2,
                    oy + ly2,
                    r as int,
                ) {
                    1u32
                } else {
                    0u32
                }),
            total == block_count(ox as int, oy as int, r as int, b as nat, ly as nat),
        decreases b - ly,
    {
        proof {
            lemma_block_count_le(ox as int, oy as int, r as int, b as nat, ly as nat);
            assert(b * ly <= b * b) by (nonlinear_arith)
                requires
                    0 <= ly <= b,
            ;
        }
        let mut lx: u32 = 0;
        while lx < b
            invariant
                lx <= b,
                ly < b,
                1 <= b,
                ox + b <= u32::MAX,
                oy + b <= u32::MAX,
                b * b <= usize::MAX,
                buf.len() == b * b,
                forall|ly2: int, lx2: int|
                    0 <= ly2 < b && 0 <= lx2 < b ==> #[trigger] buf[ly2 * b + lx2] == (if in_disk(
                        ox + lx2,
                        oy + ly2,
                        r as int,
                    ) {
                        1u32
                    } else {
                        0u32
                    }),
                total == block_count(ox as int, oy as int, r as int, b as nat, ly as nat)
                    + row_count(ox as int, oy + ly, r as int, lx as nat),
            decreases b - lx,
        {
            proof {
                lemma_block_count_le(ox as int, oy as int, r as int, b as nat, ly as nat);
                lemma_row_count_le(ox as int, oy + ly, r as int, lx as nat);
                assert(ly * b + lx < b * b && b * ly + lx < b * b) by (nonlinear_arith)
                    requires
                        0 <= ly < b,
                        0 <= lx < b,
                ;
                assert(buf[ly as int * b + lx] == (if in_disk(
                    ox + lx as int,
                    oy + ly as int,
                    r as int,
                ) {
                    1u32
                } else {
                    0u32
                }));
            }
            let idx: usize = (ly as usize) * (b as usize) + (lx as usize);
            let v: u32 = buf[idx];
            total = total + (v as u64);
            lx = lx + 1;
        }
        ly = ly + 1;
    }
    total
}

} // verus!
