//! Estimates pi by counting the integer lattice points of an N x N grid that
//! lie inside a quarter disk of radius N - 1, reported as the exact rational
//! 4 * count / (N - 1)^2.
//!
//! The grid is split into an 8 x 8 layout of square blocks. A fixed
//! classification table marks each block Full (entirely inside the disk),
//! Empty (entirely outside), or Boundary (straddling the edge). Only the
//! eight representative boundary blocks are counted point by point; the
//! remaining boundary positions reuse those counts through the table's
//! diagonal symmetry.

pub mod aggregate;
pub mod circle;
pub mod estimate;
pub mod kernel;
pub mod parse;
pub mod plan;
