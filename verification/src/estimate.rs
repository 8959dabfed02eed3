//! The pi estimator: turns the Lattice Total into the exact rational
//! 4 * total / (n - 1)^2, which approximates pi.

use vstd::prelude::*;

use crate::aggregate::{
    lattice_total, lattice_total_spec, lemma_grid_weight_le, valid_grid_size,
};
use crate::kernel::block_count;

verus! {

/// A pi estimate as an exact ratio, kept as a numerator and denominator
/// pair so that no floating-point rounding enters the result.
#[derive(Clone, Copy, Debug, PartialEq, Eq, Structural)]
pub struct PiEstimate {
    /// Four times the Lattice Total.
    pub num: u64,
    /// The square of the grid radius, (n - 1)^2.
    pub den: u64,
}

/// Runs one whole estimation for grid size n and reports the pi estimate
/// num / den with num = 4 * LatticeTotal and den = (n - 1)^2. The result is
/// a function of n alone, so repeated runs for one grid size agree.
pub fn estimate_pi(n: u32) -> (est: PiEstimate)
    requires
        valid_grid_size(n as int),
    ensures
        est.num == 4 * lattice_total_spec(n as int),
        est.den == (n - 1) * (n - 1),
        est.num == 4 * block_count(0, 0, n - 1, n as nat, n as nat),
{
    let total: u64 = lattice_total(n);
    proof {
        lemma_grid_weight_le((n as int / 8) as nat, n - 1, 8);
        assert(8 * 8 * ((n as int / 8) * (n as int / 8)) <= 0x1000_0000_0000_0000)
            by (nonlinear_arith)
            requires
                0 <= n as int / 8 <= 0x800_0000,
        ;
        assert((n - 1) * (n - 1) < 0x1000_0000_0000_0000) by (nonlinear_arith)
            requires
                8 <= n <= 0x4000_0000,
        ;
    }
    let num: u64 = 4 * total;
    let den: u64 = ((n - 1) as u64) * ((n - 1) as u64);
    PiEstimate { num, den }
}

/// Idempotence of the estimation: any two results that the estimator's
/// contract allows for one grid size are equal, so running the estimation
/// twice yields the same Lattice Total and the same reported ratio.
pub proof fn lemma_estimate_deterministic(n: u32, first: PiEstimate, second: PiEstimate)
    requires
        first.num == 4 * lattice_total_spec(n as int),
        first.den == (n - 1) * (n - 1),
        second.num == 4 * lattice_total_spec(n as int),
        second.den == (n - 1) * (n - 1),
    ensures
        first == second,
{
}

} // verus!
