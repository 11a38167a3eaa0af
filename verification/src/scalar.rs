//! Fixed-point scalars for the continuous quantities of the simulation.
//!
//! Strengths, radii, forces and time deltas are stored as signed integers in
//! units of one millionth, so a stored value of [`SCALE`] means `1.0`.  All
//! arithmetic on them is exact integer arithmetic, bounded by [`SCALAR_MAX`]
//! so that products of up to three scalars fit comfortably in 128 bits.

use vstd::prelude::*;

verus! {

/// Stored units per whole unit: a scalar of `SCALE` means `1.0`.
pub const SCALE: i64 = 1_000_000;

/// The idle threshold for force receivers, `0.0001` in whole units.
pub const EPSILON: i64 = 100;

/// Largest magnitude any scalar of the simulation may take.
pub const SCALAR_MAX: i64 = 1_000_000_000_000;

pub open spec fn in_scalar_range(x: int) -> bool {
    -SCALAR_MAX <= x <= SCALAR_MAX
}

/// An integer square root, used for distances between world positions.
/// Returns the largest `r` with `r * r <= x`.
pub fn isqrt(x: u128) -> (r: u64)
    requires
        x <= 100_000_000_000_000_000_000_000_000,
    ensures
        (r as int) * (r as int) <= x < (r as int + 1) * (r as int + 1),
        r <= 10_000_000_000_000,
{
    if x == 0 {
        return 0;
    }
    let mut lo: u64 = 0;
    let mut hi: u64 = 10_000_000_000_001;
    proof {
        assert((10_000_000_000_001int) * (10_000_000_000_001int)
            > 100_000_000_000_000_000_000_000_000);
    }
    while lo + 1 < hi
        invariant
            lo < hi <= 10_000_000_000_001,
            (lo as int) * (lo as int) <= x,
            (hi as int) * (hi as int) > x,
        decreases hi - lo,
    {
        let mid: u64 = lo + (hi - lo) / 2;
        proof {
            assert((mid as int) * (mid as int) <= (10_000_000_000_001int) * (10_000_000_000_001int))
                by (nonlinear_arith)
                requires
                    0 <= mid <= 10_000_000_000_001,
            ;
        }
        let sq: u128 = (mid as u128) * (mid as u128);
        if sq <= x {
            lo = mid;
        } else {
            hi = mid;
        }
    }
    lo
}

} // verus!
