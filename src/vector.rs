use vstd::prelude::*;

use crate::bits::{magnitude, magnitude_of};

verus! {

/// Bit pattern of `1e-8`, the bound below which a component counts as zero.
pub const NEAR_ZERO_BOUND: u32 = 0x322b_cc77;

/// `|c| < 1e-8` for the binary32 value with bit pattern `c`. A NaN is
/// never near zero: its magnitude field lies above every finite one.
pub open spec fn component_near_zero(c: u32) -> bool {
    magnitude(c) < NEAR_ZERO_BOUND
}

/// Whether every component of the vector `(x, y, z)`, given by the bit
/// patterns of its binary32 components, has absolute value below `1e-8`.
/// Used to catch scatter directions too short to normalise.
pub fn near_zero(x: u32, y: u32, z: u32) -> (r: bool)
    ensures
        r == (component_near_zero(x) && component_near_zero(y) && component_near_zero(z)),
{
    magnitude_of(x) < NEAR_ZERO_BOUND && magnitude_of(y) < NEAR_ZERO_BOUND
        && magnitude_of(z) < NEAR_ZERO_BOUND
}

} // verus!
