use vstd::prelude::*;

use crate::bits::{less, lt, ONE, ZERO};

verus! {

/// Whether a metal keeps a scattered ray: the dot product of the scattered
/// direction with the surface normal (given by its bit pattern) is above
/// zero. Otherwise the ray was fuzzed into the surface and is absorbed.
pub fn metal_scatters(dot: u32) -> (r: bool)
    ensures
        r == less(ZERO, dot),
{
    lt(ZERO, dot)
}

/// How a dielectric sends a ray on.
#[derive(Clone, Copy, Debug, PartialEq, Eq, Structural)]
pub enum Bend {
    /// Mirror reflection about the normal.
    Reflect,
    /// Refraction by Snell's law.
    Refract,
}

/// A dielectric reflects when refraction is impossible
/// (`ratio * sin_theta > 1`, total internal reflection) or when the uniform
/// draw falls below the Schlick reflectance; it refracts otherwise.
pub open spec fn bend_of(ratio_sin: u32, reflectance: u32, draw: u32) -> Bend {
    if less(ONE, ratio_sin) || less(draw, reflectance) {
        Bend::Reflect
    } else {
        Bend::Refract
    }
}

/// Chooses between reflection and refraction at a dielectric, given the bit
/// patterns of `ratio * sin_theta`, of the Schlick reflectance and of a
/// uniform draw from `[0, 1)`.
pub fn dielectric_bend(ratio_sin: u32, reflectance: u32, draw: u32) -> (r: Bend)
    ensures
        r == bend_of(ratio_sin, reflectance, draw),
{
    if lt(ONE, ratio_sin) || lt(draw, reflectance) {
        Bend::Reflect
    } else {
        Bend::Refract
    }
}

} // verus!
