// Decisions of a Monte Carlo path tracer, on the bit patterns of the binary32
// values they compare: which sphere root is hit, which scene member is closest,
// which side of a surface is met, how a material sends a ray on, and when a
// path ends.
use vstd::prelude::*;

pub mod bits;
pub mod geometry;
pub mod material;
pub mod trace;
pub mod vector;

verus! {

} // verus!
