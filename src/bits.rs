use vstd::prelude::*;

verus! {

/// Largest magnitude field of a binary32 value that is not a NaN (the infinity).
pub const INFINITY_MAGNITUDE: u32 = 0x7f80_0000;

/// Magnitude field (all but the sign bit) of a binary32 bit pattern.
pub open spec fn magnitude(b: u32) -> int {
    (b % 0x8000_0000) as int
}

/// Whether the sign bit of a binary32 bit pattern is set.
pub open spec fn sign_set(b: u32) -> bool {
    b >= 0x8000_0000
}

/// Whether a binary32 bit pattern encodes a NaN.
pub open spec fn is_nan(b: u32) -> bool {
    magnitude(b) > INFINITY_MAGNITUDE
}

/// Position of a binary32 value on the number line: for every pattern that is
/// not a NaN, `a < b` as numbers exactly when `rank(a) < rank(b)`, and both
/// zeros have rank 0.
pub open spec fn rank(b: u32) -> int {
    if sign_set(b) { -magnitude(b) } else { magnitude(b) }
}

/// `a < b` on binary32 values given by their bit patterns.
pub open spec fn less(a: u32, b: u32) -> bool {
    !is_nan(a) && !is_nan(b) && rank(a) < rank(b)
}

/// `a <= b` on binary32 values given by their bit patterns.
pub open spec fn less_eq(a: u32, b: u32) -> bool {
    !is_nan(a) && !is_nan(b) && rank(a) <= rank(b)
}

pub(crate) fn magnitude_of(b: u32) -> (r: u32)
    ensures
        r as int == magnitude(b),
{
    b % 0x8000_0000
}

/// An unsigned key that orders binary32 values as the number line does:
/// both zeros share one key, and for patterns that are not NaNs
/// `key(a) < key(b)` exactly when `a < b`.
pub fn order_key(b: u32) -> (r: u32)
    ensures
        r as int == 0x8000_0000 + rank(b),
{
    let m = magnitude_of(b);
    if b >= 0x8000_0000 {
        0x8000_0000 - m
    } else {
        0x8000_0000 + m
    }
}

/// Bit pattern of `0.0`.
pub const ZERO: u32 = 0;

/// Bit pattern of `1.0`.
pub const ONE: u32 = 0x3f80_0000;

/// Whether `b` encodes a NaN.
pub fn nan(b: u32) -> (r: bool)
    ensures
        r == is_nan(b),
{
    magnitude_of(b) > INFINITY_MAGNITUDE
}

/// `a < b` on the binary32 values with bit patterns `a` and `b`
/// (false as soon as either is a NaN).
pub fn lt(a: u32, b: u32) -> (r: bool)
    ensures
        r == less(a, b),
{
    !nan(a) && !nan(b) && order_key(a) < order_key(b)
}

/// `a <= b` on the binary32 values with bit patterns `a` and `b`
/// (false as soon as either is a NaN).
pub fn le(a: u32, b: u32) -> (r: bool)
    ensures
        r == less_eq(a, b),
{
    !nan(a) && !nan(b) && order_key(a) <= order_key(b)
}

/// `x` clamped to `[min, max]`: `min` when `x < min`, else `max` when
/// `x > max`, else `x` (so a NaN `x` comes back unchanged).
pub open spec fn clamped(x: u32, min: u32, max: u32) -> u32 {
    if less(x, min) {
        min
    } else if less(max, x) {
        max
    } else {
        x
    }
}

/// Bit pattern of the binary32 value `x` clamped to `[min, max]`.
pub fn clamp(x: u32, min: u32, max: u32) -> (r: u32)
    ensures
        r == clamped(x, min, max),
{
    if lt(x, min) {
        min
    } else if lt(max, x) {
        max
    } else {
        x
    }
}

} // verus!
