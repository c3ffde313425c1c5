//! IEEE 754 binary64 values as bit patterns.
//!
//! A pattern has a sign bit and a 63-bit magnitude. Magnitudes above that of
//! infinity are NaNs. For every other pattern the signed magnitude orders the
//! values exactly as the numbers they encode are ordered, with the two zeros
//! falling together.

use vstd::prelude::*;

verus! {

/// The sign bit.
pub const SIGN_BIT: u64 = 0x8000_0000_0000_0000;

/// Positive infinity; every larger magnitude is a NaN.
pub const INFINITY: u64 = 0x7ff0_0000_0000_0000;

/// Positive zero.
pub const ZERO: u64 = 0;

/// The number one.
pub const ONE: u64 = 0x3ff0_0000_0000_0000;

/// The smallest positive normal number, 2^-1022.
pub const MIN_POSITIVE: u64 = 0x0010_0000_0000_0000;

/// The largest finite number.
pub const MAX: u64 = 0x7fef_ffff_ffff_ffff;

/// The quiet NaN with an empty payload.
pub const NAN: u64 = 0x7ff8_0000_0000_0000;

/// The pattern without its sign bit.
pub open spec fn magnitude(x: u64) -> int {
    if x >= SIGN_BIT {
        x - SIGN_BIT
    } else {
        x as int
    }
}

/// Whether the sign bit is set.
pub open spec fn sign_set(x: u64) -> bool {
    x >= SIGN_BIT
}

/// Whether the pattern is a NaN.
pub open spec fn nan(x: u64) -> bool {
    magnitude(x) > INFINITY
}

/// The signed magnitude. On patterns that are not NaNs it is strictly
/// monotone in the encoded number, and both zeros have rank 0.
pub open spec fn rank(x: u64) -> int {
    if sign_set(x) {
        -magnitude(x)
    } else {
        magnitude(x)
    }
}

/// Numeric equality: false as soon as one side is a NaN.
pub open spec fn equal(a: u64, b: u64) -> bool {
    !nan(a) && !nan(b) && rank(a) == rank(b)
}

/// Numeric `<`: false as soon as one side is a NaN.
pub open spec fn less(a: u64, b: u64) -> bool {
    !nan(a) && !nan(b) && rank(a) < rank(b)
}

/// Numeric `<=`: false as soon as one side is a NaN.
pub open spec fn at_most(a: u64, b: u64) -> bool {
    !nan(a) && !nan(b) && rank(a) <= rank(b)
}

/// The pattern with its sign bit cleared.
pub open spec fn cleared(x: u64) -> u64 {
    magnitude(x) as u64
}

/// The pattern with its sign bit flipped.
pub open spec fn flipped(x: u64) -> u64 {
    if x >= SIGN_BIT {
        (x - SIGN_BIT) as u64
    } else {
        (x + SIGN_BIT) as u64
    }
}

/// Tells whether `x` is a NaN.
pub fn is_nan(x: u64) -> (r: bool)
    ensures
        r == nan(x),
{
    abs(x) > INFINITY
}

/// Absolute value: clears the sign bit, also of a NaN.
pub fn abs(x: u64) -> (r: u64)
    ensures
        r == cleared(x),
        r < SIGN_BIT,
        nan(r) == nan(x),
        !nan(x) ==> rank(r) == (if rank(x) < 0 { -rank(x) } else { rank(x) }),
{
    if x >= SIGN_BIT {
        x - SIGN_BIT
    } else {
        x
    }
}

/// Negation: flips the sign bit, also of a NaN.
pub fn neg(x: u64) -> (r: u64)
    ensures
        r == flipped(x),
        nan(r) == nan(x),
        rank(r) == -rank(x),
{
    if x >= SIGN_BIT {
        x - SIGN_BIT
    } else {
        x + SIGN_BIT
    }
}

/// The signed magnitude of `x` as a machine integer.
fn rank_of(x: u64) -> (r: i64)
    ensures
        r == rank(x),
{
    if x >= SIGN_BIT {
        let m: u64 = x - SIGN_BIT;
        -(m as i64)
    } else {
        x as i64
    }
}

/// Numeric equality of two patterns.
pub fn eq(a: u64, b: u64) -> (r: bool)
    ensures
        r == equal(a, b),
{
    !is_nan(a) && !is_nan(b) && rank_of(a) == rank_of(b)
}

/// Numeric `a < b`.
pub fn lt(a: u64, b: u64) -> (r: bool)
    ensures
        r == less(a, b),
{
    !is_nan(a) && !is_nan(b) && rank_of(a) < rank_of(b)
}

/// Numeric `a <= b`.
pub fn le(a: u64, b: u64) -> (r: bool)
    ensures
        r == at_most(a, b),
{
    !is_nan(a) && !is_nan(b) && rank_of(a) <= rank_of(b)
}

/// Tells whether `x` is one of the two zeros.
pub fn is_zero(x: u64) -> (r: bool)
    ensures
        r == equal(x, ZERO),
        r == (x == ZERO || x == SIGN_BIT),
{
    x == 0 || x == SIGN_BIT
}

} // verus!
