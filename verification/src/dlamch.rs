//! Parameters of binary64 arithmetic.

use vstd::prelude::*;

verus! {

/// The relative rounding unit, 2^-53.
pub const EPS: u64 = 0x3ca0_0000_0000_0000;

/// The safe minimum, 2^-1022: the smallest number whose reciprocal does not
/// overflow.
pub const SAFE_MIN: u64 = 0x0010_0000_0000_0000;

/// The base of the arithmetic, 2.
pub const BASE: u64 = 0x4000_0000_0000_0000;

/// The precision, `EPS * BASE` = 2^-52.
pub const PRECISION: u64 = 0x3cb0_0000_0000_0000;

/// The number of base digits in the mantissa, 53.
pub const DIGITS: u64 = 0x404a_8000_0000_0000;

/// The constant that marks rounding in addition, 1.
pub const ROUNDING: u64 = 0x3ff0_0000_0000_0000;

/// The minimum exponent before gradual underflow, -1021.
pub const MIN_EXPONENT: u64 = 0xc08f_e800_0000_0000;

/// The underflow threshold, 2^-1022.
pub const UNDERFLOW: u64 = 0x0010_0000_0000_0000;

/// The largest exponent before overflow, 1024.
pub const MAX_EXPONENT: u64 = 0x4090_0000_0000_0000;

/// The overflow threshold, (2 - 2^-52) * 2^1023.
pub const OVERFLOW: u64 = 0x7fef_ffff_ffff_ffff;

/// The parameter that the selector `cmach` names, as a binary64 pattern;
/// positive zero for a selector that names none.
pub open spec fn parameter(cmach: char) -> u64 {
    if cmach == 'E' {
        EPS
    } else if cmach == 'S' {
        SAFE_MIN
    } else if cmach == 'B' {
        BASE
    } else if cmach == 'P' {
        PRECISION
    } else if cmach == 'N' {
        DIGITS
    } else if cmach == 'R' {
        ROUNDING
    } else if cmach == 'M' {
        MIN_EXPONENT
    } else if cmach == 'U' {
        UNDERFLOW
    } else if cmach == 'L' {
        MAX_EXPONENT
    } else if cmach == 'O' {
        OVERFLOW
    } else {
        0
    }
}

/// Gives the machine parameter that `cmach` names: `E` the rounding unit,
/// `S` the safe minimum, `B` the base, `P` the precision, `N` the number of
/// mantissa digits, `R` the rounding mark, `M` the minimum exponent, `U` the
/// underflow threshold, `L` the maximum exponent, `O` the overflow
/// threshold. The letters are upper case.
pub fn dlamch(cmach: char) -> (r: u64)
    ensures
        r == parameter(cmach),
{
    match cmach {
        'E' => EPS,
        'S' => SAFE_MIN,
        'B' => BASE,
        'P' => PRECISION,
        'N' => DIGITS,
        'R' => ROUNDING,
        'M' => MIN_EXPONENT,
        'U' => UNDERFLOW,
        'L' => MAX_EXPONENT,
        'O' => OVERFLOW,
        _ => 0,
    }
}

} // verus!
