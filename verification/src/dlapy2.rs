//! The cases of `sqrt(x^2 + y^2)` that are settled without arithmetic.

use crate::ieee;
use vstd::prelude::*;

verus! {

/// How `sqrt(x^2 + y^2)` is to be had.
#[derive(Clone, Copy, Debug, PartialEq, Eq, Structural)]
pub enum Hypot {
    /// The result is this number.
    Exact { value: u64 },
    /// The result is `w * sqrt(1 + (z / w)^2)`, with `w` the larger and `z`
    /// the smaller of the two magnitudes, `z` not zero and `w` finite.
    Scaled { w: u64, z: u64 },
}

/// The larger of two magnitudes that are not NaNs.
pub open spec fn larger_magnitude(x: u64, y: u64) -> u64 {
    if ieee::rank(ieee::cleared(x)) >= ieee::rank(ieee::cleared(y)) {
        ieee::cleared(x)
    } else {
        ieee::cleared(y)
    }
}

/// The smaller of two magnitudes that are not NaNs.
pub open spec fn smaller_magnitude(x: u64, y: u64) -> u64 {
    if ieee::rank(ieee::cleared(x)) >= ieee::rank(ieee::cleared(y)) {
        ieee::cleared(y)
    } else {
        ieee::cleared(x)
    }
}

/// The case of `sqrt(x^2 + y^2)`: a NaN among the arguments is the result,
/// `x` before `y`; else the larger magnitude is the result if the smaller
/// is zero or the larger is infinite.
pub open spec fn hypot_case(x: u64, y: u64) -> Hypot {
    if ieee::nan(x) {
        Hypot::Exact { value: x }
    } else if ieee::nan(y) {
        Hypot::Exact { value: y }
    } else if smaller_magnitude(x, y) == ieee::ZERO || larger_magnitude(x, y) == ieee::INFINITY {
        Hypot::Exact { value: larger_magnitude(x, y) }
    } else {
        Hypot::Scaled { w: larger_magnitude(x, y), z: smaller_magnitude(x, y) }
    }
}

/// Settles `sqrt(x^2 + y^2)` where that takes no arithmetic, and else gives
/// the two magnitudes in the order that keeps the quotient at most one.
pub fn dlapy2_case(x: u64, y: u64) -> (r: Hypot)
    ensures
        r == hypot_case(x, y),
        r matches Hypot::Scaled { w, z } ==> ieee::less(ieee::ZERO, z) && ieee::at_most(z, w)
            && ieee::less(w, ieee::INFINITY),
{
    if ieee::is_nan(x) {
        return Hypot::Exact { value: x };
    }
    if ieee::is_nan(y) {
        return Hypot::Exact { value: y };
    }
    let ax = ieee::abs(x);
    let ay = ieee::abs(y);
    let (w, z) = if ax >= ay {
        (ax, ay)
    } else {
        (ay, ax)
    };
    if z == ieee::ZERO || w == ieee::INFINITY {
        Hypot::Exact { value: w }
    } else {
        Hypot::Scaled { w, z }
    }
}

} // verus!
