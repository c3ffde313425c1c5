//! The decisions of the generation of an elementary reflector.
//!
//! A reflector `H = I - tau * (1, v) (1, v)'` of order `n` takes the vector
//! `(alpha, x)` to `(beta, 0)`. The order and the norm of `x` decide whether
//! `H` is the identity; the size of `beta` decides whether `alpha` and `x`
//! are scaled up before `beta` is computed anew.

use crate::ieee;
use vstd::prelude::*;

verus! {

/// The most times that `alpha` and `x` are scaled up.
pub const MAX_RESCALINGS: u32 = 20;

/// Whether the reflector of order `n` for a vector `x` of norm `xnorm` is
/// the identity, so that `tau` is zero and `alpha` and `x` stay.
pub open spec fn identity_reflector(n: int, xnorm: u64) -> bool {
    n <= 1 || ieee::equal(xnorm, ieee::ZERO)
}

/// Whether `alpha` and `x` are scaled up once more: `beta` is below the
/// safe minimum in magnitude, and they have been scaled less than twenty
/// times.
pub open spec fn rescaling_due(beta: u64, safmin: u64, knt: int) -> bool {
    ieee::less(ieee::cleared(beta), safmin) && knt < MAX_RESCALINGS
}

/// Tells whether the reflector is the identity. With an order of one or
/// less the norm is not looked at.
pub fn is_identity_reflector(n: i32, xnorm: u64) -> (r: bool)
    ensures
        r == identity_reflector(n as int, xnorm),
{
    n <= 1 || ieee::is_zero(xnorm)
}

/// Tells whether `alpha` and `x` are to be scaled up once more, after `knt`
/// scalings.
pub fn is_rescaling_due(beta: u64, safmin: u64, knt: u32) -> (r: bool)
    ensures
        r == rescaling_due(beta, safmin, knt as int),
{
    ieee::lt(ieee::abs(beta), safmin) && knt < MAX_RESCALINGS
}

} // verus!
