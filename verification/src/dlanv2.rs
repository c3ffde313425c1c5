//! The cases of the 2 by 2 standardization that are settled without
//! arithmetic.
//!
//! A real block `[a b; c d]` is brought to a form that is upper triangular,
//! or has equal diagonal entries and off-diagonal entries of opposite sign,
//! by a rotation `[cs sn; -sn cs]` applied from both sides. Where `c` is
//! zero the block is in that form already. Where `b` is zero and `c` is not,
//! a quarter turn does it: the diagonal entries change places and `c` moves
//! to the upper right with its sign changed. Every other block needs rounded
//! arithmetic and is left to the caller.

use crate::ieee;
use vstd::prelude::*;

verus! {

/// A standardized block with its eigenvalues and the rotation that led to
/// it.
#[derive(Clone, Copy, Debug, PartialEq, Eq, Structural)]
pub struct Schur2 {
    pub a: u64,
    pub b: u64,
    pub c: u64,
    pub d: u64,
    /// Real and imaginary part of the first eigenvalue.
    pub rt1r: u64,
    pub rt1i: u64,
    /// Real and imaginary part of the second eigenvalue.
    pub rt2r: u64,
    pub rt2i: u64,
    /// Cosine and sine of the rotation.
    pub cs: u64,
    pub sn: u64,
}

/// The standard form of `[a b; c d]` where it needs no arithmetic.
pub open spec fn settled(a: u64, b: u64, c: u64, d: u64) -> Option<Schur2> {
    if ieee::equal(c, ieee::ZERO) {
        Some(
            Schur2 {
                a,
                b,
                c,
                d,
                rt1r: a,
                rt1i: ieee::ZERO,
                rt2r: d,
                rt2i: ieee::ZERO,
                cs: ieee::ONE,
                sn: ieee::ZERO,
            },
        )
    } else if ieee::equal(b, ieee::ZERO) {
        Some(
            Schur2 {
                a: d,
                b: ieee::flipped(c),
                c: ieee::ZERO,
                d: a,
                rt1r: d,
                rt1i: ieee::ZERO,
                rt2r: a,
                rt2i: ieee::ZERO,
                cs: ieee::ZERO,
                sn: ieee::ONE,
            },
        )
    } else {
        None
    }
}

/// Standardizes the block `[a b; c d]` if that takes no arithmetic: where
/// `c` is zero, and where `b` is zero. Gives `None` for every other block.
pub fn dlanv2_settled(a: u64, b: u64, c: u64, d: u64) -> (r: Option<Schur2>)
    ensures
        r == settled(a, b, c, d),
{
    if ieee::is_zero(c) {
        Some(
            Schur2 {
                a,
                b,
                c,
                d,
                rt1r: a,
                rt1i: ieee::ZERO,
                rt2r: d,
                rt2i: ieee::ZERO,
                cs: ieee::ONE,
                sn: ieee::ZERO,
            },
        )
    } else if ieee::is_zero(b) {
        Some(
            Schur2 {
                a: d,
                b: ieee::neg(c),
                c: ieee::ZERO,
                d: a,
                rt1r: d,
                rt1i: ieee::ZERO,
                rt2r: a,
                rt2i: ieee::ZERO,
                cs: ieee::ZERO,
                sn: ieee::ONE,
            },
        )
    } else {
        None
    }
}

/// A block that is settled without arithmetic comes out upper triangular
/// with its real eigenvalues on the diagonal; the rotation is the identity
/// or a quarter turn; the diagonal holds the same two numbers as before; and
/// the off-diagonal entry that is not zero keeps its magnitude.
pub proof fn lemma_settled_form(a: u64, b: u64, c: u64, d: u64)
    requires
        settled(a, b, c, d) is Some,
    ensures
        ({
            let s = settled(a, b, c, d)->0;
            &&& ieee::equal(s.c, ieee::ZERO)
            &&& s.rt1r == s.a && s.rt2r == s.d
            &&& s.rt1i == ieee::ZERO && s.rt2i == ieee::ZERO
            &&& (s.cs == ieee::ONE && s.sn == ieee::ZERO) || (s.cs == ieee::ZERO && s.sn
                == ieee::ONE)
            &&& (s.a == a && s.d == d) || (s.a == d && s.d == a)
            &&& ieee::cleared(s.b) == ieee::cleared(b) || ieee::cleared(s.b) == ieee::cleared(c)
        }),
{
}

} // verus!
