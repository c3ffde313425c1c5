//! The cases of the shift vector that are settled without arithmetic.
//!
//! The vector is a multiple of the first column of
//! `(H - s1 I) (H - s2 I)` for a block `H` of order 2 or 3. The entries of
//! that column are divided by a sum `s` of magnitudes; where the sum is
//! zero, the vector is zero.

use crate::array::{FortranArray, Grid};
use crate::ieee;
use vstd::prelude::*;

verus! {

/// What is to be done for a block of order `n` whose scaling sum is `s`.
#[derive(Clone, Copy, Debug, PartialEq, Eq, Structural)]
pub enum ShiftVector {
    /// The order is neither 2 nor 3: the vector stays as it is.
    Untouched,
    /// The scaling sum is zero: the first `n` elements are zero.
    Zero,
    /// The first `n` elements are computed from the scaled block.
    Scaled,
}

/// The case of the shift vector.
pub open spec fn shift_vector_case(n: int, s: u64) -> ShiftVector {
    if n != 2 && n != 3 {
        ShiftVector::Untouched
    } else if ieee::equal(s, ieee::ZERO) {
        ShiftVector::Zero
    } else {
        ShiftVector::Scaled
    }
}

/// `v` with positive zero in its first `n` elements.
pub open spec fn zeroed(v: Grid, n: int) -> Grid
    decreases n,
{
    if n <= 0 {
        v
    } else {
        zeroed(v, n - 1).set(n, ieee::ZERO)
    }
}

/// Picks the case of the shift vector for a block of order `n` with the
/// scaling sum `s`, and sets the vector to zero where the sum is zero.
pub fn dlaqr1_case(n: i32, s: u64, v: &mut FortranArray) -> (r: ShiftVector)
    ensures
        r == shift_vector_case(n as int, s),
        final(v)@ == (if r == ShiftVector::Zero {
            zeroed(old(v)@, n as int)
        } else {
            old(v)@
        }),
{
    if n != 2 && n != 3 {
        ShiftVector::Untouched
    } else if ieee::is_zero(s) {
        v.set(1, ieee::ZERO);
        v.set(2, ieee::ZERO);
        if n == 3 {
            v.set(3, ieee::ZERO);
        }
        proof {
            reveal_with_fuel(zeroed, 4);
        }
        ShiftVector::Zero
    } else {
        ShiftVector::Scaled
    }
}

} // verus!
