//! Comparison of option letters without regard to case.

use vstd::prelude::*;

verus! {

/// Whether `c` is the code of an ASCII letter.
pub open spec fn is_letter(c: int) -> bool {
    65 <= c <= 90 || 97 <= c <= 122
}

/// The code of the upper-case form of an ASCII letter; other codes stay.
pub open spec fn upper(c: int) -> int {
    if 97 <= c <= 122 {
        c - 32
    } else {
        c
    }
}

/// Whether two characters are the same, or are the same ASCII letter in
/// either case.
pub open spec fn same_letter(ca: char, cb: char) -> bool {
    let a = ca as int;
    let b = cb as int;
    a == b || (is_letter(a) && is_letter(b) && upper(a) == upper(b))
}

/// Tells whether `ca` is the same letter as `cb` regardless of case. A
/// character that is no ASCII letter is the same as itself only.
pub fn lsame(ca: char, cb: char) -> (r: bool)
    ensures
        r == same_letter(ca, cb),
{
    let a = ca as u32;
    let b = cb as u32;
    if a == b {
        return true;
    }
    let a_letter = (65 <= a && a <= 90) || (97 <= a && a <= 122);
    let b_letter = (65 <= b && b <= 90) || (97 <= b && b <= 122);
    if !a_letter || !b_letter {
        return false;
    }
    let ua = if a >= 97 {
        a - 32
    } else {
        a
    };
    let ub = if b >= 97 {
        b - 32
    } else {
        b
    };
    ua == ub
}

} // verus!
