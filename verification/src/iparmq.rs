//! Parameters of the Hessenberg QR routines and their relatives.

use vstd::prelude::*;
use vstd::string::StringSliceAdditionalSpecFns;

verus! {

/// Selector of the crossover point below which the small-matrix driver is
/// used.
pub const INMIN: i32 = 12;

/// Selector of the size of the deflation window.
pub const INWIN: i32 = 13;

/// Selector of the percentage that decides whether a sweep may be skipped.
pub const INIBL: i32 = 14;

/// Selector of the number of simultaneous shifts.
pub const ISHFTS: i32 = 15;

/// Selector of the way reflections are accumulated.
pub const IACC22: i32 = 16;

/// Selector of the relative cost of a blocked update.
pub const ICOST: i32 = 17;

/// Byte `b` of a name whose first byte is `first`: a lower-case letter is
/// put in upper case if the name starts with a lower-case letter.
pub open spec fn folded_byte(first: u8, b: u8) -> u8 {
    if 97 <= first <= 122 && 97 <= b <= 122 {
        (b - 32) as u8
    } else {
        b
    }
}

/// Whether the name has byte `p` and that byte, folded, is the letter `c`.
pub open spec fn letter_at(name: Seq<u8>, p: int, c: char) -> bool {
    0 <= p < name.len() && folded_byte(name[0], name[p]) == c as u8
}

/// Whether the name has six bytes and the bytes 1 to 5, folded, spell the
/// five letters.
pub open spec fn spells5(name: Seq<u8>, a: char, b: char, c: char, d: char, e: char) -> bool {
    name.len() >= 6 && letter_at(name, 1, a) && letter_at(name, 2, b) && letter_at(name, 3, c)
        && letter_at(name, 4, d) && letter_at(name, 5, e)
}

/// The number of simultaneous shifts: always two.
pub open spec fn shifts() -> int {
    2
}

/// How reflections are accumulated for the routine `name` on a window of
/// `nh` rows: 0 not at all, 1 in a dense matrix, 2 in a matrix whose
/// structure is used.
pub open spec fn accumulation(name: Seq<u8>, nh: int) -> int {
    if spells5(name, 'G', 'G', 'H', 'R', 'D') || spells5(name, 'G', 'G', 'H', 'D', '3') {
        if nh >= 14 {
            2
        } else {
            1
        }
    } else if name.len() >= 6 && letter_at(name, 3, 'E') && letter_at(name, 4, 'X') && letter_at(
        name,
        5,
        'C',
    ) {
        if nh >= 14 {
            1
        } else {
            0
        }
    } else if spells5(name, 'H', 'S', 'E', 'Q', 'R') || (name.len() >= 6 && letter_at(name, 1, 'L')
        && letter_at(name, 2, 'A') && letter_at(name, 3, 'Q') && letter_at(name, 4, 'R')) {
        if shifts() >= 14 {
            1
        } else {
            0
        }
    } else {
        0
    }
}

/// The parameter that `ispec` selects for the routine `name` on the window
/// `ilo..=ihi`; -1 for a selector that is not defined.
pub open spec fn iparmq_spec(ispec: i32, name: Seq<u8>, ilo: i32, ihi: i32) -> int {
    let nh = ihi - ilo + 1;
    if ispec == INMIN {
        75
    } else if ispec == INIBL {
        14
    } else if ispec == ISHFTS {
        shifts()
    } else if ispec == INWIN {
        if nh < 500 {
            shifts()
        } else {
            3 * shifts() / 2
        }
    } else if ispec == IACC22 {
        accumulation(name, nh)
    } else if ispec == ICOST {
        10
    } else {
        -1
    }
}

/// Byte `p` of the name, folded.
fn folded_at(name: &[u8], p: usize) -> (r: u8)
    requires
        p < name@.len(),
    ensures
        r == folded_byte(name@[0], name@[p as int]),
{
    let first = name[0];
    let b = name[p];
    if 97 <= first && first <= 122 && 97 <= b && b <= 122 {
        b - 32
    } else {
        b
    }
}

/// Tells whether the name has byte `p` and that byte, folded, is the letter
/// with the code `code`.
fn has_letter(name: &[u8], p: usize, code: u8) -> (r: bool)
    ensures
        r == (p < name@.len() && folded_byte(name@[0], name@[p as int]) == code),
{
    p < name.len() && folded_at(name, p) == code
}

/// Gives the parameter that `ispec` selects for the routine `name` on the
/// window `ilo..=ihi`, or -1 for a selector that is not defined. The name is
/// read byte by byte; where it starts with a lower-case letter, the
/// lower-case letters among its first six bytes count as upper case.
pub fn iparmq(ispec: i32, name: &str, ilo: i32, ihi: i32) -> (r: i32)
    ensures
        r == iparmq_spec(ispec, name.spec_bytes(), ilo, ihi),
{
    let nh: i64 = ihi as i64 - ilo as i64 + 1;
    let ns: i32 = 2;
    if ispec == INMIN {
        75
    } else if ispec == INIBL {
        14
    } else if ispec == ISHFTS {
        ns
    } else if ispec == INWIN {
        if nh < 500 {
            ns
        } else {
            3 * ns / 2
        }
    } else if ispec == IACC22 {
        let b = name.as_bytes();
        let long = b.len() >= 6;
        let g1 = has_letter(b, 1, 71);
        let g2 = has_letter(b, 2, 71);
        let h3 = has_letter(b, 3, 72);
        let gghrd = long && g1 && g2 && h3 && has_letter(b, 4, 82) && has_letter(b, 5, 68);
        let gghd3 = long && g1 && g2 && h3 && has_letter(b, 4, 68) && has_letter(b, 5, 51);
        let exc = long && has_letter(b, 3, 69) && has_letter(b, 4, 88) && has_letter(b, 5, 67);
        let hseqr = long && has_letter(b, 1, 72) && has_letter(b, 2, 83) && has_letter(b, 3, 69)
            && has_letter(b, 4, 81) && has_letter(b, 5, 82);
        let laqr = long && has_letter(b, 1, 76) && has_letter(b, 2, 65) && has_letter(b, 3, 81)
            && has_letter(b, 4, 82);
        if gghrd || gghd3 {
            if nh >= 14 {
                2
            } else {
                1
            }
        } else if exc {
            if nh >= 14 {
                1
            } else {
                0
            }
        } else if hseqr || laqr {
            if ns >= 14 {
                1
            } else {
                0
            }
        } else {
            0
        }
    } else if ispec == ICOST {
        10
    } else {
        -1
    }
}

} // verus!
