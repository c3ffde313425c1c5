//! Problem-dependent parameters of the local environment.

use crate::errors::LapackError;
use crate::iparmq::{iparmq, iparmq_spec};
use vstd::prelude::*;
use vstd::string::StringSliceAdditionalSpecFns;
use vstd::string::StrSliceExecFns;

verus! {

/// The letters of a routine's name that the choice of a parameter looks at.
#[derive(Clone, Copy, Debug, PartialEq, Eq, Structural)]
pub struct Key {
    /// The first six characters of the name; `'\0'` where the name ends
    /// before.
    pub c0: char,
    pub c1: char,
    pub c2: char,
    pub c3: char,
    pub c4: char,
    pub c5: char,
    /// Whether the eleventh character of the name is `'2'`.
    pub twostage: bool,
}

/// Character `c` of a name whose first character is `first`: a lower-case
/// letter is put in upper case if the name starts with a lower-case letter.
pub open spec fn folded_char(first: char, c: char) -> char {
    if 'a' <= first <= 'z' && 'a' <= c <= 'z' {
        ((c as int) - 32) as char
    } else {
        c
    }
}

/// Character `p` of the name, folded; `'\0'` where the name ends before.
pub open spec fn folded_at(name: Seq<char>, p: int) -> char {
    if 0 <= p < name.len() {
        folded_char(name[0], name[p])
    } else {
        '\0'
    }
}

/// The key of a name.
pub open spec fn key_of(name: Seq<char>) -> Key {
    Key {
        c0: folded_at(name, 0),
        c1: folded_at(name, 1),
        c2: folded_at(name, 2),
        c3: folded_at(name, 3),
        c4: folded_at(name, 4),
        c5: folded_at(name, 5),
        twostage: name.len() >= 11 && name[10] == '2',
    }
}

impl Key {
    /// Whether the routine works on real numbers.
    pub open spec fn on_reals(self) -> bool {
        self.c0 == 'S' || self.c0 == 'D'
    }

    /// Whether the routine works on complex numbers.
    pub open spec fn on_complex(self) -> bool {
        self.c0 == 'C' || self.c0 == 'Z'
    }

    /// Whether the second and third letters are `a` and `b`.
    pub open spec fn kind(self, a: char, b: char) -> bool {
        self.c1 == a && self.c2 == b
    }

    /// Whether the fourth to sixth letters are `a`, `b` and `c`.
    pub open spec fn task(self, a: char, b: char, c: char) -> bool {
        self.c3 == a && self.c4 == b && self.c5 == c
    }

    /// Whether the routine is one of the six factorizations and reductions
    /// of a general matrix.
    pub open spec fn general_reduction(self) -> bool {
        self.kind('G', 'E') && (self.task('Q', 'R', 'F') || self.task('R', 'Q', 'F') || self.task(
            'L',
            'Q',
            'F',
        ) || self.task('Q', 'L', 'F') || self.task('H', 'R', 'D') || self.task('B', 'R', 'D'))
    }

    /// Whether the fifth and sixth letters name one of the seven
    /// factorizations that an orthogonal factor is generated from or
    /// multiplied with.
    pub open spec fn factor_task(self) -> bool {
        (self.c4 == 'Q' && self.c5 == 'R') || (self.c4 == 'R' && self.c5 == 'Q') || (self.c4 == 'L'
            && self.c5 == 'Q') || (self.c4 == 'Q' && self.c5 == 'L') || (self.c4 == 'H' && self.c5
            == 'R') || (self.c4 == 'T' && self.c5 == 'R') || (self.c4 == 'B' && self.c5 == 'R')
    }

    /// Whether the routine is a symmetric or Hermitian indefinite
    /// factorization.
    pub open spec fn indefinite_factorization(self) -> bool {
        (self.kind('S', 'Y') || self.kind('H', 'E')) && self.task('T', 'R', 'F')
    }

    /// Whether the routine is a reduction of a symmetric or Hermitian matrix
    /// to tridiagonal form.
    pub open spec fn tridiagonal_reduction(self) -> bool {
        (self.kind('S', 'Y') || self.kind('H', 'E')) && self.task('T', 'R', 'D')
    }

    /// The optimal block size.
    pub open spec fn block_size(self, n1: i32, n2: i32, n4: i32) -> int {
        let least = if n1 <= n2 {
            n1 as int
        } else {
            n2 as int
        };
        if (self.kind('L', 'A') && self.task('O', 'R', 'H')) || (self.indefinite_factorization()
            && self.twostage) {
            192
        } else if self.indefinite_factorization() {
            64
        } else if self.general_reduction() {
            32
        } else if (self.kind('O', 'R') && self.on_reals()) || (self.kind('U', 'N') && self.on_complex()
            && (self.c3 == 'G' || self.c3 == 'M') && self.factor_task()) {
            32
        } else if (self.kind('G', 'B') || self.kind('P', 'B')) && self.task('T', 'R', 'F') && (n4
            > 64 || n2 > 64) {
            32
        } else if self.kind('T', 'R') && (self.task('T', 'R', 'I') || self.task('E', 'V', 'C')) {
            64
        } else if self.kind('T', 'R') && self.task('S', 'Y', 'L') {
            if self.on_reals() {
                bounded(48, least * 16 / 100, 240)
            } else {
                bounded(24, least * 8 / 100, 80)
            }
        } else if self.kind('L', 'A') && (self.task('U', 'U', 'M') || self.task('T', 'R', 'S')) {
            64
        } else if self.kind('S', 'T') && self.task('E', 'B', 'Z') && self.on_reals() {
            1
        } else if self.kind('G', 'G') && self.task('H', 'D', '3') {
            32
        } else {
            1
        }
    }

    /// The minimum block size for which the blocked routine is used.
    pub open spec fn minimum_block_size(self) -> int {
        if self.general_reduction() {
            2
        } else if self.kind('S', 'Y') && self.task('T', 'R', 'F') {
            8
        } else if self.tridiagonal_reduction() {
            2
        } else if (self.kind('O', 'R') && self.on_reals()) || (self.kind('U', 'N') && self.on_complex()) {
            if self.c3 == 'G' || (self.c3 == 'M' && self.factor_task()) {
                2
            } else {
                1
            }
        } else {
            2
        }
    }

    /// The crossover point below which the unblocked routine is used.
    pub open spec fn crossover(self) -> int {
        if self.general_reduction() {
            128
        } else if self.tridiagonal_reduction() {
            32
        } else if self.kind('G', 'G') && self.task('H', 'D', '3') {
            128
        } else if (self.kind('O', 'R') && self.on_reals()) || (self.kind('U', 'N') && self.on_complex()) {
            if self.c3 == 'G' && self.factor_task() {
                128
            } else {
                0
            }
        } else {
            0
        }
    }
}

/// `x` raised to `low` at least and cut to `high` at most.
pub open spec fn bounded(low: int, x: int, high: int) -> int {
    let raised = if x >= low {
        x
    } else {
        low
    };
    if raised <= high {
        raised
    } else {
        high
    }
}

/// Eight fifths of `x`, rounded to the nearest integer and kept within 32
/// bits.
pub open spec fn eight_fifths(x: int) -> int {
    bounded(i32::MIN as int, (16 * x + 5) / 10, i32::MAX as int)
}

/// The parameter that `ispec` selects; -1 for a selector that is not
/// defined.
pub open spec fn ilaenv_spec(
    ispec: i32,
    name: &str,
    n1: i32,
    n2: i32,
    n3: i32,
    n4: i32,
) -> int {
    let key = key_of(name@);
    if 1 <= ispec <= 3 {
        if !(key.on_reals() || key.on_complex()) {
            1
        } else if ispec == 1 {
            key.block_size(n1, n2, n4)
        } else if ispec == 2 {
            key.minimum_block_size()
        } else {
            key.crossover()
        }
    } else if ispec == 4 {
        6
    } else if ispec == 5 {
        2
    } else if ispec == 6 {
        eight_fifths(if n1 <= n2 {
            n1 as int
        } else {
            n2 as int
        })
    } else if ispec == 7 {
        1
    } else if ispec == 8 {
        50
    } else if ispec == 9 {
        25
    } else if ispec == 10 {
        0
    } else if ispec == 11 {
        1
    } else if 12 <= ispec <= 17 {
        iparmq_spec(ispec, name.spec_bytes(), n2, n3)
    } else {
        -1
    }
}

/// Character `p` of the name, folded.
fn char_at(name: &str, len: usize, p: usize) -> (r: char)
    requires
        len == name@.len(),
    ensures
        r == folded_at(name@, p as int),
{
    if p < len {
        let first = name.get_char(0);
        let c = name.get_char(p);
        if 'a' <= first && first <= 'z' && 'a' <= c && c <= 'z' {
            upper_case(c)
        } else {
            c
        }
    } else {
        '\0'
    }
}

/// The upper-case form of a lower-case letter.
fn upper_case(c: char) -> (r: char)
    requires
        'a' <= c <= 'z',
    ensures
        r == ((c as int) - 32) as char,
{
    let code: u8 = (c as u32 - 32) as u8;
    code as char
}

/// Reads the key of a name.
pub fn read_key(name: &str) -> (r: Key)
    ensures
        r == key_of(name@),
{
    let len = name.unicode_len();
    Key {
        c0: char_at(name, len, 0),
        c1: char_at(name, len, 1),
        c2: char_at(name, len, 2),
        c3: char_at(name, len, 3),
        c4: char_at(name, len, 4),
        c5: char_at(name, len, 5),
        twostage: len >= 11 && name.get_char(10) == '2',
    }
}

impl Key {
    fn is_real(&self) -> (r: bool)
        ensures
            r == self.on_reals(),
    {
        self.c0 == 'S' || self.c0 == 'D'
    }

    fn is_complex(&self) -> (r: bool)
        ensures
            r == self.on_complex(),
    {
        self.c0 == 'C' || self.c0 == 'Z'
    }

    fn is_kind(&self, a: char, b: char) -> (r: bool)
        ensures
            r == self.kind(a, b),
    {
        self.c1 == a && self.c2 == b
    }

    fn is_task(&self, a: char, b: char, c: char) -> (r: bool)
        ensures
            r == self.task(a, b, c),
    {
        self.c3 == a && self.c4 == b && self.c5 == c
    }

    fn is_general_reduction(&self) -> (r: bool)
        ensures
            r == self.general_reduction(),
    {
        self.is_kind('G', 'E') && (self.is_task('Q', 'R', 'F') || self.is_task('R', 'Q', 'F')
            || self.is_task('L', 'Q', 'F') || self.is_task('Q', 'L', 'F') || self.is_task(
            'H',
            'R',
            'D',
        ) || self.is_task('B', 'R', 'D'))
    }

    fn is_factor_task(&self) -> (r: bool)
        ensures
            r == self.factor_task(),
    {
        (self.c4 == 'Q' && self.c5 == 'R') || (self.c4 == 'R' && self.c5 == 'Q') || (self.c4 == 'L'
            && self.c5 == 'Q') || (self.c4 == 'Q' && self.c5 == 'L') || (self.c4 == 'H' && self.c5
            == 'R') || (self.c4 == 'T' && self.c5 == 'R') || (self.c4 == 'B' && self.c5 == 'R')
    }

    fn is_indefinite_factorization(&self) -> (r: bool)
        ensures
            r == self.indefinite_factorization(),
    {
        (self.is_kind('S', 'Y') || self.is_kind('H', 'E')) && self.is_task('T', 'R', 'F')
    }

    fn is_tridiagonal_reduction(&self) -> (r: bool)
        ensures
            r == self.tridiagonal_reduction(),
    {
        (self.is_kind('S', 'Y') || self.is_kind('H', 'E')) && self.is_task('T', 'R', 'D')
    }

    fn is_orthogonal_factor(&self) -> (r: bool)
        ensures
            r == ((self.kind('O', 'R') && self.on_reals()) || (self.kind('U', 'N')
                && self.on_complex())),
    {
        (self.is_kind('O', 'R') && self.is_real()) || (self.is_kind('U', 'N') && self.is_complex())
    }

    /// The optimal block size for the routine.
    pub fn optimal_block_size(&self, n1: i32, n2: i32, n4: i32) -> (r: i32)
        ensures
            r == self.block_size(n1, n2, n4),
    {
        let least: i64 = if n1 <= n2 {
            n1 as i64
        } else {
            n2 as i64
        };
        if (self.is_kind('L', 'A') && self.is_task('O', 'R', 'H')) || (
        self.is_indefinite_factorization() && self.twostage) {
            192
        } else if self.is_indefinite_factorization() {
            64
        } else if self.is_general_reduction() {
            32
        } else if (self.is_kind('O', 'R') && self.is_real()) || (self.is_kind('U', 'N')
            && self.is_complex() && (self.c3 == 'G' || self.c3 == 'M') && self.is_factor_task()) {
            32
        } else if (self.is_kind('G', 'B') || self.is_kind('P', 'B')) && self.is_task('T', 'R', 'F')
            && (n4 > 64 || n2 > 64) {
            32
        } else if self.is_kind('T', 'R') && (self.is_task('T', 'R', 'I') || self.is_task(
            'E',
            'V',
            'C',
        )) {
            64
        } else if self.is_kind('T', 'R') && self.is_task('S', 'Y', 'L') {
            if self.is_real() {
                scaled_between(48, least, 16, 240)
            } else {
                scaled_between(24, least, 8, 80)
            }
        } else if self.is_kind('L', 'A') && (self.is_task('U', 'U', 'M') || self.is_task(
            'T',
            'R',
            'S',
        )) {
            64
        } else if self.is_kind('S', 'T') && self.is_task('E', 'B', 'Z') && self.is_real() {
            1
        } else if self.is_kind('G', 'G') && self.is_task('H', 'D', '3') {
            32
        } else {
            1
        }
    }

    /// The minimum block size for which the blocked routine is used.
    pub fn least_block_size(&self) -> (r: i32)
        ensures
            r == self.minimum_block_size(),
    {
        if self.is_general_reduction() {
            2
        } else if self.is_kind('S', 'Y') && self.is_task('T', 'R', 'F') {
            8
        } else if self.is_tridiagonal_reduction() {
            2
        } else if self.is_orthogonal_factor() {
            if self.c3 == 'G' || (self.c3 == 'M' && self.is_factor_task()) {
                2
            } else {
                1
            }
        } else {
            2
        }
    }

    /// The crossover point below which the unblocked routine is used.
    pub fn crossover_point(&self) -> (r: i32)
        ensures
            r == self.crossover(),
    {
        if self.is_general_reduction() {
            128
        } else if self.is_tridiagonal_reduction() {
            32
        } else if self.is_kind('G', 'G') && self.is_task('H', 'D', '3') {
            128
        } else if self.is_orthogonal_factor() {
            if self.c3 == 'G' && self.is_factor_task() {
                128
            } else {
                0
            }
        } else {
            0
        }
    }
}

/// `least * factor / 100`, raised to `low` at least and cut to `high` at
/// most.
fn scaled_between(low: i32, least: i64, factor: i64, high: i32) -> (r: i32)
    requires
        i32::MIN <= least <= i32::MAX,
        1 <= factor <= 16,
        0 <= low <= high,
    ensures
        r == bounded(low as int, least * factor / 100, high as int),
{
    assert(-0x8000_0000 * 16 <= least * factor <= 0x8000_0000 * 16) by (nonlinear_arith)
        requires
            -0x8000_0000 <= least <= 0x7fff_ffff,
            1 <= factor <= 16,
    ;
    let scaled: i64 = least * factor;
    if scaled < 0 {
        assert(scaled / 100 < 0);
        low
    } else {
        let x: i64 = scaled / 100;
        let raised: i64 = if x >= low as i64 {
            x
        } else {
            low as i64
        };
        if raised <= high as i64 {
            raised as i32
        } else {
            high
        }
    }
}

/// Eight fifths of `x`, rounded to the nearest integer and kept within 32
/// bits.
fn scale_eight_fifths(x: i32) -> (r: i32)
    ensures
        r == eight_fifths(x as int),
{
    let v: i64 = 16 * (x as i64) + 5;
    let q: i64 = if v >= 0 {
        v / 10
    } else {
        let up: i64 = (-v + 9) / 10;
        assert(-up == v / 10) by {
            assert(v / 10 == -((-v + 9) / 10)) by (nonlinear_arith)
                requires
                    v < 0,
            ;
        }
        -up
    };
    if q < i32::MIN as i64 {
        i32::MIN
    } else if q > i32::MAX as i64 {
        i32::MAX
    } else {
        q as i32
    }
}

/// Chooses a problem-dependent parameter. `ispec` selects it: 1 the optimal
/// block size, 2 the minimum block size, 3 the crossover point, each for
/// the routine `name`; 4 the number of shifts of the nonsymmetric
/// eigenvalue routines; 5 the minimum column dimension for blocking; 6 the
/// crossover point of the singular value routines, eight fifths of the
/// smaller of `n1` and `n2`; 7 the number of processors; 8 the crossover
/// point of the multishift method; 9 the size of the subproblems at the
/// bottom of a divide and conquer tree; 10 and 11 whether the arithmetic
/// can be trusted with NaN and with infinity, which are 0 and 1 for
/// IEEE 754; 12 to 17 the parameters of the Hessenberg QR routines on the
/// window `n2..=n3`. Any other selector gives -1.
///
/// For the selectors 1 to 3 the name is read character by character; where
/// it starts with a lower-case letter, the lower-case letters among its
/// first six characters count as upper case. A name that starts with none of
/// `S`, `D`, `C`, `Z` gives 1.
pub fn ilaenv(ispec: i32, name: &str, _opts: &str, n1: i32, n2: i32, n3: i32, n4: i32) -> (r: i32)
    ensures
        r == ilaenv_spec(ispec, name, n1, n2, n3, n4),
{
    if 1 <= ispec && ispec <= 3 {
        let key = read_key(name);
        if !(key.is_real() || key.is_complex()) {
            1
        } else if ispec == 1 {
            key.optimal_block_size(n1, n2, n4)
        } else if ispec == 2 {
            key.least_block_size()
        } else {
            key.crossover_point()
        }
    } else if ispec == 4 {
        6
    } else if ispec == 5 {
        2
    } else if ispec == 6 {
        scale_eight_fifths(if n1 <= n2 {
            n1
        } else {
            n2
        })
    } else if ispec == 7 {
        1
    } else if ispec == 8 {
        50
    } else if ispec == 9 {
        25
    } else if ispec == 10 {
        0
    } else if ispec == 11 {
        1
    } else if 12 <= ispec && ispec <= 17 {
        iparmq(ispec, name, n2, n3)
    } else {
        -1
    }
}

/// Whether the selector `ispec` is answered from the name of a routine.
pub open spec fn reads_name(ispec: i32) -> bool {
    1 <= ispec <= 3 || ispec == 16
}

/// What [`ilaenv_checked`] gives.
pub open spec fn ilaenv_checked_spec(
    ispec: i32,
    name: &str,
    n1: i32,
    n2: i32,
    n3: i32,
    n4: i32,
) -> Result<int, LapackError> {
    if !(1 <= ispec <= 17) {
        Err(LapackError::InvalidIspecValue { value: ispec })
    } else if reads_name(ispec) && name@.len() == 0 {
        Err(LapackError::CannotBeEmpty { param: "name" })
    } else {
        Ok(ilaenv_spec(ispec, name, n1, n2, n3, n4))
    }
}

/// Chooses a problem-dependent parameter as [`ilaenv`] does, but objects to
/// a selector that is not defined and to an empty name where the selector
/// is answered from the name.
pub fn ilaenv_checked(
    ispec: i32,
    name: &str,
    opts: &str,
    n1: i32,
    n2: i32,
    n3: i32,
    n4: i32,
) -> (r: Result<i32, LapackError>)
    ensures
        match (r, ilaenv_checked_spec(ispec, name, n1, n2, n3, n4)) {
            (Ok(v), Ok(w)) => v == w,
            (Err(e), Err(f)) => e == f,
            _ => false,
        },
{
    if ispec < 1 || ispec > 17 {
        Err(LapackError::InvalidIspecValue { value: ispec })
    } else if (ispec <= 3 || ispec == 16) && name.unicode_len() == 0 {
        Err(LapackError::CannotBeEmpty { param: "name" })
    } else {
        Ok(ilaenv(ispec, name, opts, n1, n2, n3, n4))
    }
}

} // verus!
