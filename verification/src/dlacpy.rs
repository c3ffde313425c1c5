//! Copying a part of a matrix.

use crate::array::region::{in_part, lemma_put_part, put_part, write_part};
use crate::array::{FortranArray, Grid};
use vstd::prelude::*;

verus! {

/// What [`dlacpy`] leaves in `b`.
pub open spec fn dlacpy_spec(uplo: char, m: int, n: int, a: Grid, lda: int, b: Grid, ldb: int) -> Grid {
    put_part(b.reshaped(ldb), Some(a.reshaped(lda)), 0, uplo, m, n, 1)
}

/// Copies the part of `a` named by `uplo` to `b`, where `a` is read with
/// `lda` rows and `b` is given `ldb` rows. The part is `j <= i <= m` for
/// `U`, `1 <= i <= j` for `L`, and `1 <= i <= m` for any other letter, each
/// with `1 <= j <= n`.
pub fn dlacpy(
    uplo: char,
    m: i32,
    n: i32,
    a: &FortranArray,
    lda: i32,
    b: &mut FortranArray,
    ldb: i32,
)
    requires
        lda != 0,
        ldb != 0,
        a@.cells.len() <= i32::MAX,
        old(b)@.cells.len() <= i32::MAX,
    ensures
        final(b)@ == dlacpy_spec(uplo, m as int, n as int, a@, lda as int, old(b)@, ldb as int),
{
    let mut src = a.clone();
    src.as_2d(lda);
    b.as_2d(ldb);
    write_part(b, Some(&src), 0, uplo, m, n);
}

/// [`dlacpy`] makes every entry of the part that `b` holds equal to the
/// entry of `a` at the same place, and leaves every other entry as it was.
pub proof fn lemma_dlacpy(
    uplo: char,
    m: int,
    n: int,
    a: Grid,
    lda: int,
    b: Grid,
    ldb: int,
    i: int,
    j: int,
)
    ensures
        dlacpy_spec(uplo, m, n, a, lda, b, ldb).get_at(i, j) == (if in_part(uplo, m, n, i, j)
            && b.reshaped(ldb).has(i, j) {
            a.reshaped(lda).get_at(i, j)
        } else {
            b.reshaped(ldb).get_at(i, j)
        }),
{
    lemma_put_part(b.reshaped(ldb), Some(a.reshaped(lda)), 0, uplo, m, n, 1, i, j);
}

} // verus!
