//! Setting a part of a matrix to one value and its diagonal to another.

use crate::array::region::{in_part, lemma_put_part, put_part, write_part};
use crate::array::{lemma_set_at_then_get_at, FortranArray, Grid};
use vstd::prelude::*;

verus! {

/// `a` after the diagonal entries `i..=k` are set to `beta`, one after the
/// other.
pub open spec fn put_diagonal(a: Grid, beta: u64, i: int, k: int) -> Grid
    decreases k - i + 1,
{
    if i > k {
        a
    } else {
        put_diagonal(a.set_at(i, i, beta), beta, i + 1, k)
    }
}

/// The smaller of the two dimensions.
pub open spec fn diagonal_len(m: int, n: int) -> int {
    if n <= m {
        n
    } else {
        m
    }
}

/// What [`dlaset`] leaves in `a`.
pub open spec fn dlaset_spec(a: Grid, uplo: char, m: int, n: int, alpha: u64, beta: u64) -> Grid {
    put_diagonal(put_part(a, None, alpha, uplo, m, n, 1), beta, 1, diagonal_len(m, n))
}

/// Sets the part of `a` named by `uplo` to `alpha`, then the first
/// `min(m, n)` diagonal entries to `beta`. The part is `j <= i <= m` for
/// `U`, `1 <= i <= j` for `L`, and `1 <= i <= m` for any other letter, each
/// with `1 <= j <= n`.
pub fn dlaset(uplo: char, m: i32, n: i32, alpha: u64, beta: u64, a: &mut FortranArray)
    ensures
        final(a)@ == dlaset_spec(old(a)@, uplo, m as int, n as int, alpha, beta),
{
    write_part(a, None, alpha, uplo, m, n);
    let k: i32 = if n <= m {
        n
    } else {
        m
    };
    let ghost total = put_diagonal(a@, beta, 1, k as int);
    let mut i: i64 = 1;
    while i <= k as i64
        invariant
            1 <= i,
            i <= k + 1 || (k < 1 && i == 1),
            put_diagonal(a@, beta, i as int, k as int) == total,
        decreases k - i + 1,
    {
        a.set_at(i as i32, i as i32, beta);
        i = i + 1;
    }
}

/// Setting diagonal entries sets those that the matrix holds, and no other
/// entry.
pub proof fn lemma_put_diagonal(a: Grid, beta: u64, i: int, k: int, i2: int, j2: int)
    ensures
        put_diagonal(a, beta, i, k).rows == a.rows,
        put_diagonal(a, beta, i, k).cols == a.cols,
        put_diagonal(a, beta, i, k).cells.len() == a.cells.len(),
        put_diagonal(a, beta, i, k).get_at(i2, j2) == (if i2 == j2 && i <= i2 <= k && a.has(
            i2,
            j2,
        ) {
            beta
        } else {
            a.get_at(i2, j2)
        }),
    decreases k - i + 1,
{
    if i <= k {
        lemma_set_at_then_get_at(a, i, i, beta, i2, j2);
        lemma_put_diagonal(a.set_at(i, i, beta), beta, i + 1, k, i2, j2);
    }
}

/// [`dlaset`] leaves `beta` on the first `min(m, n)` diagonal entries,
/// `alpha` on the other entries of the part, and every other entry as it
/// was. What the matrix does not hold stays what such a read gives.
pub proof fn lemma_dlaset(
    a: Grid,
    uplo: char,
    m: int,
    n: int,
    alpha: u64,
    beta: u64,
    i: int,
    j: int,
)
    ensures
        dlaset_spec(a, uplo, m, n, alpha, beta).get_at(i, j) == (if !a.has(i, j) {
            a.get_at(i, j)
        } else if i == j && i <= diagonal_len(m, n) {
            beta
        } else if in_part(uplo, m, n, i, j) {
            alpha
        } else {
            a.get_at(i, j)
        }),
{
    let b = put_part(a, None, alpha, uplo, m, n, 1);
    lemma_put_part(a, None, alpha, uplo, m, n, 1, i, j);
    lemma_put_diagonal(b, beta, 1, diagonal_len(m, n), i, j);
    assert(b.has(i, j) == a.has(i, j));
}

} // verus!
