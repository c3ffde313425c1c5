//! Writing a part of a matrix, column by column.
//!
//! A part is named by a letter: `U` for the entries `(i, j)` with
//! `j <= i <= m`, `L` for those with `1 <= i <= j`, and any other letter for
//! all the entries with `1 <= i <= m`; in each case `1 <= j <= n`. The
//! entries are written in the order of the columns and, within a column, of
//! the rows.

use crate::array::{lemma_set_at_then_get_at, FortranArray, Grid};
use vstd::prelude::*;

verus! {

/// First row of the part in column `j`.
pub open spec fn first_row(uplo: char, j: int) -> int {
    if uplo == 'U' {
        j
    } else {
        1
    }
}

/// Last row of the part in column `j`.
pub open spec fn last_row(uplo: char, m: int, j: int) -> int {
    if uplo == 'L' {
        j
    } else {
        m
    }
}

/// Whether `(i, j)` belongs to the part.
pub open spec fn in_part(uplo: char, m: int, n: int, i: int, j: int) -> bool {
    1 <= j <= n && first_row(uplo, j) <= i <= last_row(uplo, m, j)
}

/// The value written to `(i, j)`: the entry of `src` at that place, or
/// `fill` where there is no source.
pub open spec fn value_at(src: Option<Grid>, fill: u64, i: int, j: int) -> u64 {
    match src {
        Some(a) => a.get_at(i, j),
        None => fill,
    }
}

/// `b` after the rows `lo..=hi` of column `j` are written, one after the
/// other.
pub open spec fn put_column(b: Grid, src: Option<Grid>, fill: u64, j: int, lo: int, hi: int) -> Grid
    decreases hi - lo + 1,
{
    if lo > hi {
        b
    } else {
        put_column(b.set_at(lo, j, value_at(src, fill, lo, j)), src, fill, j, lo + 1, hi)
    }
}

/// `b` after the columns `j..=n` of the part are written, one after the
/// other.
pub open spec fn put_part(
    b: Grid,
    src: Option<Grid>,
    fill: u64,
    uplo: char,
    m: int,
    n: int,
    j: int,
) -> Grid
    decreases n - j + 1,
{
    if j > n {
        b
    } else {
        put_part(
            put_column(b, src, fill, j, first_row(uplo, j), last_row(uplo, m, j)),
            src,
            fill,
            uplo,
            m,
            n,
            j + 1,
        )
    }
}

/// Writing rows of one column sets those entries that the matrix holds, and
/// no other entry.
pub proof fn lemma_put_column(
    b: Grid,
    src: Option<Grid>,
    fill: u64,
    j: int,
    lo: int,
    hi: int,
    i2: int,
    j2: int,
)
    ensures
        put_column(b, src, fill, j, lo, hi).rows == b.rows,
        put_column(b, src, fill, j, lo, hi).cols == b.cols,
        put_column(b, src, fill, j, lo, hi).cells.len() == b.cells.len(),
        put_column(b, src, fill, j, lo, hi).get_at(i2, j2) == (if j2 == j && lo <= i2 <= hi
            && b.has(i2, j2) {
            value_at(src, fill, i2, j2)
        } else {
            b.get_at(i2, j2)
        }),
    decreases hi - lo + 1,
{
    if lo <= hi {
        let v = value_at(src, fill, lo, j);
        let b1 = b.set_at(lo, j, v);
        lemma_set_at_then_get_at(b, lo, j, v, i2, j2);
        lemma_put_column(b1, src, fill, j, lo + 1, hi, i2, j2);
    }
}

/// Writing a part sets each of its entries that the matrix holds to the
/// value meant for it, and leaves every other entry as it was.
pub proof fn lemma_put_part(
    b: Grid,
    src: Option<Grid>,
    fill: u64,
    uplo: char,
    m: int,
    n: int,
    j: int,
    i2: int,
    j2: int,
)
    requires
        1 <= j,
    ensures
        put_part(b, src, fill, uplo, m, n, j).rows == b.rows,
        put_part(b, src, fill, uplo, m, n, j).cols == b.cols,
        put_part(b, src, fill, uplo, m, n, j).cells.len() == b.cells.len(),
        put_part(b, src, fill, uplo, m, n, j).get_at(i2, j2) == (if j <= j2 && in_part(
            uplo,
            m,
            n,
            i2,
            j2,
        ) && b.has(i2, j2) {
            value_at(src, fill, i2, j2)
        } else {
            b.get_at(i2, j2)
        }),
    decreases n - j + 1,
{
    if j <= n {
        let lo = first_row(uplo, j);
        let hi = last_row(uplo, m, j);
        let b1 = put_column(b, src, fill, j, lo, hi);
        lemma_put_column(b, src, fill, j, lo, hi, i2, j2);
        lemma_put_part(b1, src, fill, uplo, m, n, j + 1, i2, j2);
    }
}

/// Writes the part of `b` named by `uplo`: each entry gets the entry of
/// `src` at the same place, or `fill` where there is no source.
pub fn write_part(
    b: &mut FortranArray,
    src: Option<&FortranArray>,
    fill: u64,
    uplo: char,
    m: i32,
    n: i32,
)
    ensures
        final(b)@ == put_part(
            old(b)@,
            match src {
                Some(a) => Some(a@),
                None => None,
            },
            fill,
            uplo,
            m as int,
            n as int,
            1,
        ),
{
    let ghost source: Option<Grid> = match src {
        Some(a) => Some(a@),
        None => None,
    };
    let ghost total = put_part(b@, source, fill, uplo, m as int, n as int, 1);
    let mut j: i64 = 1;
    while j <= n as i64
        invariant
            1 <= j <= n + 1 || (n < 1 && j == 1),
            source == (match src {
                Some(a) => Some(a@),
                None => None,
            }),
            put_part(b@, source, fill, uplo, m as int, n as int, j as int) == total,
        decreases n - j + 1,
    {
        let lo: i64 = if uplo == 'U' {
            j
        } else {
            1
        };
        let hi: i64 = if uplo == 'L' {
            j
        } else {
            m as i64
        };
        let ghost column = put_column(b@, source, fill, j as int, lo as int, hi as int);
        let mut i: i64 = lo;
        while i <= hi
            invariant
                1 <= j <= n,
                1 <= lo <= i,
                hi <= i32::MAX,
                i <= hi + 1 || (hi < lo && i == lo),
                source == (match src {
                    Some(a) => Some(a@),
                    None => None,
                }),
                put_column(b@, source, fill, j as int, i as int, hi as int) == column,
            decreases hi - i + 1,
        {
            let v = match src {
                Some(a) => a.get_at(i as i32, j as i32),
                None => fill,
            };
            b.set_at(i as i32, j as i32, v);
            i = i + 1;
        }
        j = j + 1;
    }
}

} // verus!
