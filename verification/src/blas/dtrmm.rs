//! What the triangular matrix product does before any arithmetic: it checks
//! its arguments and picks the case.

use crate::blas::dgemm::at_least_one;
use crate::blas::lsame::{lsame, same_letter};
use crate::ieee;
use vstd::prelude::*;

verus! {

/// The case that the arguments of `B := alpha * op(A) * B` or
/// `B := alpha * B * op(A)` fall under.
#[derive(Clone, Copy, Debug, PartialEq, Eq, Structural)]
pub enum TrmmPlan {
    /// Argument number `info` is not valid.
    Rejected { info: i32 },
    /// `B` stays as it is.
    Nothing,
    /// `B` becomes zero.
    Clear,
    /// The product is formed: with `A` on the left or on the right, `A`
    /// upper or lower triangular, taken as it is or transposed, with the
    /// diagonal it holds or with a unit diagonal.
    Product { left: bool, upper: bool, plain: bool, nounit: bool },
}

/// The number of the first argument that is not valid, or 0.
pub open spec fn dtrmm_info(
    side: char,
    uplo: char,
    transa: char,
    diag: char,
    m: int,
    n: int,
    lda: int,
    ldb: int,
) -> int {
    let lside = same_letter(side, 'L');
    let nrowa = if lside {
        m
    } else {
        n
    };
    if !lside && !same_letter(side, 'R') {
        1
    } else if !same_letter(uplo, 'U') && !same_letter(uplo, 'L') {
        2
    } else if !same_letter(transa, 'N') && !same_letter(transa, 'T') && !same_letter(transa, 'C') {
        3
    } else if !same_letter(diag, 'U') && !same_letter(diag, 'N') {
        4
    } else if m < 0 {
        5
    } else if n < 0 {
        6
    } else if lda < at_least_one(nrowa) {
        9
    } else if ldb < at_least_one(m) {
        11
    } else {
        0
    }
}

/// The case of the product.
pub open spec fn dtrmm_plan_spec(
    side: char,
    uplo: char,
    transa: char,
    diag: char,
    m: int,
    n: int,
    alpha: u64,
    lda: int,
    ldb: int,
) -> TrmmPlan {
    let info = dtrmm_info(side, uplo, transa, diag, m, n, lda, ldb);
    if info != 0 {
        TrmmPlan::Rejected { info: info as i32 }
    } else if m == 0 || n == 0 {
        TrmmPlan::Nothing
    } else if ieee::equal(alpha, ieee::ZERO) {
        TrmmPlan::Clear
    } else {
        TrmmPlan::Product {
            left: same_letter(side, 'L'),
            upper: same_letter(uplo, 'U'),
            plain: same_letter(transa, 'N'),
            nounit: same_letter(diag, 'N'),
        }
    }
}

/// Checks the arguments of the triangular matrix product and picks its
/// case. The arguments are checked in their order, and the first one that is
/// not valid is reported by its position in the full argument list.
pub fn dtrmm_plan(
    side: char,
    uplo: char,
    transa: char,
    diag: char,
    m: i32,
    n: i32,
    alpha: u64,
    lda: i32,
    ldb: i32,
) -> (r: TrmmPlan)
    ensures
        r == dtrmm_plan_spec(
            side,
            uplo,
            transa,
            diag,
            m as int,
            n as int,
            alpha,
            lda as int,
            ldb as int,
        ),
{
    let lside = lsame(side, 'L');
    let nrowa = if lside {
        m
    } else {
        n
    };
    let nounit = lsame(diag, 'N');
    let upper = lsame(uplo, 'U');
    let plain = lsame(transa, 'N');
    let info: i32 = if !lside && !lsame(side, 'R') {
        1
    } else if !upper && !lsame(uplo, 'L') {
        2
    } else if !plain && !lsame(transa, 'T') && !lsame(transa, 'C') {
        3
    } else if !lsame(diag, 'U') && !nounit {
        4
    } else if m < 0 {
        5
    } else if n < 0 {
        6
    } else if lda < (if nrowa >= 1 {
        nrowa
    } else {
        1
    }) {
        9
    } else if ldb < (if m >= 1 {
        m
    } else {
        1
    }) {
        11
    } else {
        0
    };
    if info != 0 {
        TrmmPlan::Rejected { info }
    } else if m == 0 || n == 0 {
        TrmmPlan::Nothing
    } else if ieee::is_zero(alpha) {
        TrmmPlan::Clear
    } else {
        TrmmPlan::Product { left: lside, upper, plain, nounit }
    }
}

} // verus!
