//! What the general matrix product does before any arithmetic: it checks
//! its arguments and picks the case.

use crate::blas::lsame::{lsame, same_letter};
use crate::ieee;
use vstd::prelude::*;

verus! {

/// The case that the arguments of `C := alpha * op(A) * op(B) + beta * C`
/// fall under.
#[derive(Clone, Copy, Debug, PartialEq, Eq, Structural)]
pub enum GemmPlan {
    /// Argument number `info` is not valid.
    Rejected { info: i32 },
    /// `C` stays as it is.
    Nothing,
    /// `C` becomes zero.
    Clear,
    /// `C` is multiplied by `beta`.
    Scale,
    /// The product is formed; `nota` and `notb` tell which factors are taken
    /// as they are and not transposed.
    Product { nota: bool, notb: bool },
}

/// The larger of 1 and `x`.
pub open spec fn at_least_one(x: int) -> int {
    if x >= 1 {
        x
    } else {
        1
    }
}

/// The number of the first argument that is not valid, or 0.
pub open spec fn dgemm_info(
    transa: char,
    transb: char,
    m: int,
    n: int,
    k: int,
    lda: int,
    ldb: int,
    ldc: int,
) -> int {
    let nota = same_letter(transa, 'N');
    let notb = same_letter(transb, 'N');
    let nrowa = if nota {
        m
    } else {
        k
    };
    let nrowb = if notb {
        k
    } else {
        n
    };
    if !nota && !same_letter(transa, 'C') && !same_letter(transa, 'T') {
        1
    } else if !notb && !same_letter(transb, 'C') && !same_letter(transb, 'T') {
        2
    } else if m < 0 {
        3
    } else if n < 0 {
        4
    } else if k < 0 {
        5
    } else if lda < at_least_one(nrowa) {
        8
    } else if ldb < at_least_one(nrowb) {
        10
    } else if ldc < at_least_one(m) {
        13
    } else {
        0
    }
}

/// The case of the product.
pub open spec fn dgemm_plan_spec(
    transa: char,
    transb: char,
    m: int,
    n: int,
    k: int,
    alpha: u64,
    lda: int,
    ldb: int,
    beta: u64,
    ldc: int,
) -> GemmPlan {
    let info = dgemm_info(transa, transb, m, n, k, lda, ldb, ldc);
    let no_product = ieee::equal(alpha, ieee::ZERO);
    if info != 0 {
        GemmPlan::Rejected { info: info as i32 }
    } else if m == 0 || n == 0 || ((no_product || k == 0) && ieee::equal(beta, ieee::ONE)) {
        GemmPlan::Nothing
    } else if no_product {
        if ieee::equal(beta, ieee::ZERO) {
            GemmPlan::Clear
        } else {
            GemmPlan::Scale
        }
    } else {
        GemmPlan::Product {
            nota: same_letter(transa, 'N'),
            notb: same_letter(transb, 'N'),
        }
    }
}

/// The larger of 1 and `x`.
fn one_or(x: i32) -> (r: i32)
    ensures
        r == at_least_one(x as int),
{
    if x >= 1 {
        x
    } else {
        1
    }
}

/// Checks the arguments of the general matrix product and picks its case.
/// The arguments are checked in their order, and the first one that is not
/// valid is reported by its position in the full argument list.
pub fn dgemm_plan(
    transa: char,
    transb: char,
    m: i32,
    n: i32,
    k: i32,
    alpha: u64,
    lda: i32,
    ldb: i32,
    beta: u64,
    ldc: i32,
) -> (r: GemmPlan)
    ensures
        r == dgemm_plan_spec(
            transa,
            transb,
            m as int,
            n as int,
            k as int,
            alpha,
            lda as int,
            ldb as int,
            beta,
            ldc as int,
        ),
{
    let nota = lsame(transa, 'N');
    let notb = lsame(transb, 'N');
    let nrowa = if nota {
        m
    } else {
        k
    };
    let nrowb = if notb {
        k
    } else {
        n
    };
    let info: i32 = if !nota && !lsame(transa, 'C') && !lsame(transa, 'T') {
        1
    } else if !notb && !lsame(transb, 'C') && !lsame(transb, 'T') {
        2
    } else if m < 0 {
        3
    } else if n < 0 {
        4
    } else if k < 0 {
        5
    } else if lda < one_or(nrowa) {
        8
    } else if ldb < one_or(nrowb) {
        10
    } else if ldc < one_or(m) {
        13
    } else {
        0
    };
    if info != 0 {
        return GemmPlan::Rejected { info };
    }
    let no_product = ieee::is_zero(alpha);
    if m == 0 || n == 0 || ((no_product || k == 0) && ieee::eq(beta, ieee::ONE)) {
        GemmPlan::Nothing
    } else if no_product {
        if ieee::is_zero(beta) {
            GemmPlan::Clear
        } else {
            GemmPlan::Scale
        }
    } else {
        GemmPlan::Product { nota, notb }
    }
}

} // verus!
