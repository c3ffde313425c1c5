//! Which elements the scaling of a vector reaches.

use crate::ieee;
use vstd::prelude::*;

verus! {

/// The elements that are multiplied: a number of elements and the distance
/// between them, starting at element 1; `None` where nothing is to be done.
pub open spec fn scaled_elements(n: int, da: u64, incx: int) -> Option<(i32, i32)> {
    if n <= 0 || incx <= 0 || ieee::equal(da, ieee::ONE) {
        None
    } else {
        Some((n as i32, incx as i32))
    }
}

/// Tells which elements a scaling by `da` of `n` elements, `incx` apart,
/// multiplies: the elements `1, 1 + incx, ...`, `n` of them. Nothing is to
/// be done for an empty vector, for an increment that is not positive, and
/// for a factor of one.
pub fn dscal_plan(n: i32, da: u64, incx: i32) -> (r: Option<(i32, i32)>)
    ensures
        r == scaled_elements(n as int, da, incx as int),
{
    if n <= 0 || incx <= 0 || ieee::eq(da, ieee::ONE) {
        None
    } else {
        Some((n, incx))
    }
}

} // verus!
