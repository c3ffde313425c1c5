//! The report of an argument that is not valid.

use crate::errors::{decimal, push_decimal};
use vstd::prelude::*;
use vstd::string::StringExecFns;

verus! {

/// The text of the report that argument number `info` of the routine
/// `srname` is not valid.
pub open spec fn report(srname: Seq<char>, info: int) -> Seq<char> {
    "** On entry to "@ + srname + " parameter number "@ + decimal(info)
        + " had an illegal value"@
}

/// The line that reports argument number `info` of the routine `srname` as
/// not valid.
pub fn xerbla_message(srname: &str, info: i32) -> (r: String)
    ensures
        r@ == report(srname@, info as int),
{
    let mut out = String::from_str("** On entry to ");
    out.append(srname);
    out.append(" parameter number ");
    push_decimal(&mut out, info);
    out.append(" had an illegal value");
    out
}

} // verus!
