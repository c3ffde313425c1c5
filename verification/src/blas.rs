//! The parts of the basic vector and matrix kernels that need no rounding:
//! copying, the comparison of option letters, and the checks and case
//! distinctions that come before the arithmetic.

pub mod dcopy;
pub mod dgemm;
pub mod dscal;
pub mod dtrmm;
pub mod lsame;
