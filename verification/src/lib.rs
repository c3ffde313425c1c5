//! Verified core of a real Hessenberg QR eigenvalue solver.
//!
//! Real numbers are carried as IEEE 754 binary64 bit patterns (`u64`). The
//! crate owns everything that needs no rounding: the one-based column-major
//! storage, exact comparisons, data movement, argument checks, and the control
//! of the QR driver and of the multi-shift sweep. Rounded arithmetic is done
//! by the caller between two calls into this crate.
//!
//! - [`ieee`]: bit patterns, their order and their signs.
//! - [`array`]: the storage, with conversions and the writing of matrix
//!   parts.
//! - [`driver`]: the deflation, shift and budget control of the QR driver, as
//!   a machine that asks for the arithmetic it needs.
//! - [`sweep`]: the schedule of the bulge-chasing sweep and the pairing of
//!   its shifts.
//! - [`dlanv2`], [`dlapy2`], [`dlaqr1`], [`dlarfg`]: the cases of the small
//!   numerical routines that are settled without arithmetic.
//! - [`blas`], [`dlacpy`], [`dlaset`]: copying and filling, and the checks
//!   that come before a matrix product.
//! - [`dlamch`], [`ilaenv`], [`iparmq`], [`errors`], [`xerbla`]: machine and
//!   tuning parameters, and the wording of faults.

pub mod array;
pub mod blas;
pub mod dlacpy;
pub mod dlamch;
pub mod dlanv2;
pub mod dlapy2;
pub mod dlaqr1;
pub mod dlarfg;
pub mod dlaset;
pub mod driver;
pub mod errors;
pub mod ieee;
pub mod ilaenv;
pub mod iparmq;
pub mod sweep;
pub mod xerbla;
