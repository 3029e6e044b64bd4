//! Nonlinear least-squares curve fitting by a damped (Levenberg-Marquardt)
//! Gauss-Newton iteration.
//!
//! Floating-point values travel through the library as IEEE-754 bit
//! patterns (`u64`); see `fp` for the model of the arithmetic.  The
//! minimizer itself — state, damped step, acceptance test, Jacobian
//! maintenance, convergence checks, covariance — is verified code whose
//! contracts pin every result down to those patterns.
use vstd::prelude::*;

pub mod fp;
pub mod linalg;
pub mod model;
pub mod curve_fit;

verus! {

} // verus!
