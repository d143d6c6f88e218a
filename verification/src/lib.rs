//! Scalar interpolation over bounded intervals.
//!
//! An interpolator maps an input value inside a closed domain interval to an
//! output value inside a closed range interval, along one of several curves
//! (step, nearest-neighbor, linear, logistic S-curve), and saturates flatly
//! outside its domain.  Several interpolators with contiguous domains can be
//! chained into one piecewise interpolator.
//!
//! All values are `i64`; callers that work in fractional units pick a scale
//! and pass scaled integers.  Every evaluation is exact over the integers,
//! with truncating division where a quotient is not integral.

pub mod interval;
pub mod num;
pub mod curve;
pub mod interp;
pub mod piecewise;
pub mod laws;

pub use interval::ClosedInterval;
pub use interval::InterpolationError;
pub use interp::StepInterpolator;
pub use interp::NearestNeighborInterpolator;
pub use interp::LinearInterpolator;
pub use interp::SigmoidInterpolator;
pub use piecewise::Interpolator;
pub use piecewise::PiecewiseInterpolator;
