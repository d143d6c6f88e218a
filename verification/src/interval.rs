//! Closed intervals with validated bounds, and the construction errors.

use vstd::prelude::*;

verus! {

/// Why constructing an interpolator failed.  All failures are raised at
/// construction time; evaluation itself is total.
#[derive(Clone, Copy, Debug, PartialEq, Eq, Structural)]
pub enum InterpolationError {
    /// A domain interval whose bounds do not satisfy `low < high`.
    InvalidInterval,
    /// A piecewise interpolator built from an empty sequence.
    NoInterpolators,
    /// A piecewise interpolator whose child domains are not contiguous.
    DiscontinuousDomain,
}

/// A closed interval `[low, high]`.  Domains must satisfy `low < high`;
/// ranges may be degenerate or inverted (`low >= high`) to scale output
/// downward.
#[derive(Clone, Copy, Debug, PartialEq, Eq, Structural)]
pub struct ClosedInterval {
    pub low: i64,
    pub high: i64,
}

impl ClosedInterval {
    /// The signed length `high - low`.
    pub open spec fn spec_length(self) -> int {
        self.high - self.low
    }

    /// The signed length fits in an `i64` in either direction, so that
    /// arithmetic on the interval stays in machine range.
    pub open spec fn bounded(self) -> bool {
        -(i64::MAX as int) <= self.high - self.low <= i64::MAX as int
    }

    /// A valid domain: strictly ordered bounds.
    pub open spec fn is_domain(self) -> bool {
        self.low < self.high
    }

    pub open spec fn spec_contains(self, x: int) -> bool {
        self.low <= x <= self.high
    }

    pub fn new(bound: (i64, i64)) -> (r: Self)
        ensures
            r.low == bound.0,
            r.high == bound.1,
    {
        ClosedInterval { low: bound.0, high: bound.1 }
    }

    /// Accepts the interval as a domain exactly when `low < high`;
    /// degenerate and inverted intervals are rejected.
    pub fn check_bound(&self) -> (r: Result<(), InterpolationError>)
        ensures
            r is Ok <==> self.is_domain(),
            r matches Err(e) ==> e == InterpolationError::InvalidInterval,
    {
        if self.low >= self.high {
            Err(InterpolationError::InvalidInterval)
        } else {
            Ok(())
        }
    }

    pub fn length(&self) -> (r: i64)
        requires
            self.bounded(),
        ensures
            r == self.spec_length(),
    {
        self.high - self.low
    }

    /// True iff `low <= x <= high`, inclusive at both ends.
    pub fn contains(&self, x: i64) -> (r: bool)
        ensures
            r == self.spec_contains(x as int),
    {
        x >= self.low && x <= self.high
    }
}

} // verus!
