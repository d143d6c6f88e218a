//! The leaf interpolators: step, nearest-neighbor, linear and sigmoid.
//!
//! Each owns a validated domain interval and a range interval (which may be
//! inverted), evaluates totally over the integers, and saturates flatly
//! outside its domain.

use vstd::prelude::*;
use crate::interval::{ClosedInterval, InterpolationError};
use crate::num::{mul_div, scaled};
use crate::curve::{sig_curve, sig_curve_eval, LOGISTIC_ONE};

verus! {

/// Well-formed construction parameters: a strictly ordered domain whose
/// length fits in an `i64`, and a range whose signed length does too.
pub open spec fn wf_parts(domain: ClosedInterval, range: ClosedInterval) -> bool {
    &&& domain.is_domain()
    &&& domain.bounded()
    &&& range.bounded()
}

/// The machine limits every constructor needs of its raw bounds: the spans
/// they describe must fit in an `i64`.
pub open spec fn spans_fit(domain: (i64, i64), range: (i64, i64)) -> bool {
    &&& domain.0 < domain.1 ==> domain.1 - domain.0 <= i64::MAX as int
    &&& -(i64::MAX as int) <= range.1 - range.0 <= i64::MAX as int
}

/// A two-level step: `range.low` up to and including `domain.low`, then
/// `range.high` everywhere beyond.
#[derive(Debug)]
pub struct StepInterpolator {
    pub domain: ClosedInterval,
    pub range: ClosedInterval,
}

impl StepInterpolator {
    pub open spec fn wf(self) -> bool {
        wf_parts(self.domain, self.range)
    }

    pub open spec fn spec_eval(self, x: int) -> int {
        if x <= self.domain.low {
            self.range.low as int
        } else {
            self.range.high as int
        }
    }

    /// Fails with `InvalidInterval` exactly when the domain bounds are not
    /// strictly ordered; the range may be inverted or degenerate.
    pub fn new(domain: (i64, i64), range: (i64, i64)) -> (r: Result<Self, InterpolationError>)
        requires
            spans_fit(domain, range),
        ensures
            r is Ok <==> domain.0 < domain.1,
            r matches Err(e) ==> e == InterpolationError::InvalidInterval,
            r matches Ok(s) ==> s.wf()
                && s.domain == (ClosedInterval { low: domain.0, high: domain.1 })
                && s.range == (ClosedInterval { low: range.0, high: range.1 }),
    {
        let domain_interval = ClosedInterval::new(domain);
        match domain_interval.check_bound() {
            Err(e) => {
                return Err(e);
            },
            Ok(()) => {},
        }
        let range_interval = ClosedInterval::new(range);
        Ok(StepInterpolator { domain: domain_interval, range: range_interval })
    }

    pub fn eval(&self, x: i64) -> (r: i64)
        ensures
            r == self.spec_eval(x as int),
    {
        if x <= self.domain.low {
            self.range.low
        } else {
            self.range.high
        }
    }

    /// True iff `x` has reached the upper bound of the domain; from there
    /// on, `eval` is saturated.
    pub fn exceeds_domain(&self, x: i64) -> (r: bool)
        ensures
            r == (x as int >= self.domain.high),
    {
        x >= self.domain.high
    }

    pub fn get_domain(&self) -> (r: ClosedInterval)
        ensures
            r == self.domain,
    {
        self.domain
    }
}

/// A two-level step whose discontinuity sits at the precomputed midpoint of
/// the domain rather than at its left edge.
#[derive(Debug)]
pub struct NearestNeighborInterpolator {
    pub domain: ClosedInterval,
    pub range: ClosedInterval,
    pub midpoint: i64,
}

impl NearestNeighborInterpolator {
    pub open spec fn wf(self) -> bool {
        &&& wf_parts(self.domain, self.range)
        &&& self.midpoint == self.domain.low + (self.domain.high - self.domain.low) / 2
        &&& self.domain.low <= self.midpoint < self.domain.high
    }

    pub open spec fn spec_eval(self, x: int) -> int {
        if x <= self.midpoint {
            self.range.low as int
        } else {
            self.range.high as int
        }
    }

    /// Fails with `InvalidInterval` exactly when the domain bounds are not
    /// strictly ordered; the range may be inverted or degenerate.
    pub fn new(domain: (i64, i64), range: (i64, i64)) -> (r: Result<Self, InterpolationError>)
        requires
            spans_fit(domain, range),
        ensures
            r is Ok <==> domain.0 < domain.1,
            r matches Err(e) ==> e == InterpolationError::InvalidInterval,
            r matches Ok(s) ==> s.wf()
                && s.domain == (ClosedInterval { low: domain.0, high: domain.1 })
                && s.range == (ClosedInterval { low: range.0, high: range.1 }),
    {
        let domain_interval = ClosedInterval::new(domain);
        match domain_interval.check_bound() {
            Err(e) => {
                return Err(e);
            },
            Ok(()) => {},
        }
        let range_interval = ClosedInterval::new(range);
        let len: i64 = domain_interval.length();
        let half: i64 = ((len as u64) / 2) as i64;
        proof {
            assert(half == (domain.1 - domain.0) / 2);
            vstd::arithmetic::div_mod::lemma_div_pos_is_pos(len as int, 2);
            vstd::arithmetic::div_mod::lemma_div_decreases(len as int, 2);
        }
        let midpoint: i64 = domain_interval.low + half;
        Ok(NearestNeighborInterpolator {
            domain: domain_interval,
            range: range_interval,
            midpoint,
        })
    }

    pub fn eval(&self, x: i64) -> (r: i64)
        ensures
            r == self.spec_eval(x as int),
    {
        if x <= self.midpoint {
            self.range.low
        } else {
            self.range.high
        }
    }

    /// True iff `x` has reached the upper bound of the domain; from there
    /// on, `eval` is saturated.
    pub fn exceeds_domain(&self, x: i64) -> (r: bool)
        ensures
            r == (x as int >= self.domain.high),
    {
        x >= self.domain.high
    }

    pub fn get_domain(&self) -> (r: ClosedInterval)
        ensures
            r == self.domain,
    {
        self.domain
    }
}

/// Linear interpolation from `range.low` at `domain.low` to `range.high`
/// at `domain.high`, clamped outside the domain.  An inverted range gives
/// a negative slope.
#[derive(Debug)]
pub struct LinearInterpolator {
    pub domain: ClosedInterval,
    pub range: ClosedInterval,
}

impl LinearInterpolator {
    pub open spec fn wf(self) -> bool {
        wf_parts(self.domain, self.range)
    }

    pub open spec fn spec_eval(self, x: int) -> int {
        if x <= self.domain.low {
            self.range.low as int
        } else if x >= self.domain.high {
            self.range.high as int
        } else {
            self.range.low + scaled(
                x - self.domain.low,
                self.range.spec_length(),
                self.domain.spec_length(),
            )
        }
    }

    /// Fails with `InvalidInterval` exactly when the domain bounds are not
    /// strictly ordered; the range may be inverted or degenerate.
    pub fn new(domain: (i64, i64), range: (i64, i64)) -> (r: Result<Self, InterpolationError>)
        requires
            spans_fit(domain, range),
        ensures
            r is Ok <==> domain.0 < domain.1,
            r matches Err(e) ==> e == InterpolationError::InvalidInterval,
            r matches Ok(s) ==> s.wf()
                && s.domain == (ClosedInterval { low: domain.0, high: domain.1 })
                && s.range == (ClosedInterval { low: range.0, high: range.1 }),
    {
        let domain_interval = ClosedInterval::new(domain);
        match domain_interval.check_bound() {
            Err(e) => {
                return Err(e);
            },
            Ok(()) => {},
        }
        let range_interval = ClosedInterval::new(range);
        Ok(LinearInterpolator { domain: domain_interval, range: range_interval })
    }

    pub fn eval(&self, x: i64) -> (r: i64)
        requires
            self.wf(),
        ensures
            r == self.spec_eval(x as int),
    {
        if x <= self.domain.low {
            self.range.low
        } else if x >= self.domain.high {
            self.range.high
        } else {
            let dx: i64 = x - self.domain.low;
            let q: i64 = mul_div(dx, self.range.length(), self.domain.length());
            self.range.low + q
        }
    }

    /// True iff `x` has reached the upper bound of the domain; from there
    /// on, `eval` is saturated.
    pub fn exceeds_domain(&self, x: i64) -> (r: bool)
        ensures
            r == (x as int >= self.domain.high),
    {
        x >= self.domain.high
    }

    pub fn get_domain(&self) -> (r: ClosedInterval)
        ensures
            r == self.domain,
    {
        self.domain
    }
}

/// A smooth S-curve: the domain is rescaled onto the logistic window and
/// followed along the fixed-point logistic curve, clamped outside the
/// domain exactly as the linear interpolator is.
#[derive(Debug)]
pub struct SigmoidInterpolator {
    pub domain: ClosedInterval,
    pub range: ClosedInterval,
}

impl SigmoidInterpolator {
    pub open spec fn wf(self) -> bool {
        wf_parts(self.domain, self.range)
    }

    pub open spec fn spec_eval(self, x: int) -> int {
        if x <= self.domain.low {
            self.range.low as int
        } else if x >= self.domain.high {
            self.range.high as int
        } else {
            self.range.low + scaled(
                sig_curve(x - self.domain.low, self.domain.spec_length()),
                self.range.spec_length(),
                LOGISTIC_ONE as int,
            )
        }
    }

    /// Fails with `InvalidInterval` exactly when the domain bounds are not
    /// strictly ordered; the range may be inverted or degenerate.
    pub fn new(domain: (i64, i64), range: (i64, i64)) -> (r: Result<Self, InterpolationError>)
        requires
            spans_fit(domain, range),
        ensures
            r is Ok <==> domain.0 < domain.1,
            r matches Err(e) ==> e == InterpolationError::InvalidInterval,
            r matches Ok(s) ==> s.wf()
                && s.domain == (ClosedInterval { low: domain.0, high: domain.1 })
                && s.range == (ClosedInterval { low: range.0, high: range.1 }),
    {
        let domain_interval = ClosedInterval::new(domain);
        match domain_interval.check_bound() {
            Err(e) => {
                return Err(e);
            },
            Ok(()) => {},
        }
        let range_interval = ClosedInterval::new(range);
        Ok(SigmoidInterpolator { domain: domain_interval, range: range_interval })
    }

    pub fn eval(&self, x: i64) -> (r: i64)
        requires
            self.wf(),
        ensures
            r == self.spec_eval(x as int),
    {
        if x <= self.domain.low {
            self.range.low
        } else if x >= self.domain.high {
            self.range.high
        } else {
            let dx: i64 = x - self.domain.low;
            let v: i64 = sig_curve_eval(dx, self.domain.length());
            let q: i64 = mul_div(v, self.range.length(), LOGISTIC_ONE);
            self.range.low + q
        }
    }

    /// True iff `x` has reached the upper bound of the domain; from there
    /// on, `eval` is saturated.
    pub fn exceeds_domain(&self, x: i64) -> (r: bool)
        ensures
            r == (x as int >= self.domain.high),
    {
        x >= self.domain.high
    }

    pub fn get_domain(&self) -> (r: ClosedInterval)
        ensures
            r == self.domain,
    {
        self.domain
    }
}

} // verus!
