//! The closed family of interpolators, and piecewise composition.
//!
//! `Interpolator` is the tagged union over the four leaf curves and the
//! piecewise composite, so heterogeneous interpolators can be stored,
//! dispatched uniformly, and nested: a `PiecewiseInterpolator` may itself
//! contain further piecewise interpolators.

use vstd::prelude::*;
use crate::interval::{ClosedInterval, InterpolationError};
use crate::interp::{
    LinearInterpolator, NearestNeighborInterpolator, SigmoidInterpolator, StepInterpolator,
};

verus! {

broadcast use vstd::std_specs::vec::group_vec_axioms, vstd::seq::group_seq_axioms;

/// Any interpolator: one of the four leaf curves, or a piecewise composite.
#[derive(Debug)]
pub enum Interpolator {
    Step(StepInterpolator),
    NearestNeighbor(NearestNeighborInterpolator),
    Linear(LinearInterpolator),
    Sigmoid(SigmoidInterpolator),
    Piecewise(PiecewiseInterpolator),
}

/// An ordered sequence of child interpolators with exactly contiguous
/// domains, acting as one interpolator over the combined domain.
#[derive(Debug)]
pub struct PiecewiseInterpolator {
    /// Spans from the first child's domain start to the last child's
    /// domain end.
    pub domain: ClosedInterval,
    pub interpolators: Vec<Interpolator>,
}

/// Adjacent child domains meet exactly: each child's upper domain bound
/// equals the next child's lower one, with no gap and no overlap.
pub open spec fn contiguous(s: Seq<Interpolator>) -> bool {
    forall|i: int|
        0 <= i < s.len() - 1 ==> (#[trigger] s[i]).spec_domain().high == s[i
            + 1].spec_domain().low
}

/// The least index at or after `i` whose child domain contains `x`, or
/// `s.len()` when none does.
pub open spec fn scan_from(s: Seq<Interpolator>, x: int, i: int) -> int
    decreases s.len() - i,
{
    if i < 0 || i >= s.len() {
        s.len() as int
    } else if s[i].spec_domain().spec_contains(x) {
        i
    } else {
        scan_from(s, x, i + 1)
    }
}

impl Interpolator {
    /// The domain of operation, over which the curve is defined before
    /// flat extension applies.
    pub open spec fn spec_domain(self) -> ClosedInterval {
        match self {
            Interpolator::Step(s) => s.domain,
            Interpolator::NearestNeighbor(s) => s.domain,
            Interpolator::Linear(s) => s.domain,
            Interpolator::Sigmoid(s) => s.domain,
            Interpolator::Piecewise(p) => p.domain,
        }
    }

    pub open spec fn wf(self) -> bool
        decreases self,
    {
        match self {
            Interpolator::Step(s) => s.wf(),
            Interpolator::NearestNeighbor(s) => s.wf(),
            Interpolator::Linear(s) => s.wf(),
            Interpolator::Sigmoid(s) => s.wf(),
            Interpolator::Piecewise(p) => p.wf(),
        }
    }

    pub open spec fn spec_eval(self, x: int) -> int
        decreases self,
    {
        match self {
            Interpolator::Step(s) => s.spec_eval(x),
            Interpolator::NearestNeighbor(s) => s.spec_eval(x),
            Interpolator::Linear(s) => s.spec_eval(x),
            Interpolator::Sigmoid(s) => s.spec_eval(x),
            Interpolator::Piecewise(p) => p.spec_eval(x),
        }
    }

    /// Evaluates the interpolation curve at `x`, totally: outside the
    /// domain the value saturates at the nearest boundary's value.
    pub fn eval(&self, x: i64) -> (r: i64)
        requires
            self.wf(),
        ensures
            r == self.spec_eval(x as int),
        decreases self,
    {
        match self {
            Interpolator::Step(s) => s.eval(x),
            Interpolator::NearestNeighbor(s) => s.eval(x),
            Interpolator::Linear(s) => s.eval(x),
            Interpolator::Sigmoid(s) => s.eval(x),
            Interpolator::Piecewise(p) => p.eval(x),
        }
    }

    /// True iff `x` has reached the upper bound of the domain; from there
    /// on, `eval` is saturated.
    pub fn exceeds_domain(&self, x: i64) -> (r: bool)
        ensures
            r == (x as int >= self.spec_domain().high),
    {
        let d = self.get_domain();
        x >= d.high
    }

    pub fn get_domain(&self) -> (r: ClosedInterval)
        ensures
            r == self.spec_domain(),
    {
        match self {
            Interpolator::Step(s) => s.get_domain(),
            Interpolator::NearestNeighbor(s) => s.get_domain(),
            Interpolator::Linear(s) => s.get_domain(),
            Interpolator::Sigmoid(s) => s.get_domain(),
            Interpolator::Piecewise(p) => p.get_domain(),
        }
    }
}

/// A well-formed interpolator's domain is strictly ordered.
pub proof fn lemma_wf_domain(it: Interpolator)
    requires
        it.wf(),
    ensures
        it.spec_domain().is_domain(),
{
}

/// In a contiguous sequence of well-formed children, every child's domain
/// lies strictly to the right of the first child's lower bound.
pub proof fn lemma_chain_low(s: Seq<Interpolator>, k: int)
    requires
        contiguous(s),
        forall|i: int| 0 <= i < s.len() ==> (#[trigger] s[i]).wf(),
        0 <= k < s.len(),
    ensures
        s[0].spec_domain().low <= s[k].spec_domain().low,
        s[0].spec_domain().low < s[k].spec_domain().high,
    decreases k,
{
    lemma_wf_domain(s[k]);
    if k > 0 {
        lemma_chain_low(s, k - 1);
    }
}

/// In a contiguous sequence of well-formed children, every child's domain
/// ends at or before the last child's upper bound.
pub proof fn lemma_chain_high(s: Seq<Interpolator>, k: int)
    requires
        contiguous(s),
        forall|i: int| 0 <= i < s.len() ==> (#[trigger] s[i]).wf(),
        0 <= k < s.len(),
    ensures
        s[k].spec_domain().high <= s[s.len() - 1].spec_domain().high,
    decreases s.len() - k,
{
    lemma_wf_domain(s[k]);
    if k < s.len() - 1 {
        lemma_wf_domain(s[k + 1]);
        lemma_chain_high(s, k + 1);
    }
}

/// In a contiguous sequence of well-formed children, an earlier child's
/// domain ends at or before a later child's domain starts.
pub proof fn lemma_chain_between(s: Seq<Interpolator>, j: int, k: int)
    requires
        contiguous(s),
        forall|i: int| 0 <= i < s.len() ==> (#[trigger] s[i]).wf(),
        0 <= j < k < s.len(),
    ensures
        s[j].spec_domain().high <= s[k].spec_domain().low,
    decreases k - j,
{
    if j + 1 < k {
        lemma_wf_domain(s[j + 1]);
        lemma_chain_between(s, j + 1, k);
    }
}

/// `scan_from` lands exactly on a child that contains `x` when the
/// children before it do not.
pub proof fn lemma_scan_from_found(s: Seq<Interpolator>, x: int, k: int, j: int)
    requires
        0 <= k <= j < s.len(),
        s[j].spec_domain().spec_contains(x),
        forall|i: int| k <= i < j ==> !(#[trigger] s[i]).spec_domain().spec_contains(x),
    ensures
        scan_from(s, x, k) == j,
    decreases j - k,
{
    if k < j {
        lemma_scan_from_found(s, x, k + 1, j);
    }
}

impl PiecewiseInterpolator {
    pub open spec fn wf(self) -> bool
        decreases self,
    {
        let s = self.interpolators@;
        &&& s.len() > 0
        &&& forall|i: int| 0 <= i < s.len() ==> (#[trigger] s[i]).wf()
        &&& contiguous(s)
        &&& self.domain.is_domain()
        &&& self.domain.low == s[0].spec_domain().low
        &&& self.domain.high == s[s.len() - 1].spec_domain().high
    }

    /// Evaluation delegates to the first child at or below the combined
    /// domain, to the last child at or above it, and otherwise to the
    /// first child in sequence order whose domain contains `x`.
    pub open spec fn spec_eval(self, x: int) -> int
        decreases self,
    {
        let s = self.interpolators@;
        if s.len() == 0 {
            0
        } else if x <= self.domain.low {
            s[0].spec_eval(x)
        } else if x >= self.domain.high {
            s[s.len() - 1].spec_eval(x)
        } else {
            let i = scan_from(s, x, 0);
            if 0 <= i < s.len() {
                s[i].spec_eval(x)
            } else {
                0
            }
        }
    }

    /// Fails with `NoInterpolators` on an empty sequence and with
    /// `DiscontinuousDomain` when any adjacent child domains do not meet
    /// exactly; otherwise the composite spans from the first child's
    /// domain start to the last child's domain end.
    pub fn new(interpolators: Vec<Interpolator>) -> (r: Result<
        PiecewiseInterpolator,
        InterpolationError,
    >)
        requires
            forall|i: int|
                0 <= i < interpolators@.len() ==> (#[trigger] interpolators@[i]).wf(),
        ensures
            r is Ok <==> (interpolators@.len() > 0 && contiguous(interpolators@)),
            r matches Err(e) ==> (if interpolators@.len() == 0 {
                e == InterpolationError::NoInterpolators
            } else {
                e == InterpolationError::DiscontinuousDomain
            }),
            r matches Ok(p) ==> p.wf() && p.interpolators@ == interpolators@
                && p.domain.low == interpolators@[0].spec_domain().low
                && p.domain.high == interpolators@[interpolators@.len()
                - 1].spec_domain().high,
    {
        let ghost s = interpolators@;
        let n = interpolators.len();
        if n == 0 {
            return Err(InterpolationError::NoInterpolators);
        }
        let mut i: usize = 0;
        while i + 1 < n
            invariant
                n == s.len(),
                0 <= i < n,
                s == interpolators@,
                forall|j: int|
                    0 <= j < i ==> (#[trigger] s[j]).spec_domain().high == s[j
                        + 1].spec_domain().low,
            decreases n - i,
        {
            let a = interpolators[i].get_domain();
            let b = interpolators[i + 1].get_domain();
            if a.high != b.low {
                proof {
                    assert(!contiguous(s));
                }
                return Err(InterpolationError::DiscontinuousDomain);
            }
            i = i + 1;
        }
        proof {
            assert(contiguous(s));
            lemma_chain_low(s, n - 1);
        }
        let first = interpolators[0].get_domain();
        let last = interpolators[n - 1].get_domain();
        let domain = ClosedInterval::new((first.low, last.high));
        Ok(PiecewiseInterpolator { domain, interpolators })
    }

    /// Evaluates the composite at `x`: the first child below the combined
    /// domain, the last child above it, and in between the first child in
    /// sequence order whose domain contains `x`.
    pub fn eval(&self, x: i64) -> (r: i64)
        requires
            self.wf(),
        ensures
            r == self.spec_eval(x as int),
        decreases self,
    {
        let ghost s = self.interpolators@;
        let n = self.interpolators.len();
        if x <= self.domain.low {
            return self.interpolators[0].eval(x);
        }
        if x >= self.domain.high {
            return self.interpolators[n - 1].eval(x);
        }
        let mut i: usize = 0;
        while i + 1 < n
            invariant
                self.wf(),
                s == self.interpolators@,
                n == s.len(),
                0 <= i < n,
                self.domain.low < x < self.domain.high,
                forall|j: int| 0 <= j < i ==> x > (#[trigger] s[j]).spec_domain().high,
            decreases n - i,
        {
            let d = self.interpolators[i].get_domain();
            if x >= d.low && x <= d.high {
                proof {
                    lemma_scan_from_found(s, x as int, 0, i as int);
                }
                return self.interpolators[i].eval(x);
            }
            proof {
                // x never sits below this child's domain: the first child
                // starts at the combined lower bound, and each later child
                // starts where its already-passed neighbour ended.
                if i > 0 {
                    assert(s[i - 1].spec_domain().high == s[i as int].spec_domain().low);
                }
                assert(x > s[i as int].spec_domain().high);
            }
            i = i + 1;
        }
        proof {
            // The last child remains: x lies strictly inside the combined
            // domain and above every earlier child's domain, so the last
            // child contains it.
            if n > 1 {
                assert(s[n - 2].spec_domain().high == s[n - 1].spec_domain().low);
            }
            lemma_scan_from_found(s, x as int, 0, n - 1);
        }
        self.interpolators[n - 1].eval(x)
    }

    /// True iff `x` has reached the upper bound of the combined domain —
    /// the composite's own domain, not any child's.
    pub fn exceeds_domain(&self, x: i64) -> (r: bool)
        ensures
            r == (x as int >= self.domain.high),
    {
        x >= self.domain.high
    }

    pub fn get_domain(&self) -> (r: ClosedInterval)
        ensures
            r == self.domain,
    {
        self.domain
    }
}

} // verus!
