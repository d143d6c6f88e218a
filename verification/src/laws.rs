//! The guarantees the interpolator family gives beyond each function's own
//! contract: saturation outside the domain, monotonicity of the continuous
//! curves, their exact midpoint values, and faithful piecewise delegation.

use vstd::prelude::*;
use crate::curve::{lemma_sig_curve_bounds, lemma_sig_curve_half, lemma_sig_curve_monotone};
use crate::interp::{
    LinearInterpolator, NearestNeighborInterpolator, SigmoidInterpolator, StepInterpolator,
};
use crate::num::{lemma_scaled_bounds, lemma_scaled_half, lemma_scaled_monotone};
use crate::piecewise::{
    lemma_chain_between, lemma_chain_high, lemma_chain_low, lemma_scan_from_found,
    Interpolator, PiecewiseInterpolator,
};
use vstd::arithmetic::div_mod::{
    lemma_div_decreases, lemma_div_multiples_vanish, lemma_div_pos_is_pos,
    lemma_fundamental_div_mod,
};

verus! {

broadcast use vstd::std_specs::vec::group_vec_axioms, vstd::seq::group_seq_axioms;

/// Below its domain, every interpolator is constant: evaluation anywhere at
/// or below the domain's lower bound equals evaluation at that bound.
pub proof fn lemma_saturates_below(it: Interpolator, x: int)
    requires
        it.wf(),
        x <= it.spec_domain().low,
    ensures
        it.spec_eval(x) == it.spec_eval(it.spec_domain().low as int),
    decreases it,
{
    match it {
        Interpolator::Piecewise(p) => {
            let s = p.interpolators@;
            lemma_saturates_below(s[0], x);
        },
        _ => {},
    }
}

/// Above its domain, every interpolator is constant: evaluation anywhere at
/// or above the domain's upper bound equals evaluation at that bound.
pub proof fn lemma_saturates_above(it: Interpolator, x: int)
    requires
        it.wf(),
        x >= it.spec_domain().high,
    ensures
        it.spec_eval(x) == it.spec_eval(it.spec_domain().high as int),
    decreases it,
{
    match it {
        Interpolator::Piecewise(p) => {
            let s = p.interpolators@;
            lemma_saturates_above(s[s.len() - 1], x);
        },
        _ => {},
    }
}

/// What `exceeds_domain` promises: once it holds at `x`, pushing the input
/// further by any non-negative amount cannot change the evaluation.
pub proof fn lemma_exceeds_domain_saturates(it: Interpolator, x: int, e: int)
    requires
        it.wf(),
        x >= it.spec_domain().high,
        e >= 0,
    ensures
        it.spec_eval(x + e) == it.spec_eval(x),
{
    lemma_saturates_above(it, x);
    lemma_saturates_above(it, x + e);
}

/// At its domain bounds the step interpolator takes the two range values:
/// `range.low` at (and below) the lower bound, `range.high` at the upper.
pub proof fn lemma_step_boundary_values(s: StepInterpolator)
    requires
        s.wf(),
    ensures
        s.spec_eval(s.domain.low as int) == s.range.low,
        s.spec_eval(s.domain.high as int) == s.range.high,
{
}

/// At its domain bounds the nearest-neighbor interpolator takes the two
/// range values: the lower bound sits at or below the midpoint, the upper
/// strictly above it.
pub proof fn lemma_nearest_neighbor_boundary_values(n: NearestNeighborInterpolator)
    requires
        n.wf(),
    ensures
        n.spec_eval(n.domain.low as int) == n.range.low,
        n.spec_eval(n.domain.high as int) == n.range.high,
{
}

/// At its domain bounds the linear interpolator takes the two range values
/// exactly.
pub proof fn lemma_linear_boundary_values(l: LinearInterpolator)
    requires
        l.wf(),
    ensures
        l.spec_eval(l.domain.low as int) == l.range.low,
        l.spec_eval(l.domain.high as int) == l.range.high,
{
}

/// At its domain bounds the sigmoid interpolator takes the two range
/// values exactly: the clamp at the bounds overrides the logistic
/// window's residual error.
pub proof fn lemma_sigmoid_boundary_values(s: SigmoidInterpolator)
    requires
        s.wf(),
    ensures
        s.spec_eval(s.domain.low as int) == s.range.low,
        s.spec_eval(s.domain.high as int) == s.range.high,
{
}

/// The linear interpolator is monotone across all inputs, in the direction
/// of the sign of its range's length.
pub proof fn lemma_linear_monotone(li: LinearInterpolator, x1: int, x2: int)
    requires
        li.wf(),
        x1 <= x2,
    ensures
        li.range.spec_length() >= 0 ==> li.spec_eval(x1) <= li.spec_eval(x2),
        li.range.spec_length() <= 0 ==> li.spec_eval(x1) >= li.spec_eval(x2),
{
    let dl = li.domain.low as int;
    let dh = li.domain.high as int;
    let num = li.range.spec_length();
    let den = li.domain.spec_length();
    if x1 <= dl {
        if dl < x2 < dh {
            lemma_scaled_bounds(x2 - dl, num, den);
        }
    } else if x1 < dh {
        if x2 >= dh {
            lemma_scaled_bounds(x1 - dl, num, den);
        } else {
            lemma_scaled_bounds(x1 - dl, num, den);
            lemma_scaled_bounds(x2 - dl, num, den);
            lemma_scaled_monotone(x1 - dl, x2 - dl, num, den);
        }
    }
}

/// At the midpoint of an even-length domain, the linear interpolator gives
/// exactly the mean of the two range bounds (both spans even, so neither
/// midpoint is truncated).
pub proof fn lemma_linear_midpoint(li: LinearInterpolator)
    requires
        li.wf(),
        li.domain.spec_length() % 2 == 0,
        li.range.spec_length() % 2 == 0,
    ensures
        li.spec_eval((li.domain.low + li.domain.high) / 2) == (li.range.low + li.range.high)
            / 2,
{
    let dl = li.domain.low as int;
    let dh = li.domain.high as int;
    let rl = li.range.low as int;
    let rh = li.range.high as int;
    let num = li.range.spec_length();
    let den = li.domain.spec_length();
    lemma_fundamental_div_mod(den, 2);
    lemma_fundamental_div_mod(num, 2);
    lemma_div_multiples_vanish(dl + den / 2, 2);
    lemma_div_multiples_vanish(rl + num / 2, 2);
    assert((dl + dh) / 2 == dl + den / 2);
    assert((rl + rh) / 2 == rl + num / 2);
    lemma_div_pos_is_pos(den, 2);
    lemma_div_decreases(den, 2);
    lemma_scaled_half(num, den);
}

/// The sigmoid interpolator is monotone across all inputs, in the direction
/// of the sign of its range's length.
pub proof fn lemma_sigmoid_monotone(si: SigmoidInterpolator, x1: int, x2: int)
    requires
        si.wf(),
        x1 <= x2,
    ensures
        si.range.spec_length() >= 0 ==> si.spec_eval(x1) <= si.spec_eval(x2),
        si.range.spec_length() <= 0 ==> si.spec_eval(x1) >= si.spec_eval(x2),
{
    let dl = si.domain.low as int;
    let dh = si.domain.high as int;
    let num = si.range.spec_length();
    let den = si.domain.spec_length();
    let one = crate::curve::LOGISTIC_ONE as int;
    if x1 <= dl {
        if dl < x2 < dh {
            lemma_sig_curve_bounds(x2 - dl, den);
            lemma_scaled_bounds(crate::curve::sig_curve(x2 - dl, den), num, one);
        }
    } else if x1 < dh {
        lemma_sig_curve_bounds(x1 - dl, den);
        if x2 >= dh {
            lemma_scaled_bounds(crate::curve::sig_curve(x1 - dl, den), num, one);
        } else {
            lemma_sig_curve_bounds(x2 - dl, den);
            lemma_sig_curve_monotone(x1 - dl, x2 - dl, den);
            lemma_scaled_bounds(crate::curve::sig_curve(x1 - dl, den), num, one);
            lemma_scaled_bounds(crate::curve::sig_curve(x2 - dl, den), num, one);
            lemma_scaled_monotone(
                crate::curve::sig_curve(x1 - dl, den),
                crate::curve::sig_curve(x2 - dl, den),
                num,
                one,
            );
        }
    }
}

/// At the midpoint of an even-length domain, the sigmoid interpolator gives
/// exactly the mean of the two range bounds: the logistic curve is
/// symmetric about the window's centre.
pub proof fn lemma_sigmoid_midpoint(si: SigmoidInterpolator)
    requires
        si.wf(),
        si.domain.spec_length() % 2 == 0,
        si.range.spec_length() % 2 == 0,
    ensures
        si.spec_eval((si.domain.low + si.domain.high) / 2) == (si.range.low + si.range.high)
            / 2,
{
    let dl = si.domain.low as int;
    let dh = si.domain.high as int;
    let rl = si.range.low as int;
    let rh = si.range.high as int;
    let num = si.range.spec_length();
    let den = si.domain.spec_length();
    lemma_fundamental_div_mod(den, 2);
    lemma_fundamental_div_mod(num, 2);
    lemma_div_multiples_vanish(dl + den / 2, 2);
    lemma_div_multiples_vanish(rl + num / 2, 2);
    assert((dl + dh) / 2 == dl + den / 2);
    assert((rl + rh) / 2 == rl + num / 2);
    lemma_div_pos_is_pos(den, 2);
    lemma_div_decreases(den, 2);
    lemma_sig_curve_half(den);
    lemma_scaled_half(num, crate::curve::LOGISTIC_ONE as int);
}

/// Inside the combined domain, a piecewise interpolator agrees with the
/// child whose domain the input lies strictly inside — for such inputs
/// that child is unique, and its standalone evaluation is the composite's.
pub proof fn lemma_piecewise_delegates_to_child(p: PiecewiseInterpolator, i: int, x: int)
    requires
        p.wf(),
        0 <= i < p.interpolators@.len(),
        p.interpolators@[i].spec_domain().low < x < p.interpolators@[i].spec_domain().high,
    ensures
        p.spec_eval(x) == p.interpolators@[i].spec_eval(x),
{
    let s = p.interpolators@;
    let n = s.len() as int;
    lemma_chain_low(s, i);
    lemma_chain_high(s, i);
    assert(p.domain.low < x < p.domain.high);
    assert forall|j: int| 0 <= j < i implies !(#[trigger] s[j]).spec_domain().spec_contains(
        x,
    ) by {
        lemma_chain_between(s, j, i);
    }
    lemma_scan_from_found(s, x, 0, i);
}

} // verus!
