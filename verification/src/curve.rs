//! A fixed-point logistic S-curve.
//!
//! The sigmoid interpolator rescales its domain onto the logistic window
//! `[-4, 4]` and follows `1 / (1 + e^(-t))` there.  Over the integers the
//! curve is realised as a piecewise-linear interpolation between the
//! logistic values at the nine integer points of the window, each scaled by
//! `LOGISTIC_ONE` and rounded to the nearest integer.  The knot values are
//! symmetric about the window's centre, so the curve is exactly
//! `LOGISTIC_ONE / 2` at the domain midpoint, and they increase strictly,
//! so the curve is monotone.

use vstd::prelude::*;
use vstd::arithmetic::div_mod::{
    lemma_div_is_ordered, lemma_div_multiples_vanish, lemma_div_pos_is_pos,
    lemma_fundamental_div_mod, lemma_mod_bound, lemma_mod_multiples_basic,
};
use vstd::arithmetic::mul::{lemma_mul_inequality, lemma_mul_nonnegative, lemma_mul_upper_bound};

verus! {

/// The fixed-point unit: curve values run from near `0` to near this.
pub const LOGISTIC_ONE: i64 = 65536;

/// The logistic function at the window point `k - 4` (for `k` in `0..=8`),
/// scaled by `LOGISTIC_ONE`: `round(65536 / (1 + e^(4 - k)))`.
pub open spec fn logistic_knot(k: int) -> int {
    if k <= 0 {
        1179
    } else if k == 1 {
        3108
    } else if k == 2 {
        7813
    } else if k == 3 {
        17625
    } else if k == 4 {
        32768
    } else if k == 5 {
        47911
    } else if k == 6 {
        57723
    } else if k == 7 {
        62428
    } else {
        64357
    }
}

/// The scaled logistic curve at offset `u` into a domain of length `dlen`:
/// linear interpolation between the two knots that bracket
/// `u / dlen * 8`, with truncating division.
pub open spec fn sig_curve(u: int, dlen: int) -> int
    recommends
        0 <= u <= dlen,
        0 < dlen,
{
    let pos = u * 8;
    let k = pos / dlen;
    if k >= 8 {
        logistic_knot(8)
    } else {
        logistic_knot(k) + ((logistic_knot(k + 1) - logistic_knot(k)) * (pos % dlen)) / dlen
    }
}

/// The curve stays between the first and the last knot, in particular
/// strictly inside `[0, LOGISTIC_ONE]`.
pub proof fn lemma_sig_curve_bounds(u: int, dlen: int)
    requires
        0 <= u <= dlen,
        0 < dlen,
    ensures
        logistic_knot(0) <= sig_curve(u, dlen) <= logistic_knot(8),
{
    let pos = u * 8;
    let k = pos / dlen;
    lemma_div_pos_is_pos(pos, dlen);
    if k < 8 {
        let rem = pos % dlen;
        let diff = logistic_knot(k + 1) - logistic_knot(k);
        lemma_mod_bound(pos, dlen);
        assert(diff > 0);
        lemma_mul_nonnegative(diff, rem);
        lemma_div_pos_is_pos(diff * rem, dlen);
        lemma_mul_inequality(rem, dlen, diff);
        assert(diff * rem == rem * diff) by (nonlinear_arith);
        lemma_div_is_ordered(diff * rem, dlen * diff, dlen);
        lemma_div_multiples_vanish(diff, dlen);
    }
}

/// The curve is monotone: a larger offset never gives a smaller value.
pub proof fn lemma_sig_curve_monotone(u1: int, u2: int, dlen: int)
    requires
        0 <= u1 <= u2 <= dlen,
        0 < dlen,
    ensures
        sig_curve(u1, dlen) <= sig_curve(u2, dlen),
{
    let p1 = u1 * 8;
    let p2 = u2 * 8;
    let k1 = p1 / dlen;
    let k2 = p2 / dlen;
    lemma_div_pos_is_pos(p1, dlen);
    lemma_div_is_ordered(p1, p2, dlen);
    assert(forall|i: int, j: int|
        0 <= i <= j <= 8 ==> logistic_knot(i) <= logistic_knot(j));
    if k1 < 8 {
        let rem1 = p1 % dlen;
        let diff1 = logistic_knot(k1 + 1) - logistic_knot(k1);
        lemma_mod_bound(p1, dlen);
        lemma_mul_nonnegative(diff1, rem1);
        lemma_div_pos_is_pos(diff1 * rem1, dlen);
        lemma_mul_inequality(rem1, dlen, diff1);
        assert(diff1 * rem1 == rem1 * diff1) by (nonlinear_arith);
        lemma_div_is_ordered(diff1 * rem1, dlen * diff1, dlen);
        lemma_div_multiples_vanish(diff1, dlen);
        // sig_curve(u1, dlen) <= logistic_knot(k1 + 1)
        if k2 < 8 {
            let rem2 = p2 % dlen;
            let diff2 = logistic_knot(k2 + 1) - logistic_knot(k2);
            lemma_mod_bound(p2, dlen);
            lemma_mul_nonnegative(diff2, rem2);
            lemma_div_pos_is_pos(diff2 * rem2, dlen);
            if k1 == k2 {
                lemma_fundamental_div_mod(p1, dlen);
                lemma_fundamental_div_mod(p2, dlen);
                assert(rem1 <= rem2);
                lemma_mul_inequality(rem1, rem2, diff1);
                assert(diff1 * rem1 == rem1 * diff1) by (nonlinear_arith);
                assert(diff1 * rem2 == rem2 * diff1) by (nonlinear_arith);
                lemma_div_is_ordered(diff1 * rem1, diff1 * rem2, dlen);
            }
        }
    }
}

/// At half of an even domain length the curve is exactly the central knot,
/// half of `LOGISTIC_ONE`.
pub proof fn lemma_sig_curve_half(dlen: int)
    requires
        0 < dlen,
        dlen % 2 == 0,
    ensures
        sig_curve(dlen / 2, dlen) == 32768,
{
    let u = dlen / 2;
    assert(dlen == 2 * u);
    let pos = u * 8;
    assert(pos == 4 * dlen);
    assert(pos == dlen * 4) by (nonlinear_arith)
        requires
            pos == 4 * dlen,
    ;
    lemma_div_multiples_vanish(4, dlen);
    lemma_mod_multiples_basic(4, dlen);
    assert(4 * dlen == dlen * 4) by (nonlinear_arith);
    assert(pos / dlen == 4);
    assert(pos % dlen == 0);
    let diff = logistic_knot(5) - logistic_knot(4);
    assert(diff * 0 == 0) by (nonlinear_arith);
    lemma_div_pos_is_pos(0, dlen);
    lemma_div_is_ordered(0, 0, dlen);
    assert(0int / dlen == 0) by {
        lemma_div_multiples_vanish(0, dlen);
        assert(dlen * 0 == 0) by (nonlinear_arith);
    };
}

/// The logistic value at an integer window point, as executable code.
fn knot_value(k: u64) -> (r: i64)
    requires
        k <= 8,
    ensures
        r == logistic_knot(k as int),
{
    if k == 0 {
        1179
    } else if k == 1 {
        3108
    } else if k == 2 {
        7813
    } else if k == 3 {
        17625
    } else if k == 4 {
        32768
    } else if k == 5 {
        47911
    } else if k == 6 {
        57723
    } else if k == 7 {
        62428
    } else {
        64357
    }
}

/// Computes `sig_curve(u, dlen)` exactly, with 128-bit intermediates.
pub fn sig_curve_eval(u: i64, dlen: i64) -> (r: i64)
    requires
        0 <= u <= dlen,
        0 < dlen,
    ensures
        r == sig_curve(u as int, dlen as int),
        logistic_knot(0) <= r <= logistic_knot(8),
{
    proof {
        lemma_sig_curve_bounds(u as int, dlen as int);
    }
    let p: u128 = (u as u128) * 8;
    let d: u128 = dlen as u128;
    let k: u128 = p / d;
    let rem: u128 = p % d;
    if k >= 8 {
        64357
    } else {
        let t0: i64 = knot_value(k as u64);
        let t1: i64 = knot_value((k as u64) + 1);
        let diff: u128 = (t1 - t0) as u128;
        proof {
            lemma_mul_upper_bound(diff as int, 65536, rem as int, i64::MAX as int);
            lemma_mul_nonnegative(diff as int, rem as int);
            lemma_mul_inequality(rem as int, d as int, diff as int);
            assert(diff as int * (rem as int) == rem as int * (diff as int)) by (nonlinear_arith);
            lemma_div_is_ordered(diff as int * (rem as int), d as int * (diff as int), d as int);
            lemma_div_multiples_vanish(diff as int, d as int);
            lemma_div_pos_is_pos(diff as int * (rem as int), d as int);
        }
        let q: u128 = (diff * rem) / d;
        t0 + (q as i64)
    }
}

} // verus!
