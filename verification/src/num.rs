//! Exact scaled multiplication: `dx * num / den` with truncation toward zero.
//!
//! Every interpolation curve reduces to taking a fraction `dx / den` of a
//! signed span `num`.  The quotient is truncated toward zero, which for the
//! admitted operands (`0 <= dx <= den`) keeps the result between `0` and
//! `num` whatever the sign of `num`.

use vstd::prelude::*;
use vstd::arithmetic::div_mod::{
    lemma_div_is_ordered, lemma_div_multiples_vanish, lemma_div_pos_is_pos,
};
use vstd::arithmetic::mul::{lemma_mul_inequality, lemma_mul_nonnegative, lemma_mul_upper_bound};

verus! {

/// `dx * num / den`, truncated toward zero.  Meaningful for
/// `0 <= dx <= den` and `0 < den`; `num` may be negative.
pub open spec fn scaled(dx: int, num: int, den: int) -> int
    recommends
        0 <= dx <= den,
        0 < den,
{
    if num >= 0 {
        (dx * num) / den
    } else {
        -((dx * (-num)) / den)
    }
}

/// A fraction of a span never leaves the span: the scaled value lies
/// between `0` and `num`, inclusive, whatever the sign of `num`.
pub proof fn lemma_scaled_bounds(dx: int, num: int, den: int)
    requires
        0 <= dx <= den,
        0 < den,
    ensures
        num >= 0 ==> 0 <= scaled(dx, num, den) <= num,
        num < 0 ==> num <= scaled(dx, num, den) <= 0,
{
    let m = if num >= 0 { num } else { -num };
    lemma_mul_nonnegative(dx, m);
    lemma_mul_inequality(dx, den, m);
    lemma_div_pos_is_pos(dx * m, den);
    lemma_div_is_ordered(dx * m, den * m, den);
    lemma_div_multiples_vanish(m, den);
}

/// Scaling is monotone in `dx`, in the direction of the sign of `num`.
pub proof fn lemma_scaled_monotone(dx1: int, dx2: int, num: int, den: int)
    requires
        0 <= dx1 <= dx2,
        0 < den,
    ensures
        num >= 0 ==> scaled(dx1, num, den) <= scaled(dx2, num, den),
        num < 0 ==> scaled(dx2, num, den) <= scaled(dx1, num, den),
{
    let m = if num >= 0 { num } else { -num };
    lemma_mul_inequality(dx1, dx2, m);
    lemma_div_is_ordered(dx1 * m, dx2 * m, den);
}

/// Half of an even span scales an even `num` to exactly `num / 2`.
pub proof fn lemma_scaled_half(num: int, den: int)
    requires
        0 < den,
        den % 2 == 0,
        num % 2 == 0,
    ensures
        scaled(den / 2, num, den) == num / 2,
{
    let a = den / 2;
    let m = if num >= 0 { num } else { -num };
    let b = m / 2;
    assert(den == 2 * a);
    assert(m == 2 * b);
    assert(a * m == den * b) by (nonlinear_arith)
        requires
            den == 2 * a && m == 2 * b,
    ;
    lemma_div_multiples_vanish(b, den);
}

/// Computes `scaled(dx, num, den)` exactly, using a 128-bit intermediate
/// product so no admitted operand overflows.
pub fn mul_div(dx: i64, num: i64, den: i64) -> (r: i64)
    requires
        0 <= dx <= den,
        0 < den,
        -(i64::MAX as int) <= num,
    ensures
        r == scaled(dx as int, num as int, den as int),
        num >= 0 ==> 0 <= r <= num,
        num < 0 ==> num <= r <= 0,
{
    proof {
        lemma_scaled_bounds(dx as int, num as int, den as int);
    }
    if num >= 0 {
        proof {
            lemma_mul_upper_bound(dx as int, i64::MAX as int, num as int, i64::MAX as int);
        }
        let p: u128 = (dx as u128) * (num as u128);
        let q: u128 = p / (den as u128);
        q as i64
    } else {
        let m: i64 = -num;
        proof {
            lemma_mul_upper_bound(dx as int, i64::MAX as int, m as int, i64::MAX as int);
        }
        let p: u128 = (dx as u128) * (m as u128);
        let q: u128 = p / (den as u128);
        -(q as i64)
    }
}

} // verus!
