//! Complex numbers over the fixed-point scalars.
//!
//! Every operation is total and pinned to an exact specification, so that the
//! escape-time iteration built on top of it is fully deterministic.

use vstd::prelude::*;

use crate::fixed::{
    abs_spec, add_spec, div_spec, fx_add, fx_div, fx_mul, fx_sub, mul_spec, sub_spec, Fx,
};

verus! {

/// A complex number with fixed-point real and imaginary parts.
#[derive(Clone, Copy, PartialEq, Eq, Structural, Debug)]
pub struct Complex {
    pub re: Fx,
    pub im: Fx,
}

pub open spec fn cadd_spec(a: Complex, b: Complex) -> Complex {
    Complex { re: add_spec(a.re, b.re), im: add_spec(a.im, b.im) }
}

pub open spec fn csub_spec(a: Complex, b: Complex) -> Complex {
    Complex { re: sub_spec(a.re, b.re), im: sub_spec(a.im, b.im) }
}

pub open spec fn cmul_spec(a: Complex, b: Complex) -> Complex {
    Complex {
        re: sub_spec(mul_spec(a.re, b.re), mul_spec(a.im, b.im)),
        im: add_spec(mul_spec(a.re, b.im), mul_spec(a.im, b.re)),
    }
}

/// The squared magnitude `re*re + im*im`.
pub open spec fn norm_sqr_spec(a: Complex) -> Fx {
    add_spec(mul_spec(a.re, a.re), mul_spec(a.im, a.im))
}

/// Division by the squared magnitude of the divisor, component-wise on
/// `a * conj(b)`; a zero divisor saturates as the scalar division does.
pub open spec fn cdiv_spec(a: Complex, b: Complex) -> Complex {
    let n = norm_sqr_spec(b);
    Complex {
        re: div_spec(add_spec(mul_spec(a.re, b.re), mul_spec(a.im, b.im)), n),
        im: div_spec(sub_spec(mul_spec(a.im, b.re), mul_spec(a.re, b.im)), n),
    }
}

pub fn cadd(a: Complex, b: Complex) -> (r: Complex)
    ensures
        r == cadd_spec(a, b),
{
    Complex { re: fx_add(a.re, b.re), im: fx_add(a.im, b.im) }
}

pub fn csub(a: Complex, b: Complex) -> (r: Complex)
    ensures
        r == csub_spec(a, b),
{
    Complex { re: fx_sub(a.re, b.re), im: fx_sub(a.im, b.im) }
}

pub fn cmul(a: Complex, b: Complex) -> (r: Complex)
    ensures
        r == cmul_spec(a, b),
{
    Complex {
        re: fx_sub(fx_mul(a.re, b.re), fx_mul(a.im, b.im)),
        im: fx_add(fx_mul(a.re, b.im), fx_mul(a.im, b.re)),
    }
}

pub fn norm_sqr(a: Complex) -> (r: Fx)
    ensures
        r == norm_sqr_spec(a),
{
    fx_add(fx_mul(a.re, a.re), fx_mul(a.im, a.im))
}

pub fn cdiv(a: Complex, b: Complex) -> (r: Complex)
    ensures
        r == cdiv_spec(a, b),
{
    let n = norm_sqr(b);
    Complex {
        re: fx_div(fx_add(fx_mul(a.re, b.re), fx_mul(a.im, b.im)), n),
        im: fx_div(fx_sub(fx_mul(a.im, b.re), fx_mul(a.re, b.im)), n),
    }
}

/// The squared magnitude is never negative.
pub proof fn lemma_norm_sqr_nonneg(a: Complex)
    ensures
        norm_sqr_spec(a).m >= 0,
{
    lemma_square_mantissa_nonneg(a.re);
    lemma_square_mantissa_nonneg(a.im);
}

/// A fixed-point square is never negative.
proof fn lemma_square_mantissa_nonneg(a: Fx)
    ensures
        mul_spec(a, a).m >= 0,
{
    assert((a.m as int) * (a.m as int) >= 0) by (nonlinear_arith);
}

} // verus!
