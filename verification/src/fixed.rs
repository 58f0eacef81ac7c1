//! Saturating decimal fixed-point scalars.
//!
//! A [`Fx`] holds a signed mantissa `m`; the value it denotes is `m / 1_000_000`.
//! Every operation is total: results outside the representable range saturate
//! to the largest or smallest representable value, and division by zero
//! saturates in the direction of the dividend's sign. Each executable
//! operation is pinned to an exact specification over the mantissa, so
//! arithmetic done with these scalars is fully deterministic.

use vstd::prelude::*;

verus! {

/// Mantissa units per 1.0: six decimal digits of fraction.
pub const SCALE_M: i64 = 1_000_000;

/// Largest representable mantissa.
pub const MAX_M: i64 = i64::MAX;

/// Smallest representable mantissa; the range is kept symmetric so that
/// negation never overflows.
pub const MIN_M: i64 = -i64::MAX;

/// A decimal fixed-point scalar: the value `m / 1_000_000`.
#[derive(Clone, Copy, PartialEq, Eq, Structural, Debug)]
pub struct Fx {
    pub m: i64,
}

/// Saturate an unbounded mantissa into the representable range.
pub open spec fn clip(v: int) -> int {
    if v > MAX_M as int {
        MAX_M as int
    } else if v < MIN_M as int {
        MIN_M as int
    } else {
        v
    }
}

/// Truncating division (rounds toward zero), as Rust's `/` computes it.
/// Unspecified for `b == 0`, which every caller here rules out.
pub open spec fn tdiv(a: int, b: int) -> int {
    if a == 0 {
        0
    } else if a > 0 && b > 0 {
        a / b
    } else if a < 0 && b < 0 {
        (a * -1) / (b * -1)
    } else if a < 0 {
        ((a * -1) / b) * -1
    } else {
        (a / (b * -1)) * -1
    }
}

/// The scalar whose mantissa is `v` saturated into range.
pub open spec fn fx_spec(v: int) -> Fx {
    Fx { m: clip(v) as i64 }
}

pub open spec fn add_spec(a: Fx, b: Fx) -> Fx {
    fx_spec(a.m + b.m)
}

pub open spec fn sub_spec(a: Fx, b: Fx) -> Fx {
    fx_spec(a.m - b.m)
}

pub open spec fn mul_spec(a: Fx, b: Fx) -> Fx {
    fx_spec(tdiv(a.m * b.m, SCALE_M as int))
}

pub open spec fn div_spec(a: Fx, b: Fx) -> Fx {
    if b.m == 0 {
        if a.m == 0 {
            Fx { m: 0 }
        } else if a.m > 0 {
            Fx { m: MAX_M }
        } else {
            Fx { m: MIN_M }
        }
    } else {
        fx_spec(tdiv(a.m * (SCALE_M as int), b.m as int))
    }
}

pub open spec fn neg_spec(a: Fx) -> Fx {
    fx_spec(-(a.m as int))
}

pub open spec fn abs_spec(a: Fx) -> Fx {
    if a.m < 0 {
        neg_spec(a)
    } else {
        a
    }
}

/// Division of the mantissa by a small positive integer; never saturates.
pub open spec fn divi_spec(a: Fx, k: int) -> Fx {
    Fx { m: tdiv(a.m as int, k) as i64 }
}

/// The scalar denoting the integer `i`, saturated into range.
pub open spec fn from_int_spec(i: int) -> Fx {
    fx_spec(i * (SCALE_M as int))
}

/// A product of two `i64` mantissas stays strictly inside the `i128` range.
proof fn lemma_mantissa_product_fits(a: int, b: int)
    by (nonlinear_arith)
    requires
        -(MAX_M as int) - 1 <= a <= MAX_M as int,
        -(MAX_M as int) - 1 <= b <= MAX_M as int,
    ensures
        a * b <= i128::MAX as int,
        -(i128::MAX as int) <= a * b,
{
}

/// Saturate a wide intermediate mantissa back to `i64`.
fn clip_i128(v: i128) -> (r: i64)
    ensures
        r as int == clip(v as int),
{
    if v > MAX_M as i128 {
        MAX_M
    } else if v < MIN_M as i128 {
        MIN_M
    } else {
        v as i64
    }
}

/// Truncating division on wide intermediates.
fn tdiv_i128(a: i128, b: i128) -> (r: i128)
    requires
        b != 0,
        a > i128::MIN,
    ensures
        r == tdiv(a as int, b as int),
{
    a.checked_div(b).unwrap()
}

pub fn fx_add(a: Fx, b: Fx) -> (r: Fx)
    ensures
        r == add_spec(a, b),
{
    let s: i128 = a.m as i128 + b.m as i128;
    Fx { m: clip_i128(s) }
}

pub fn fx_sub(a: Fx, b: Fx) -> (r: Fx)
    ensures
        r == sub_spec(a, b),
{
    let s: i128 = a.m as i128 - b.m as i128;
    Fx { m: clip_i128(s) }
}

pub fn fx_mul(a: Fx, b: Fx) -> (r: Fx)
    ensures
        r == mul_spec(a, b),
{
    proof {
        lemma_mantissa_product_fits(a.m as int, b.m as int);
    }
    let p: i128 = a.m as i128 * b.m as i128;
    let q: i128 = tdiv_i128(p, SCALE_M as i128);
    Fx { m: clip_i128(q) }
}

pub fn fx_div(a: Fx, b: Fx) -> (r: Fx)
    ensures
        r == div_spec(a, b),
{
    if b.m == 0 {
        if a.m == 0 {
            Fx { m: 0 }
        } else if a.m > 0 {
            Fx { m: MAX_M }
        } else {
            Fx { m: MIN_M }
        }
    } else {
        proof {
            lemma_mantissa_product_fits(a.m as int, SCALE_M as int);
        }
        let p: i128 = a.m as i128 * SCALE_M as i128;
        let q: i128 = tdiv_i128(p, b.m as i128);
        Fx { m: clip_i128(q) }
    }
}

/// Divide the mantissa itself by a positive integer (an exact scalar division
/// by `k` when `k` divides the scale, used for series terms).
pub fn fx_divi(a: Fx, k: i64) -> (r: Fx)
    requires
        k > 0,
    ensures
        r == divi_spec(a, k as int),
{
    proof {
        lemma_tdiv_magnitude(a.m as int, k as int);
    }
    Fx { m: a.m.checked_div(k).unwrap() }
}

/// Truncating division by a positive integer never grows the magnitude.
proof fn lemma_tdiv_magnitude(a: int, k: int)
    by (nonlinear_arith)
    requires
        k >= 1,
    ensures
        a >= 0 ==> 0 <= tdiv(a, k) <= a,
        a < 0 ==> a <= tdiv(a, k) <= 0,
{
}

pub fn fx_neg(a: Fx) -> (r: Fx)
    ensures
        r == neg_spec(a),
{
    let w: i128 = -(a.m as i128);
    Fx { m: clip_i128(w) }
}

pub fn fx_abs(a: Fx) -> (r: Fx)
    ensures
        r == abs_spec(a),
{
    if a.m < 0 {
        fx_neg(a)
    } else {
        a
    }
}

/// Multiplying a nonnegative scalar by a factor of at least one never
/// shrinks it, truncation notwithstanding.
pub proof fn lemma_mul_ge_one_factor(a: Fx, b: Fx)
    requires
        a.m >= 0,
        b.m >= SCALE_M,
    ensures
        mul_spec(a, b).m >= a.m,
{
    assert((a.m as int) * (b.m as int) >= (a.m as int) * (SCALE_M as int)) by (nonlinear_arith)
        requires
            a.m >= 0,
            b.m >= SCALE_M,
    ;
    vstd::arithmetic::div_mod::lemma_div_is_ordered(
        (a.m as int) * (SCALE_M as int),
        (a.m as int) * (b.m as int),
        SCALE_M as int,
    );
    vstd::arithmetic::div_mod::lemma_div_by_multiple(a.m as int, SCALE_M as int);
}

/// Multiplying a nonnegative scalar by a factor of at most one never grows
/// it, and keeps it nonnegative.
pub proof fn lemma_mul_le_one_factor(a: Fx, b: Fx)
    requires
        a.m >= 0,
        0 <= b.m <= SCALE_M,
    ensures
        0 <= mul_spec(a, b).m <= a.m,
{
    assert(0 <= (a.m as int) * (b.m as int) <= (a.m as int) * (SCALE_M as int))
        by (nonlinear_arith)
        requires
            a.m >= 0,
            0 <= b.m <= SCALE_M,
    ;
    vstd::arithmetic::div_mod::lemma_div_is_ordered(
        (a.m as int) * (b.m as int),
        (a.m as int) * (SCALE_M as int),
        SCALE_M as int,
    );
    vstd::arithmetic::div_mod::lemma_div_by_multiple(a.m as int, SCALE_M as int);
    vstd::arithmetic::div_mod::lemma_div_pos_is_pos((a.m as int) * (b.m as int), SCALE_M as int);
}

/// The scalar denoting the integer `i`.
pub fn fx_from_int(i: i64) -> (r: Fx)
    ensures
        r == from_int_spec(i as int),
{
    proof {
        lemma_mantissa_product_fits(i as int, SCALE_M as int);
    }
    let p: i128 = i as i128 * SCALE_M as i128;
    Fx { m: clip_i128(p) }
}

} // verus!
