//! Fixed-point elementary functions.
//!
//! The exponential and logarithmic iteration functions of the catalog need
//! `exp`, `sin`, `cos`, `atan2` and `ln` on the fixed-point scalars. Each is a
//! total, deterministic truncated-series approximation: the argument is
//! brought into a small interval by exact range reduction, a fixed polynomial
//! is evaluated there, and out-of-range inputs saturate. Every executable
//! function is pinned to a specification mirror, so the escape-time orbit of
//! every sample point is a mathematical function of the parameters.

use vstd::prelude::*;

use crate::complex::{norm_sqr, norm_sqr_spec, Complex};
use crate::fixed::{
    abs_spec, add_spec, div_spec, divi_spec, fx_abs, fx_add, fx_div, fx_divi, fx_mul, fx_neg,
    fx_sub, mul_spec, neg_spec, sub_spec, Fx, MAX_M, MIN_M, SCALE_M,
};

verus! {

/// Mantissas of the constants used by the range reductions: powers of `e`,
/// their reciprocals, and multiples of pi.
const E1_M: i64 = 2_718_281;

const E2_M: i64 = 7_389_056;

const E4_M: i64 = 54_598_150;

const E8_M: i64 = 2_980_957_987;

const E16_M: i64 = 8_886_110_520_507;

const INV_E1_M: i64 = 367_879;

const INV_E2_M: i64 = 135_335;

const INV_E4_M: i64 = 18_315;

const INV_E8_M: i64 = 335;

const PI_M: i64 = 3_141_592;

const TWO_PI_M: i64 = 6_283_185;

const HALF_PI_M: i64 = 1_570_796;

const QUARTER_PI_M: i64 = 785_398;

/// `tan(pi/8)`, the cut above which the arctangent argument is folded.
const ATAN_FOLD_M: i64 = 414_213;

/// `e^n` for an integer `n` in `[0, 31]`, by conditional multiplication with
/// the tabulated powers `e^16, e^8, e^4, e^2, e`.
pub closed spec fn exp_int_spec(n: int) -> Fx {
    let p0 = Fx { m: SCALE_M };
    let p1 = if n >= 16 {
        mul_spec(p0, Fx { m: E16_M })
    } else {
        p0
    };
    let n1 = if n >= 16 {
        n - 16
    } else {
        n
    };
    let p2 = if n1 >= 8 {
        mul_spec(p1, Fx { m: E8_M })
    } else {
        p1
    };
    let n2 = if n1 >= 8 {
        n1 - 8
    } else {
        n1
    };
    let p3 = if n2 >= 4 {
        mul_spec(p2, Fx { m: E4_M })
    } else {
        p2
    };
    let n3 = if n2 >= 4 {
        n2 - 4
    } else {
        n2
    };
    let p4 = if n3 >= 2 {
        mul_spec(p3, Fx { m: E2_M })
    } else {
        p3
    };
    let n4 = if n3 >= 2 {
        n3 - 2
    } else {
        n3
    };
    if n4 >= 1 {
        mul_spec(p4, Fx { m: E1_M })
    } else {
        p4
    }
}

fn exp_int(n: i64) -> (r: Fx)
    requires
        0 <= n <= 31,
    ensures
        r == exp_int_spec(n as int),
{
    let mut p = Fx { m: SCALE_M };
    let mut k = n;
    if k >= 16 {
        p = fx_mul(p, Fx { m: E16_M });
        k = k - 16;
    }
    if k >= 8 {
        p = fx_mul(p, Fx { m: E8_M });
        k = k - 8;
    }
    if k >= 4 {
        p = fx_mul(p, Fx { m: E4_M });
        k = k - 4;
    }
    if k >= 2 {
        p = fx_mul(p, Fx { m: E2_M });
        k = k - 2;
    }
    if k >= 1 {
        p = fx_mul(p, Fx { m: E1_M });
    }
    p
}

/// `e^f` for a fraction `f` in `[0, 1)`: nine terms of the Taylor series.
pub closed spec fn exp_frac_spec(f: Fx) -> Fx {
    let t2 = divi_spec(mul_spec(f, f), 2);
    let t3 = divi_spec(mul_spec(t2, f), 3);
    let t4 = divi_spec(mul_spec(t3, f), 4);
    let t5 = divi_spec(mul_spec(t4, f), 5);
    let t6 = divi_spec(mul_spec(t5, f), 6);
    let t7 = divi_spec(mul_spec(t6, f), 7);
    let t8 = divi_spec(mul_spec(t7, f), 8);
    let t9 = divi_spec(mul_spec(t8, f), 9);
    let s = add_spec(Fx { m: SCALE_M }, f);
    let s = add_spec(s, t2);
    let s = add_spec(s, t3);
    let s = add_spec(s, t4);
    let s = add_spec(s, t5);
    let s = add_spec(s, t6);
    let s = add_spec(s, t7);
    let s = add_spec(s, t8);
    add_spec(s, t9)
}

fn exp_frac(f: Fx) -> (r: Fx)
    ensures
        r == exp_frac_spec(f),
{
    let t2 = fx_divi(fx_mul(f, f), 2);
    let t3 = fx_divi(fx_mul(t2, f), 3);
    let t4 = fx_divi(fx_mul(t3, f), 4);
    let t5 = fx_divi(fx_mul(t4, f), 5);
    let t6 = fx_divi(fx_mul(t5, f), 6);
    let t7 = fx_divi(fx_mul(t6, f), 7);
    let t8 = fx_divi(fx_mul(t7, f), 8);
    let t9 = fx_divi(fx_mul(t8, f), 9);
    let mut s = fx_add(Fx { m: SCALE_M }, f);
    s = fx_add(s, t2);
    s = fx_add(s, t3);
    s = fx_add(s, t4);
    s = fx_add(s, t5);
    s = fx_add(s, t6);
    s = fx_add(s, t7);
    s = fx_add(s, t8);
    fx_add(s, t9)
}

/// The real exponential: saturates above `30` (where the result leaves the
/// representable range) and flushes to zero below `-14` (where it is smaller
/// than one mantissa unit).
pub closed spec fn exp_fx_spec(x: Fx) -> Fx {
    if x.m >= 30_000_000 {
        Fx { m: MAX_M }
    } else if x.m <= -14_000_000 {
        Fx { m: 0 }
    } else {
        let n = (x.m as int) / (SCALE_M as int);
        let f = Fx { m: ((x.m as int) % (SCALE_M as int)) as i64 };
        let en = if n >= 0 {
            exp_int_spec(n)
        } else {
            div_spec(Fx { m: SCALE_M }, exp_int_spec(-n))
        };
        mul_spec(en, exp_frac_spec(f))
    }
}

pub fn exp_fx(x: Fx) -> (r: Fx)
    ensures
        r == exp_fx_spec(x),
{
    if x.m >= 30_000_000 {
        Fx { m: MAX_M }
    } else if x.m <= -14_000_000 {
        Fx { m: 0 }
    } else {
        let n: i64 = x.m.checked_div_euclid(SCALE_M).unwrap();
        let fm: i64 = x.m.checked_rem_euclid(SCALE_M).unwrap();
        let ef = exp_frac(Fx { m: fm });
        let en = if n >= 0 {
            exp_int(n)
        } else {
            fx_div(Fx { m: SCALE_M }, exp_int(-n))
        };
        fx_mul(en, ef)
    }
}

/// Remainder, quadrant and offset of an angle reduced modulo `2*pi`: returns
/// `(t, q)` with the angle congruent to `q*(pi/2) + t` and `t` in `[0, pi/2]`.
pub closed spec fn angle_reduce_spec(x: Fx) -> (Fx, int) {
    let rem = (x.m as int) % (TWO_PI_M as int);
    let q = rem / (HALF_PI_M as int);
    let t = Fx { m: (rem - q * (HALF_PI_M as int)) as i64 };
    if q == 4 {
        (t, 0)
    } else {
        (t, q)
    }
}

fn angle_reduce(x: Fx) -> (r: (Fx, i64))
    ensures
        (r.0, r.1 as int) == angle_reduce_spec(x),
        0 <= r.1 <= 3,
{
    let rem: i64 = x.m.checked_rem_euclid(TWO_PI_M).unwrap();
    let q: i64 = rem.checked_div(HALF_PI_M).unwrap();
    let t = Fx { m: rem - q * HALF_PI_M };
    if q == 4 {
        (t, 0)
    } else {
        (t, q)
    }
}

/// Sine on `[0, pi/2]`: five terms of the Taylor series.
pub closed spec fn sin_core_spec(t: Fx) -> Fx {
    let t2 = mul_spec(t, t);
    let t3 = mul_spec(t2, t);
    let t5 = mul_spec(t3, t2);
    let t7 = mul_spec(t5, t2);
    let t9 = mul_spec(t7, t2);
    let s = sub_spec(t, divi_spec(t3, 6));
    let s = add_spec(s, divi_spec(t5, 120));
    let s = sub_spec(s, divi_spec(t7, 5040));
    add_spec(s, divi_spec(t9, 362880))
}

fn sin_core(t: Fx) -> (r: Fx)
    ensures
        r == sin_core_spec(t),
{
    let t2 = fx_mul(t, t);
    let t3 = fx_mul(t2, t);
    let t5 = fx_mul(t3, t2);
    let t7 = fx_mul(t5, t2);
    let t9 = fx_mul(t7, t2);
    let mut s = fx_sub(t, fx_divi(t3, 6));
    s = fx_add(s, fx_divi(t5, 120));
    s = fx_sub(s, fx_divi(t7, 5040));
    fx_add(s, fx_divi(t9, 362880))
}

/// Cosine on `[0, pi/2]`: six terms of the Taylor series.
pub closed spec fn cos_core_spec(t: Fx) -> Fx {
    let t2 = mul_spec(t, t);
    let t4 = mul_spec(t2, t2);
    let t6 = mul_spec(t4, t2);
    let t8 = mul_spec(t6, t2);
    let t10 = mul_spec(t8, t2);
    let s = sub_spec(Fx { m: SCALE_M }, divi_spec(t2, 2));
    let s = add_spec(s, divi_spec(t4, 24));
    let s = sub_spec(s, divi_spec(t6, 720));
    let s = add_spec(s, divi_spec(t8, 40320));
    sub_spec(s, divi_spec(t10, 3628800))
}

fn cos_core(t: Fx) -> (r: Fx)
    ensures
        r == cos_core_spec(t),
{
    let t2 = fx_mul(t, t);
    let t4 = fx_mul(t2, t2);
    let t6 = fx_mul(t4, t2);
    let t8 = fx_mul(t6, t2);
    let t10 = fx_mul(t8, t2);
    let mut s = fx_sub(Fx { m: SCALE_M }, fx_divi(t2, 2));
    s = fx_add(s, fx_divi(t4, 24));
    s = fx_sub(s, fx_divi(t6, 720));
    s = fx_add(s, fx_divi(t8, 40320));
    fx_sub(s, fx_divi(t10, 3628800))
}

/// The sine, by quadrant reduction onto [`sin_core_spec`] and
/// [`cos_core_spec`].
pub closed spec fn sin_fx_spec(x: Fx) -> Fx {
    let (t, q) = angle_reduce_spec(x);
    if q == 0 {
        sin_core_spec(t)
    } else if q == 1 {
        cos_core_spec(t)
    } else if q == 2 {
        neg_spec(sin_core_spec(t))
    } else {
        neg_spec(cos_core_spec(t))
    }
}

pub fn sin_fx(x: Fx) -> (r: Fx)
    ensures
        r == sin_fx_spec(x),
{
    let (t, q) = angle_reduce(x);
    if q == 0 {
        sin_core(t)
    } else if q == 1 {
        cos_core(t)
    } else if q == 2 {
        fx_neg(sin_core(t))
    } else {
        fx_neg(cos_core(t))
    }
}

/// The cosine, by quadrant reduction onto [`sin_core_spec`] and
/// [`cos_core_spec`].
pub closed spec fn cos_fx_spec(x: Fx) -> Fx {
    let (t, q) = angle_reduce_spec(x);
    if q == 0 {
        cos_core_spec(t)
    } else if q == 1 {
        neg_spec(sin_core_spec(t))
    } else if q == 2 {
        neg_spec(cos_core_spec(t))
    } else {
        sin_core_spec(t)
    }
}

pub fn cos_fx(x: Fx) -> (r: Fx)
    ensures
        r == cos_fx_spec(x),
{
    let (t, q) = angle_reduce(x);
    if q == 0 {
        cos_core(t)
    } else if q == 1 {
        fx_neg(sin_core(t))
    } else if q == 2 {
        fx_neg(cos_core(t))
    } else {
        sin_core(t)
    }
}

/// Arctangent series on the folded interval (odd polynomial, seven terms).
pub closed spec fn atan_series_spec(u: Fx) -> Fx {
    let u2 = mul_spec(u, u);
    let u3 = mul_spec(u2, u);
    let u5 = mul_spec(u3, u2);
    let u7 = mul_spec(u5, u2);
    let u9 = mul_spec(u7, u2);
    let u11 = mul_spec(u9, u2);
    let u13 = mul_spec(u11, u2);
    let s = sub_spec(u, divi_spec(u3, 3));
    let s = add_spec(s, divi_spec(u5, 5));
    let s = sub_spec(s, divi_spec(u7, 7));
    let s = add_spec(s, divi_spec(u9, 9));
    let s = sub_spec(s, divi_spec(u11, 11));
    add_spec(s, divi_spec(u13, 13))
}

fn atan_series(u: Fx) -> (r: Fx)
    ensures
        r == atan_series_spec(u),
{
    let u2 = fx_mul(u, u);
    let u3 = fx_mul(u2, u);
    let u5 = fx_mul(u3, u2);
    let u7 = fx_mul(u5, u2);
    let u9 = fx_mul(u7, u2);
    let u11 = fx_mul(u9, u2);
    let u13 = fx_mul(u11, u2);
    let mut s = fx_sub(u, fx_divi(u3, 3));
    s = fx_add(s, fx_divi(u5, 5));
    s = fx_sub(s, fx_divi(u7, 7));
    s = fx_add(s, fx_divi(u9, 9));
    s = fx_sub(s, fx_divi(u11, 11));
    fx_add(s, fx_divi(u13, 13))
}

/// Arctangent on `[0, 1]`: arguments above `tan(pi/8)` are folded through
/// `atan(t) = pi/4 + atan((t-1)/(t+1))`.
pub closed spec fn atan_core_spec(t: Fx) -> Fx {
    if t.m > ATAN_FOLD_M {
        let u = div_spec(sub_spec(t, Fx { m: SCALE_M }), add_spec(t, Fx { m: SCALE_M }));
        add_spec(Fx { m: QUARTER_PI_M }, atan_series_spec(u))
    } else {
        atan_series_spec(t)
    }
}

fn atan_core(t: Fx) -> (r: Fx)
    ensures
        r == atan_core_spec(t),
{
    if t.m > ATAN_FOLD_M {
        let u = fx_div(fx_sub(t, Fx { m: SCALE_M }), fx_add(t, Fx { m: SCALE_M }));
        fx_add(Fx { m: QUARTER_PI_M }, atan_series(u))
    } else {
        atan_series(t)
    }
}

/// The two-argument arctangent, with the conventional axis values and the
/// result in `(-pi, pi]`.
pub closed spec fn atan2_fx_spec(y: Fx, x: Fx) -> Fx {
    if x.m == 0 && y.m == 0 {
        Fx { m: 0 }
    } else if x.m == 0 {
        if y.m > 0 {
            Fx { m: HALF_PI_M }
        } else {
            neg_spec(Fx { m: HALF_PI_M })
        }
    } else {
        let ax = abs_spec(x);
        let ay = abs_spec(y);
        let base = if ay.m <= ax.m {
            atan_core_spec(div_spec(ay, ax))
        } else {
            sub_spec(Fx { m: HALF_PI_M }, atan_core_spec(div_spec(ax, ay)))
        };
        if x.m > 0 {
            if y.m >= 0 {
                base
            } else {
                neg_spec(base)
            }
        } else {
            if y.m >= 0 {
                sub_spec(Fx { m: PI_M }, base)
            } else {
                neg_spec(sub_spec(Fx { m: PI_M }, base))
            }
        }
    }
}

pub fn atan2_fx(y: Fx, x: Fx) -> (r: Fx)
    ensures
        r == atan2_fx_spec(y, x),
{
    if x.m == 0 && y.m == 0 {
        Fx { m: 0 }
    } else if x.m == 0 {
        if y.m > 0 {
            Fx { m: HALF_PI_M }
        } else {
            fx_neg(Fx { m: HALF_PI_M })
        }
    } else {
        let ax = fx_abs(x);
        let ay = fx_abs(y);
        let base = if ay.m <= ax.m {
            atan_core(fx_div(ay, ax))
        } else {
            fx_sub(Fx { m: HALF_PI_M }, atan_core(fx_div(ax, ay)))
        };
        if x.m > 0 {
            if y.m >= 0 {
                base
            } else {
                fx_neg(base)
            }
        } else {
            if y.m >= 0 {
                fx_sub(Fx { m: PI_M }, base)
            } else {
                fx_neg(fx_sub(Fx { m: PI_M }, base))
            }
        }
    }
}

/// First half of the logarithm reduction: arguments at or above `e` are
/// divided down by the tabulated powers of `e`, counting the exponent.
pub closed spec fn ln_shrink_spec(x: Fx) -> (Fx, int) {
    let v0 = x;
    let v1 = if v0.m >= E16_M {
        div_spec(v0, Fx { m: E16_M })
    } else {
        v0
    };
    let n1: int = if v0.m >= E16_M {
        16
    } else {
        0
    };
    let v2 = if v1.m >= E8_M {
        div_spec(v1, Fx { m: E8_M })
    } else {
        v1
    };
    let n2 = if v1.m >= E8_M {
        n1 + 8
    } else {
        n1
    };
    let v3 = if v2.m >= E4_M {
        div_spec(v2, Fx { m: E4_M })
    } else {
        v2
    };
    let n3 = if v2.m >= E4_M {
        n2 + 4
    } else {
        n2
    };
    let v4 = if v3.m >= E2_M {
        div_spec(v3, Fx { m: E2_M })
    } else {
        v3
    };
    let n4 = if v3.m >= E2_M {
        n3 + 2
    } else {
        n3
    };
    let v5 = if v4.m >= E1_M {
        div_spec(v4, Fx { m: E1_M })
    } else {
        v4
    };
    let n5 = if v4.m >= E1_M {
        n4 + 1
    } else {
        n4
    };
    (v5, n5)
}

fn ln_shrink(x: Fx) -> (r: (Fx, i64))
    ensures
        (r.0, r.1 as int) == ln_shrink_spec(x),
        0 <= r.1 <= 31,
{
    let mut v = x;
    let mut n: i64 = 0;
    if v.m >= E16_M {
        v = fx_div(v, Fx { m: E16_M });
        n = n + 16;
    }
    if v.m >= E8_M {
        v = fx_div(v, Fx { m: E8_M });
        n = n + 8;
    }
    if v.m >= E4_M {
        v = fx_div(v, Fx { m: E4_M });
        n = n + 4;
    }
    if v.m >= E2_M {
        v = fx_div(v, Fx { m: E2_M });
        n = n + 2;
    }
    if v.m >= E1_M {
        v = fx_div(v, Fx { m: E1_M });
        n = n + 1;
    }
    (v, n)
}

/// One conditional step of the upward reduction: multiply by `e^dn` when the
/// value is still below the cut, lowering the exponent count.
pub closed spec fn grow_step_spec(v: Fx, n: int, cut: i64, fac: i64, dn: int) -> (Fx, int) {
    if v.m < cut {
        (mul_spec(v, Fx { m: fac }), n - dn)
    } else {
        (v, n)
    }
}

fn grow_step(v: Fx, n: i64, cut: i64, fac: i64, dn: i64) -> (r: (Fx, i64))
    requires
        -100 <= n <= 100,
        0 <= dn <= 16,
    ensures
        (r.0, r.1 as int) == grow_step_spec(v, n as int, cut, fac, dn as int),
        n - dn <= r.1 <= n,
{
    if v.m < cut {
        (fx_mul(v, Fx { m: fac }), n - dn)
    } else {
        (v, n)
    }
}

/// Second half of the logarithm reduction: arguments below one are multiplied
/// up by the tabulated powers of `e` until they land in `[1, e)`.
pub closed spec fn ln_grow_spec(v5: Fx, n5: int) -> (Fx, int) {
    let (v6, n6) = grow_step_spec(v5, n5, INV_E8_M, E8_M, 8);
    let (v7, n7) = grow_step_spec(v6, n6, INV_E4_M, E4_M, 4);
    let (v8, n8) = grow_step_spec(v7, n7, INV_E2_M, E2_M, 2);
    let (v9, n9) = grow_step_spec(v8, n8, INV_E1_M, E1_M, 1);
    let (v10, n10) = grow_step_spec(v9, n9, SCALE_M, E1_M, 1);
    grow_step_spec(v10, n10, SCALE_M, E1_M, 1)
}

fn ln_grow(v_in: Fx, n_in: i64) -> (r: (Fx, i64))
    requires
        0 <= n_in <= 31,
    ensures
        (r.0, r.1 as int) == ln_grow_spec(v_in, n_in as int),
        -17 <= r.1 <= 31,
{
    let (v6, n6) = grow_step(v_in, n_in, INV_E8_M, E8_M, 8);
    let (v7, n7) = grow_step(v6, n6, INV_E4_M, E4_M, 4);
    let (v8, n8) = grow_step(v7, n7, INV_E2_M, E2_M, 2);
    let (v9, n9) = grow_step(v8, n8, INV_E1_M, E1_M, 1);
    let (v10, n10) = grow_step(v9, n9, SCALE_M, E1_M, 1);
    grow_step(v10, n10, SCALE_M, E1_M, 1)
}

/// Multiplicative reduction for the logarithm: returns `(v, n)` with the
/// argument equal to roughly `v * e^n` and `v` in `[1, e)`.
pub closed spec fn ln_reduce_spec(x: Fx) -> (Fx, int) {
    let (v5, n5) = ln_shrink_spec(x);
    ln_grow_spec(v5, n5)
}

fn ln_reduce(x: Fx) -> (r: (Fx, i64))
    ensures
        (r.0, r.1 as int) == ln_reduce_spec(x),
        -17 <= r.1 <= 31,
{
    let (v, n) = ln_shrink(x);
    ln_grow(v, n)
}

/// Inverse hyperbolic tangent series (eight odd terms), used for the
/// logarithm on the reduced interval.
pub closed spec fn artanh_series_spec(u: Fx) -> Fx {
    let u2 = mul_spec(u, u);
    let u3 = mul_spec(u2, u);
    let u5 = mul_spec(u3, u2);
    let u7 = mul_spec(u5, u2);
    let u9 = mul_spec(u7, u2);
    let u11 = mul_spec(u9, u2);
    let u13 = mul_spec(u11, u2);
    let u15 = mul_spec(u13, u2);
    let s = add_spec(u, divi_spec(u3, 3));
    let s = add_spec(s, divi_spec(u5, 5));
    let s = add_spec(s, divi_spec(u7, 7));
    let s = add_spec(s, divi_spec(u9, 9));
    let s = add_spec(s, divi_spec(u11, 11));
    let s = add_spec(s, divi_spec(u13, 13));
    add_spec(s, divi_spec(u15, 15))
}

fn artanh_series(u: Fx) -> (r: Fx)
    ensures
        r == artanh_series_spec(u),
{
    let u2 = fx_mul(u, u);
    let u3 = fx_mul(u2, u);
    let u5 = fx_mul(u3, u2);
    let u7 = fx_mul(u5, u2);
    let u9 = fx_mul(u7, u2);
    let u11 = fx_mul(u9, u2);
    let u13 = fx_mul(u11, u2);
    let u15 = fx_mul(u13, u2);
    let mut s = fx_add(u, fx_divi(u3, 3));
    s = fx_add(s, fx_divi(u5, 5));
    s = fx_add(s, fx_divi(u7, 7));
    s = fx_add(s, fx_divi(u9, 9));
    s = fx_add(s, fx_divi(u11, 11));
    s = fx_add(s, fx_divi(u13, 13));
    fx_add(s, fx_divi(u15, 15))
}

/// The natural logarithm; nonpositive arguments saturate to the smallest
/// representable scalar.
pub closed spec fn ln_fx_spec(x: Fx) -> Fx {
    if x.m <= 0 {
        Fx { m: MIN_M }
    } else {
        let (v, n) = ln_reduce_spec(x);
        let u = div_spec(sub_spec(v, Fx { m: SCALE_M }), add_spec(v, Fx { m: SCALE_M }));
        let s = artanh_series_spec(u);
        add_spec(Fx { m: (n * (SCALE_M as int)) as i64 }, add_spec(s, s))
    }
}

pub fn ln_fx(x: Fx) -> (r: Fx)
    ensures
        r == ln_fx_spec(x),
{
    if x.m <= 0 {
        Fx { m: MIN_M }
    } else {
        let (v, n) = ln_reduce(x);
        let u = fx_div(fx_sub(v, Fx { m: SCALE_M }), fx_add(v, Fx { m: SCALE_M }));
        let s = artanh_series(u);
        fx_add(Fx { m: n * SCALE_M }, fx_add(s, s))
    }
}

/// The complex exponential `e^z = e^re * (cos(im) + i sin(im))`.
pub open spec fn cexp_spec(z: Complex) -> Complex {
    let ex = exp_fx_spec(z.re);
    Complex { re: mul_spec(ex, cos_fx_spec(z.im)), im: mul_spec(ex, sin_fx_spec(z.im)) }
}

pub fn cexp(z: Complex) -> (r: Complex)
    ensures
        r == cexp_spec(z),
{
    let ex = exp_fx(z.re);
    Complex { re: fx_mul(ex, cos_fx(z.im)), im: fx_mul(ex, sin_fx(z.im)) }
}

/// The complex logarithm `ln|z| + i arg(z)`, with `ln|z|` computed as half
/// the logarithm of the squared magnitude.
pub open spec fn cln_spec(z: Complex) -> Complex {
    Complex { re: divi_spec(ln_fx_spec(norm_sqr_spec(z)), 2), im: atan2_fx_spec(z.im, z.re) }
}

pub fn cln(z: Complex) -> (r: Complex)
    ensures
        r == cln_spec(z),
{
    Complex { re: fx_divi(ln_fx(norm_sqr(z)), 2), im: atan2_fx(z.im, z.re) }
}

} // verus!
