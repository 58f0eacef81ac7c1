use fractal::cmath::{atan2_fx, cos_fx, exp_fx, ln_fx, sin_fx};
use fractal::complex::{cdiv, cmul, norm_sqr, Complex};
use fractal::fixed::{fx_add, fx_div, fx_mul, fx_sub, Fx};

fn fx(m: i64) -> Fx {
    Fx { m }
}

#[test]
fn scalar_arithmetic_is_exact_decimal_fixed_point() {
    assert_eq!(fx_add(fx(1_500_000), fx(250_000)), fx(1_750_000));
    assert_eq!(fx_sub(fx(1_000_000), fx(2_500_000)), fx(-1_500_000));
    assert_eq!(fx_mul(fx(1_100_000), fx(1_100_000)), fx(1_210_000));
    assert_eq!(fx_div(fx(3_000_000), fx(2_000_000)), fx(1_500_000));
    // division by zero saturates in the dividend's direction
    assert_eq!(fx_div(fx(1), fx(0)), fx(i64::MAX));
    assert_eq!(fx_div(fx(-1), fx(0)), fx(-i64::MAX));
    assert_eq!(fx_div(fx(0), fx(0)), fx(0));
    // products outside the representable range saturate
    assert_eq!(fx_mul(fx(i64::MAX), fx(i64::MAX)), fx(i64::MAX));
}

#[test]
fn complex_arithmetic_matches_the_formulas() {
    let z = Complex { re: fx(1_000_000), im: fx(2_000_000) };
    let w = Complex { re: fx(3_000_000), im: fx(-1_000_000) };
    // (1 + 2i)(3 - i) = 5 + 5i
    assert_eq!(cmul(z, w), Complex { re: fx(5_000_000), im: fx(5_000_000) });
    assert_eq!(norm_sqr(z), fx(5_000_000));
    // (5 + 5i) / (3 - i) recovers 1 + 2i
    let q = cdiv(cmul(z, w), w);
    assert_eq!(q, z);
}

#[test]
fn elementary_functions_hit_exact_anchor_points() {
    assert_eq!(exp_fx(fx(0)), fx(1_000_000));
    assert_eq!(exp_fx(fx(1_000_000)), fx(2_718_281));
    assert_eq!(ln_fx(fx(1_000_000)), fx(0));
    assert_eq!(ln_fx(fx(2_718_281)), fx(1_000_000));
    assert_eq!(sin_fx(fx(0)), fx(0));
    assert_eq!(cos_fx(fx(0)), fx(1_000_000));
    assert_eq!(atan2_fx(fx(0), fx(1_000_000)), fx(0));
    assert_eq!(atan2_fx(fx(1_000_000), fx(0)), fx(1_570_796));
    assert_eq!(atan2_fx(fx(-1_000_000), fx(0)), fx(-1_570_796));
}

#[test]
fn elementary_functions_stay_close_to_the_mathematical_values() {
    // e^0.5 = 1.648721...
    let h = exp_fx(fx(500_000));
    assert!(1_648_000 <= h.m && h.m <= 1_649_500, "exp(0.5) drifted: {}", h.m);
    // ln(10) = 2.302585...
    let l = ln_fx(fx(10_000_000));
    assert!(2_301_000 <= l.m && l.m <= 2_304_000, "ln(10) drifted: {}", l.m);
    // sin(pi/2) = 1
    let s = sin_fx(fx(1_570_796));
    assert!(999_000 <= s.m && s.m <= 1_000_000, "sin(pi/2) drifted: {}", s.m);
    // atan2(1, 1) = pi/4 = 0.785398...
    let a = atan2_fx(fx(1_000_000), fx(1_000_000));
    assert!(784_500 <= a.m && a.m <= 786_500, "atan2(1,1) drifted: {}", a.m);
}
