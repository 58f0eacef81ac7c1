use fractal::complex::Complex;
use fractal::fixed::Fx;
use fractal::fparams::{parse_fx, parse_fx_with_default, parse_u32_with_default,
    parse_with_default, FParams, Overrides};

fn fx(m: i64) -> Fx {
    Fx { m }
}

#[test]
fn test_get_z0() {
    let mut p = FParams::default();
    p.center = Complex { re: fx(0), im: fx(0) };
    p.range_x = fx(2_000_000);
    p.range_y = fx(2_000_000);
    p.zoom = fx(1_000_000);
    p.calc_z0();
    assert!(p.z0.re == fx(-1_000_000));
    assert!(p.z0.im == fx(1_000_000));
}

#[test]
fn test_get_delta() {
    let mut p = FParams::default();
    p.range_x = fx(2_000_000);
    p.range_y = fx(2_000_000);
    p.width = 2;
    p.height = 2;
    p.zoom = fx(1_000_000);
    p.calc_delta();
    assert!(p.delta.re == fx(1_000_000));
    assert!(p.delta.im == fx(1_000_000));
}

#[test]
fn set_zoom_recomputes_both_derived_fields() {
    let mut p = FParams::default();
    p.set_zoom(fx(2_000_000));
    // range 3 at zoom 2 spans 1.5; half of that is 0.75
    assert_eq!(p.z0.re, fx(-750_000));
    assert_eq!(p.z0.im, fx(750_000));
    // 1.5 split over 1000 pixels steps by 0.0015
    assert_eq!(p.delta.re, fx(1_500));
    assert_eq!(p.delta.im, fx(1_500));
    assert_eq!(p.zoom, fx(2_000_000));
}

#[test]
fn defaults_match_the_documented_values() {
    let p = FParams::default();
    assert_eq!(p.bailout, fx(2_000_000));
    assert_eq!(p.max_iter, 500);
    assert_eq!(p.width, 1000);
    assert_eq!(p.height, 1000);
    assert_eq!(p.zoom, fx(1_000_000));
    assert_eq!(p.zoom_speed, fx(1_100_000));
    assert_eq!(p.gif_frames, 400);
    assert!(!p.parallel);
    assert!(!p.is_gif);
    assert_eq!(p.kind_fn, 0);
}

#[test]
fn parse_with_default_accepts_numerals_and_falls_back() {
    assert_eq!(parse_with_default(Some("123"), 7), 123);
    assert_eq!(parse_with_default(None, 7), 7);
    assert_eq!(parse_with_default(Some("abc"), 7), 7);
    assert_eq!(parse_with_default(Some(""), 7), 7);
    assert_eq!(parse_with_default(Some("999999999999999999999999"), 7), 7);
    // a leading plus is accepted, as integer FromStr accepts it
    assert_eq!(parse_with_default(Some("+42"), 7), 42);
    assert_eq!(parse_with_default(Some("+"), 7), 7);
    assert_eq!(parse_with_default(Some("++5"), 7), 7);
    assert_eq!(parse_with_default(Some("-5"), 7), 7);
    assert_eq!(parse_u32_with_default(Some("4294967296"), 9), 9);
    assert_eq!(parse_u32_with_default(Some("4294967295"), 9), u32::MAX);
    assert_eq!(parse_u32_with_default(Some("+10"), 9), 10);
}

#[test]
fn parse_fx_reads_signed_decimals_exactly() {
    assert_eq!(parse_fx("1.5"), Some(fx(1_500_000)));
    assert_eq!(parse_fx("-0.25"), Some(fx(-250_000)));
    assert_eq!(parse_fx("2"), Some(fx(2_000_000)));
    assert_eq!(parse_fx("+3.5"), Some(fx(3_500_000)));
    assert_eq!(parse_fx("0.000001"), Some(fx(1)));
    // the seventh fraction digit is truncated away
    assert_eq!(parse_fx("1.2345678"), Some(fx(1_234_567)));
    // a dotted side may be empty, as with binary floating point
    assert_eq!(parse_fx("5."), Some(fx(5_000_000)));
    assert_eq!(parse_fx(".5"), Some(fx(500_000)));
    assert_eq!(parse_fx("+.25"), Some(fx(250_000)));
    assert_eq!(parse_fx("-2."), Some(fx(-2_000_000)));
    // exponent notation is deliberately no numeral here
    assert_eq!(parse_fx("1e5"), None);
    assert_eq!(parse_fx("."), None);
    assert_eq!(parse_fx("+"), None);
    assert_eq!(parse_fx(""), None);
    assert_eq!(parse_fx_with_default(Some("oops"), fx(42)), fx(42));
    assert_eq!(parse_fx_with_default(Some("-1.100000"), fx(0)), fx(-1_100_000));
}

#[test]
fn from_overrides_overlays_each_field_independently() {
    let o = Overrides {
        max_iter: Some("25"),
        width: Some("4"),
        height: Some("2"),
        range_x: Some("2.0"),
        range_y: None,
        zoom: Some("2"),
        center_x: Some("-0.5"),
        center_y: Some("bad"),
        constant_x: None,
        constant_y: Some("0.25"),
        kind_fn: Some("10"),
        zoom_speed: Some("1.05"),
        gif_frames: Some("12"),
        parallel: true,
        is_gif: true,
    };
    let p = FParams::from_overrides(&o);
    assert_eq!(p.max_iter, 25);
    assert_eq!(p.width, 4);
    assert_eq!(p.height, 2);
    assert_eq!(p.range_x, fx(2_000_000));
    assert_eq!(p.range_y, fx(3_000_000));
    assert_eq!(p.zoom, fx(2_000_000));
    assert_eq!(p.center, Complex { re: fx(-500_000), im: fx(0) });
    assert_eq!(p.constant, Complex { re: fx(0), im: fx(250_000) });
    assert_eq!(p.kind_fn, 10);
    assert_eq!(p.zoom_speed, fx(1_050_000));
    assert_eq!(p.gif_frames, 12);
    assert!(p.parallel);
    assert!(p.is_gif);
    // derived geometry is consistent: range 2 at zoom 2 spans 1, centered at -0.5
    assert_eq!(p.z0.re, fx(-1_000_000));
    assert_eq!(p.delta.re, fx(250_000));
}

#[test]
fn settings_text_lists_the_effective_parameters() {
    let p = FParams::default();
    let t = p.settings_text();
    assert!(t.starts_with("Measures\n=======\nwidth           1000\n"));
    assert!(t.contains("\nzoom            1\n"));
    assert!(t.contains("\ncenter          0+0i\n"));
    assert!(t.contains("\nkind fn         x^2 + c\n"));
    assert!(t.contains("\nbailout         2\n"));
}
