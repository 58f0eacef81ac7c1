//! The hue-rotation colorizer.
//!
//! [`SimpleColorizer`] maps an escape count to an RGBA byte quad: the count
//! is turned into a hue angle by `hue = (step * k + phase) mod 360`, the
//! HSL triple `(hue, saturation, lightness)` is converted to RGB by the
//! standard piecewise-linear formula, and each channel is scaled to `[0,255]`
//! with truncation; the alpha channel is the configured alpha so scaled.
//! Everything is exact fixed-point arithmetic, so a color is a mathematical
//! function of the configuration and the count — deterministic across
//! threads and renders.

use vstd::prelude::*;

use crate::fgenerator::Colorizer;
use crate::fixed::{
    abs_spec, add_spec, divi_spec, fx_abs, fx_add, fx_divi, fx_mul, fx_sub, mul_spec, sub_spec,
    tdiv, Fx, MAX_M, SCALE_M,
};

verus! {

/// Full turn, in mantissa degrees.
pub const FULL_TURN_M: i64 = 360_000_000;

/// One sextant of the hue circle, in mantissa degrees.
pub const SEXTANT_M: i64 = 60_000_000;

/// A hue-rotation coloring strategy: immutable configuration, shared freely
/// across parallel workers.
#[derive(Clone, Copy, PartialEq, Eq, Structural, Debug)]
pub struct SimpleColorizer {
    pub step: Fx,
    pub phase: Fx,
    pub saturation: Fx,
    pub lightness: Fx,
    pub alpha: Fx,
}

/// A channel value scaled to a byte: `v * 255` truncated and clamped.
pub open spec fn byte_of(v: Fx) -> u8 {
    let w = tdiv(v.m * 255, SCALE_M as int);
    if w < 0 {
        0
    } else if w > 255 {
        255
    } else {
        w as u8
    }
}

fn fx_to_byte(v: Fx) -> (r: u8)
    ensures
        r == byte_of(v),
{
    let p: i128 = v.m as i128 * 255;
    let w: i128 = p.checked_div(1_000_000).unwrap();
    if w < 0 {
        0
    } else if w > 255 {
        255
    } else {
        w as u8
    }
}

/// The RGB triple of an HSL value, hue in nonnegative mantissa degrees:
/// chroma from lightness and saturation, a sextant split on the hue, and the
/// lightness offset added onto each channel.
pub open spec fn hsl_rgb_spec(h: Fx, s: Fx, l: Fx) -> (u8, u8, u8) {
    let one = Fx { m: SCALE_M };
    let c = mul_spec(sub_spec(one, abs_spec(sub_spec(add_spec(l, l), one))), s);
    let sector = h.m as int / (SEXTANT_M as int);
    let hp = divi_spec(h, 60);
    let hp2 = Fx { m: (hp.m as int % 2_000_000) as i64 };
    let x = mul_spec(c, sub_spec(one, abs_spec(sub_spec(hp2, one))));
    let m = sub_spec(l, divi_spec(c, 2));
    let zero = Fx { m: 0 };
    let (r1, g1, b1) = if sector == 0 {
        (c, x, zero)
    } else if sector == 1 {
        (x, c, zero)
    } else if sector == 2 {
        (zero, c, x)
    } else if sector == 3 {
        (zero, x, c)
    } else if sector == 4 {
        (x, zero, c)
    } else {
        (c, zero, x)
    };
    (byte_of(add_spec(r1, m)), byte_of(add_spec(g1, m)), byte_of(add_spec(b1, m)))
}

fn hsl_rgb(h: Fx, s: Fx, l: Fx) -> (r: (u8, u8, u8))
    requires
        0 <= h.m,
    ensures
        r == hsl_rgb_spec(h, s, l),
{
    let one = Fx { m: SCALE_M };
    let c = fx_mul(fx_sub(one, fx_abs(fx_sub(fx_add(l, l), one))), s);
    let sector: i64 = h.m.checked_div(SEXTANT_M).unwrap();
    let hp = fx_divi(h, 60);
    let hp2 = Fx { m: hp.m.checked_rem_euclid(2_000_000).unwrap() };
    let x = fx_mul(c, fx_sub(one, fx_abs(fx_sub(hp2, one))));
    let m = fx_sub(l, fx_divi(c, 2));
    let zero = Fx { m: 0 };
    let (r1, g1, b1) = if sector == 0 {
        (c, x, zero)
    } else if sector == 1 {
        (x, c, zero)
    } else if sector == 2 {
        (zero, c, x)
    } else if sector == 3 {
        (zero, x, c)
    } else if sector == 4 {
        (x, zero, c)
    } else {
        (c, zero, x)
    };
    (fx_to_byte(fx_add(r1, m)), fx_to_byte(fx_add(g1, m)), fx_to_byte(fx_add(b1, m)))
}

impl SimpleColorizer {
    /// The hue angle of an escape count, in mantissa degrees within a turn.
    pub open spec fn hue_m(&self, k: u32) -> int {
        (self.step.m * k + self.phase.m) % (FULL_TURN_M as int)
    }

    /// The RGBA quad assigned to an escape count.
    pub open spec fn rgba_spec(&self, k: u32) -> Seq<u8> {
        let (r, g, b) = hsl_rgb_spec(Fx { m: self.hue_m(k) as i64 }, self.saturation,
            self.lightness);
        seq![r, g, b, byte_of(self.alpha)]
    }
}

impl Colorizer for SimpleColorizer {
    open spec fn color_spec(&self, k: u32) -> Seq<u8> {
        self.rgba_spec(k)
    }

    /// The configuration invariant: nonnegative hue parameters, and
    /// saturation, lightness and alpha within `[0, 1]`.
    open spec fn wf(&self) -> bool {
        0 <= self.step.m && 0 <= self.phase.m && 0 <= self.saturation.m <= SCALE_M && 0
            <= self.lightness.m <= SCALE_M && 0 <= self.alpha.m <= SCALE_M
    }

    fn calc_color(&self, k: u32) -> (r: Vec<u8>) {
        proof {
            lemma_hue_product_fits(self.step.m as int, k as int);
        }
        let num: i128 = self.step.m as i128 * k as i128 + self.phase.m as i128;
        let hm: i64 = num.checked_rem_euclid(FULL_TURN_M as i128).unwrap() as i64;
        let (cr, cg, cb) = hsl_rgb(Fx { m: hm }, self.saturation, self.lightness);
        let ca = fx_to_byte(self.alpha);
        let out = vec![cr, cg, cb, ca];
        proof {
            assert(out@ =~= self.rgba_spec(k));
        }
        out
    }
}

/// The hue numerator of a nonnegative step and a count stays far inside the
/// wide integer range.
proof fn lemma_hue_product_fits(a: int, b: int)
    by (nonlinear_arith)
    requires
        0 <= a <= MAX_M as int,
        0 <= b <= u32::MAX as int,
    ensures
        0 <= a * b <= (MAX_M as int) * (u32::MAX as int),
{
}

/// The documented default configuration.
impl Default for SimpleColorizer {
    fn default() -> (r: SimpleColorizer)
        ensures
            r.step == (Fx { m: 5_000_000 }),
            r.phase == (Fx { m: 0 }),
            r.saturation == (Fx { m: 700_000 }),
            r.lightness == (Fx { m: 600_000 }),
            r.alpha == (Fx { m: 900_000 }),
            r.wf(),
    {
        SimpleColorizer {
            step: Fx { m: 5_000_000 },
            phase: Fx { m: 0 },
            saturation: Fx { m: 700_000 },
            lightness: Fx { m: 600_000 },
            alpha: Fx { m: 900_000 },
        }
    }
}

/// The hue rotation is periodic: a step that divides the full turn into `p`
/// parts gives every count `k` the same color as `k + p`.
pub proof fn lemma_color_periodic(c: SimpleColorizer, k: u32, p: u32)
    requires
        c.wf(),
        c.step.m * p == FULL_TURN_M as int,
        k + p <= u32::MAX,
    ensures
        c.rgba_spec((k + p) as u32) == c.rgba_spec(k),
{
    let kp: u32 = (k + p) as u32;
    assert(c.step.m * kp == c.step.m * k + c.step.m * p) by (nonlinear_arith)
        requires
            kp == k + p,
    ;
    vstd::arithmetic::div_mod::lemma_mod_add_multiples_vanish(
        c.step.m * k + c.phase.m,
        FULL_TURN_M as int,
    );
    assert(c.hue_m(kp) == c.hue_m(k));
}

} // verus!
