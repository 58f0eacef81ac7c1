//! The viewport/parameter model.
//!
//! [`FParams`] owns every tunable rendering parameter together with the two
//! derived fields: `z0`, the top-left sample point, and `delta`, the
//! per-pixel step. The derivation invariant [`derived_ok`] says both always
//! agree with the current center, ranges, zoom and dimensions; every mutator
//! recomputes them before returning.

use vstd::prelude::*;
use vstd::string::StrSliceExecFns;

use crate::complex::Complex;
use crate::fixed::{
    div_spec, divi_spec, from_int_spec, fx_add, fx_div, fx_divi, fx_from_int, fx_sub, add_spec,
    lemma_mul_ge_one_factor, lemma_mul_le_one_factor, mul_spec, sub_spec, Fx, MAX_M, SCALE_M,
};

verus! {

/// Every parameter of a render: the escape threshold (a squared magnitude),
/// the iteration budget, the pixel grid, the viewport, the iteration-function
/// constant and selector, the evaluation strategy, and the animation
/// settings. `z0` and `delta` are derived and never stale.
#[derive(Clone, Copy, PartialEq, Eq, Structural, Debug)]
pub struct FParams {
    pub bailout: Fx,
    pub max_iter: u32,
    pub width: u32,
    pub height: u32,
    pub range_x: Fx,
    pub range_y: Fx,
    pub zoom: Fx,
    pub center: Complex,
    pub parallel: bool,
    pub constant: Complex,
    pub z0: Complex,
    pub delta: Complex,
    pub kind_fn: usize,
    pub colorizer: usize,
    pub is_gif: bool,
    pub zoom_speed: Fx,
    pub gif_frames: u64,
}

/// The top-left sample point: the center displaced by half the zoom-scaled
/// extent, leftward in the real axis and upward in the imaginary axis.
pub open spec fn z0_formula(p: FParams) -> Complex {
    Complex {
        re: sub_spec(p.center.re, divi_spec(div_spec(p.range_x, p.zoom), 2)),
        im: add_spec(p.center.im, divi_spec(div_spec(p.range_y, p.zoom), 2)),
    }
}

/// The per-pixel step: the zoom-scaled extent split over the pixel grid.
pub open spec fn delta_formula(p: FParams) -> Complex {
    Complex {
        re: div_spec(div_spec(p.range_x, p.zoom), from_int_spec(p.width as int)),
        im: div_spec(div_spec(p.range_y, p.zoom), from_int_spec(p.height as int)),
    }
}

/// The derivation invariant: the stored `z0` and `delta` agree with the
/// current viewport parameters.
pub open spec fn derived_ok(p: FParams) -> bool {
    p.z0 == z0_formula(p) && p.delta == delta_formula(p)
}

/// What setting the zoom does: replace it and rederive both derived fields.
pub open spec fn set_zoom_model(p: FParams, z: Fx) -> FParams {
    FParams {
        zoom: z,
        z0: z0_formula(FParams { zoom: z, ..p }),
        delta: delta_formula(FParams { zoom: z, ..p }),
        ..p
    }
}

/// The parameters after `n` animation steps, each multiplying the zoom by
/// the per-frame factor and rederiving the geometry.
pub open spec fn zoom_stepped(p: FParams, n: nat) -> FParams
    decreases n,
{
    if n == 0 {
        p
    } else {
        let q = zoom_stepped(p, (n - 1) as nat);
        set_zoom_model(q, mul_spec(q.zoom, q.zoom_speed))
    }
}

/// With a per-frame factor of at least one and a nonnegative starting zoom,
/// the animation's zoom sequence never decreases: the drive zooms in.
pub proof fn lemma_zoom_sequence_monotone_in(p: FParams, n: nat)
    requires
        p.zoom.m >= 0,
        p.zoom_speed.m >= SCALE_M,
    ensures
        zoom_stepped(p, n).zoom.m >= 0,
        zoom_stepped(p, n).zoom_speed == p.zoom_speed,
        zoom_stepped(p, n + 1).zoom.m >= zoom_stepped(p, n).zoom.m,
    decreases n,
{
    if n == 0 {
        lemma_mul_ge_one_factor(p.zoom, p.zoom_speed);
    } else {
        lemma_zoom_sequence_monotone_in(p, (n - 1) as nat);
        lemma_mul_ge_one_factor(zoom_stepped(p, n).zoom, p.zoom_speed);
    }
}

/// With a per-frame factor of at most one and a nonnegative starting zoom,
/// the animation's zoom sequence never increases: the drive zooms out.
pub proof fn lemma_zoom_sequence_monotone_out(p: FParams, n: nat)
    requires
        p.zoom.m >= 0,
        0 <= p.zoom_speed.m <= SCALE_M,
    ensures
        zoom_stepped(p, n).zoom.m >= 0,
        zoom_stepped(p, n).zoom_speed == p.zoom_speed,
        zoom_stepped(p, n + 1).zoom.m <= zoom_stepped(p, n).zoom.m,
    decreases n,
{
    if n == 0 {
        lemma_mul_le_one_factor(p.zoom, p.zoom_speed);
    } else {
        lemma_zoom_sequence_monotone_out(p, (n - 1) as nat);
        lemma_mul_le_one_factor(zoom_stepped(p, n).zoom, p.zoom_speed);
    }
}

impl FParams {
    /// Recompute the top-left sample point from the current parameters.
    pub fn calc_z0(&mut self)
        ensures
            *final(self) == (FParams { z0: z0_formula(*old(self)), ..*old(self) }),
    {
        let scaled_range_x = fx_div(self.range_x, self.zoom);
        let scaled_range_y = fx_div(self.range_y, self.zoom);
        self.z0 = Complex {
            re: fx_sub(self.center.re, fx_divi(scaled_range_x, 2)),
            im: fx_add(self.center.im, fx_divi(scaled_range_y, 2)),
        };
    }

    /// Recompute the per-pixel step from the current parameters.
    pub fn calc_delta(&mut self)
        ensures
            *final(self) == (FParams { delta: delta_formula(*old(self)), ..*old(self) }),
    {
        let scaled_range_x = fx_div(self.range_x, self.zoom);
        let scaled_range_y = fx_div(self.range_y, self.zoom);
        self.delta = Complex {
            re: fx_div(scaled_range_x, fx_from_int(self.width as i64)),
            im: fx_div(scaled_range_y, fx_from_int(self.height as i64)),
        };
    }

    /// Set the zoom and atomically recompute both derived fields, so that the
    /// derivation invariant holds again on return.
    pub fn set_zoom(&mut self, zoom: Fx)
        ensures
            *final(self) == set_zoom_model(*old(self), zoom),
            derived_ok(*final(self)),
    {
        self.zoom = zoom;
        self.calc_z0();
        self.calc_delta();
        proof {
            assert(derived_ok(*self));
        }
    }
}

/// The documented defaults: a 1000 by 1000 grid over a `3 x 3` extent
/// centered at the origin, bailout `2`, 500 iterations, the quadratic map,
/// sequential evaluation, and a `1.1` per-frame zoom factor over 400 frames.
impl Default for FParams {
    fn default() -> (r: FParams)
        ensures
            r.bailout == (Fx { m: 2_000_000 }),
            r.max_iter == 500,
            r.width == 1000,
            r.height == 1000,
            r.range_x == (Fx { m: 3_000_000 }),
            r.range_y == (Fx { m: 3_000_000 }),
            r.zoom == (Fx { m: 1_000_000 }),
            r.center == (Complex { re: Fx { m: 0 }, im: Fx { m: 0 } }),
            r.constant == (Complex { re: Fx { m: 0 }, im: Fx { m: 0 } }),
            r.parallel == false,
            r.kind_fn == 0,
            r.colorizer == 0,
            r.is_gif == false,
            r.zoom_speed == (Fx { m: 1_100_000 }),
            r.gif_frames == 400,
            derived_ok(r),
    {
        let mut params = FParams {
            bailout: Fx { m: 2_000_000 },
            max_iter: 500,
            width: 1000,
            height: 1000,
            range_x: Fx { m: 3_000_000 },
            range_y: Fx { m: 3_000_000 },
            zoom: Fx { m: 1_000_000 },
            center: Complex { re: Fx { m: 0 }, im: Fx { m: 0 } },
            constant: Complex { re: Fx { m: 0 }, im: Fx { m: 0 } },
            z0: Complex { re: Fx { m: 0 }, im: Fx { m: 0 } },
            delta: Complex { re: Fx { m: 0 }, im: Fx { m: 0 } },
            colorizer: 0,
            parallel: false,
            kind_fn: 0,
            is_gif: false,
            zoom_speed: Fx { m: 1_100_000 },
            gif_frames: 400,
        };
        params.calc_z0();
        params.calc_delta();
        params
    }
}

/// Decimal digit classification and value, over character codes.
pub open spec fn is_digit(c: char) -> bool {
    48 <= c as int <= 57
}

pub open spec fn digit_val(c: char) -> int {
    c as int - 48
}

pub open spec fn all_digits(s: Seq<char>) -> bool {
    forall|i: int| 0 <= i < s.len() ==> is_digit(#[trigger] s[i])
}

/// The value of a digit string read most-significant first.
pub open spec fn dec_val(s: Seq<char>) -> int
    decreases s.len(),
{
    if s.len() == 0 {
        0
    } else {
        dec_val(s.drop_last()) * 10 + digit_val(s.last())
    }
}

/// The digits of an unsigned numeral, after the optional leading plus sign
/// that Rust's unsigned integer parsing accepts.
pub open spec fn u64_body(s: Seq<char>) -> Seq<char> {
    if s.len() > 0 && s[0] == '+' {
        s.subrange(1, s.len() as int)
    } else {
        s
    }
}

/// A numeral accepted as a `u64`, as Rust's `u64::from_str` accepts it: an
/// optional leading plus, then digits, nonempty and in range.
pub open spec fn valid_u64(s: Seq<char>) -> bool {
    u64_body(s).len() > 0 && all_digits(u64_body(s)) && dec_val(u64_body(s)) <= u64::MAX
}

proof fn lemma_dec_val_nonneg(s: Seq<char>)
    requires
        all_digits(s),
    ensures
        dec_val(s) >= 0,
    decreases s.len(),
{
    if s.len() > 0 {
        assert(all_digits(s.drop_last()));
        lemma_dec_val_nonneg(s.drop_last());
    }
}

/// Reading one more digit multiplies the prefix value by ten and adds it.
proof fn lemma_dec_val_step(s: Seq<char>, j: int)
    requires
        0 <= j < s.len(),
    ensures
        dec_val(s.take(j + 1)) == dec_val(s.take(j)) * 10 + digit_val(s[j]),
{
    assert(s.take(j + 1).drop_last() =~= s.take(j));
    assert(s.take(j + 1).last() == s[j]);
}

/// A digit-string prefix never exceeds the whole string's value.
proof fn lemma_dec_val_prefix_le(s: Seq<char>, j: int)
    requires
        all_digits(s),
        0 <= j <= s.len(),
    ensures
        dec_val(s.take(j)) <= dec_val(s),
    decreases s.len() - j,
{
    if j < s.len() {
        lemma_dec_val_step(s, j);
        assert(all_digits(s.take(j)));
        lemma_dec_val_nonneg(s.take(j));
        lemma_dec_val_prefix_le(s, j + 1);
    } else {
        assert(s.take(j) =~= s);
    }
}

/// Parse a block of decimal digits; no sign, no surrounding space. Returns
/// the value exactly when the block is nonempty, all digits, and in range.
fn parse_digits(s: &str) -> (r: Option<u64>)
    ensures
        r.is_some() <==> (s@.len() > 0 && all_digits(s@) && dec_val(s@) <= u64::MAX),
        r.is_some() ==> r.unwrap() as int == dec_val(s@),
{
    let n = s.unicode_len();
    if n == 0 {
        return None;
    }
    let mut acc: u64 = 0;
    let mut i: usize = 0;
    while i < n
        invariant
            0 <= i <= n,
            n == s@.len(),
            all_digits(s@.take(i as int)),
            acc as int == dec_val(s@.take(i as int)),
        decreases n - i,
    {
        let c = s.get_char(i);
        let d: u32 = c as u32;
        if d < 48 || d > 57 {
            return None;
        }
        proof {
            lemma_dec_val_step(s@, i as int);
        }
        let wide: u128 = acc as u128 * 10 + (d - 48) as u128;
        if wide > u64::MAX as u128 {
            proof {
                if all_digits(s@) {
                    lemma_dec_val_prefix_le(s@, i as int + 1);
                }
            }
            return None;
        }
        acc = wide as u64;
        i = i + 1;
        proof {
            assert(all_digits(s@.take(i as int)));
        }
    }
    proof {
        assert(s@.take(n as int) =~= s@);
    }
    Some(acc)
}

/// Parse a decimal `u64` numeral as Rust's `u64::from_str` reads it: an
/// optional leading plus, then digits, no surrounding space. Returns the
/// value exactly when the numeral is well formed and in range.
pub fn parse_u64(s: &str) -> (r: Option<u64>)
    ensures
        r.is_some() <==> valid_u64(s@),
        r.is_some() ==> r.unwrap() as int == dec_val(u64_body(s@)),
{
    let n = s.unicode_len();
    let mut i0: usize = 0;
    if n > 0 {
        if s.get_char(0) == '+' {
            i0 = 1;
        }
    }
    let body = s.substring_char(i0, n);
    proof {
        assert(body@ =~= u64_body(s@));
    }
    parse_digits(body)
}

/// The parse-or-default policy on an optional numeral.
pub open spec fn parse_u64_or(sv: Seq<char>, default: u64) -> u64 {
    if valid_u64(sv) {
        dec_val(u64_body(sv)) as u64
    } else {
        default
    }
}

/// Parse an optional decimal `u64` override, silently substituting the
/// documented default when the text is absent or not a numeral in range.
pub fn parse_with_default(opt: Option<&str>, default: u64) -> (r: u64)
    ensures
        r == (match opt {
            Option::Some(s) => parse_u64_or(s@, default),
            Option::None => default,
        }),
{
    match opt {
        None => default,
        Some(s) => match parse_u64(s) {
            Some(v) => v,
            None => default,
        },
    }
}

/// The parse-or-default policy for a `u32` field.
pub open spec fn parse_u32_or(sv: Seq<char>, default: u32) -> u32 {
    if valid_u64(sv) && dec_val(u64_body(sv)) <= u32::MAX {
        dec_val(u64_body(sv)) as u32
    } else {
        default
    }
}

pub fn parse_u32_with_default(opt: Option<&str>, default: u32) -> (r: u32)
    ensures
        r == (match opt {
            Option::Some(s) => parse_u32_or(s@, default),
            Option::None => default,
        }),
{
    match opt {
        None => default,
        Some(s) => match parse_u64(s) {
            Some(v) => if v <= u32::MAX as u64 {
                v as u32
            } else {
                default
            },
            None => default,
        },
    }
}

/// The parse-or-default policy for a `usize` field.
pub open spec fn parse_usize_or(sv: Seq<char>, default: usize) -> usize {
    if valid_u64(sv) && dec_val(u64_body(sv)) <= usize::MAX {
        dec_val(u64_body(sv)) as usize
    } else {
        default
    }
}

pub fn parse_usize_with_default(opt: Option<&str>, default: usize) -> (r: usize)
    ensures
        r == (match opt {
            Option::Some(s) => parse_usize_or(s@, default),
            Option::None => default,
        }),
{
    match opt {
        None => default,
        Some(s) => match parse_u64(s) {
            Some(v) => if v <= usize::MAX as u64 {
                v as usize
            } else {
                default
            },
            None => default,
        },
    }
}


/// Powers of ten, for scaling fraction digits.
pub open spec fn pow10(k: int) -> int
    decreases k,
{
    if k <= 0 {
        1
    } else {
        10 * pow10(k - 1)
    }
}

proof fn lemma_pow10_vals()
    ensures
        pow10(0) == 1,
        pow10(1) == 10,
        pow10(2) == 100,
        pow10(3) == 1000,
        pow10(4) == 10_000,
        pow10(5) == 100_000,
        pow10(6) == 1_000_000,
{
    assert(pow10(0) == 1);
    assert(pow10(1) == 10);
    assert(pow10(2) == 100);
    assert(pow10(3) == 1000);
    assert(pow10(4) == 10_000);
    assert(pow10(5) == 100_000);
    assert(pow10(6) == 1_000_000);
}

proof fn lemma_pow10_pos(k: int)
    ensures
        pow10(k) >= 1,
    decreases (if k > 0 {
        k
    } else {
        0
    }),
{
    if k > 0 {
        lemma_pow10_pos(k - 1);
    }
}

proof fn lemma_pow10_add(a: int, b: int)
    requires
        a >= 0,
        b >= 0,
    ensures
        pow10(a + b) == pow10(a) * pow10(b),
    decreases a,
{
    if a > 0 {
        lemma_pow10_add(a - 1, b);
        assert(10 * (pow10(a - 1) * pow10(b)) == (10 * pow10(a - 1)) * pow10(b))
            by (nonlinear_arith);
    }
}

/// Digit strings are bounded by the power of ten of their length.
proof fn lemma_dec_val_small(f: Seq<char>)
    requires
        all_digits(f),
    ensures
        0 <= dec_val(f) < pow10(f.len() as int),
    decreases f.len(),
{
    if f.len() > 0 {
        assert(all_digits(f.drop_last()));
        lemma_dec_val_small(f.drop_last());
    }
}

/// A fraction block of at most six digits, scaled out to the sixth decimal
/// place, stays below one million.
proof fn lemma_frac_block(f: Seq<char>)
    requires
        all_digits(f),
        f.len() <= 6,
    ensures
        0 <= dec_val(f) * pow10(6 - f.len()) < 1_000_000,
        0 <= dec_val(f) < 1_000_000,
{
    lemma_dec_val_small(f);
    lemma_pow10_pos(6 - f.len());
    lemma_pow10_add(f.len() as int, 6 - f.len());
    lemma_pow10_vals();
    lemma_pow10_pos(f.len() as int);
    assert(dec_val(f) * pow10(6 - f.len()) < pow10(f.len() as int) * pow10(6 - f.len()))
        by (nonlinear_arith)
        requires
            dec_val(f) < pow10(f.len() as int),
            pow10(6 - f.len()) >= 1,
    ;
    assert(dec_val(f) * pow10(6 - f.len()) >= 0) by (nonlinear_arith)
        requires
            dec_val(f) >= 0,
            pow10(6 - f.len()) >= 1,
    ;
    assert(dec_val(f) < pow10(f.len() as int) * pow10(6 - f.len())) by (nonlinear_arith)
        requires
            dec_val(f) < pow10(f.len() as int),
            pow10(6 - f.len()) >= 1,
            dec_val(f) >= 0,
    ;
}

/// The index of the first `.` in a string, or its length if there is none.
pub open spec fn dot_index(s: Seq<char>) -> int
    decreases s.len(),
{
    if s.len() == 0 {
        0
    } else if s[0] == '.' {
        0
    } else {
        1 + dot_index(s.subrange(1, s.len() as int))
    }
}

proof fn lemma_dot_index_at(s: Seq<char>, i: int)
    requires
        0 <= i <= s.len(),
        forall|k: int| 0 <= k < i ==> s[k] != '.',
        i < s.len() ==> s[i] == '.',
    ensures
        dot_index(s) == i,
    decreases s.len(),
{
    if s.len() > 0 && i > 0 {
        let t = s.subrange(1, s.len() as int);
        assert forall|k: int| 0 <= k < i - 1 implies t[k] != '.' by {
            assert(t[k] == s[k + 1]);
        }
        assert(i - 1 < t.len() ==> t[i - 1] == s[i]);
        lemma_dot_index_at(t, i - 1);
    }
}

/// The digits of a signed decimal numeral, after any single leading sign.
pub open spec fn fx_body(s: Seq<char>) -> Seq<char> {
    if s.len() > 0 && (s[0] == '-' || s[0] == '+') {
        s.subrange(1, s.len() as int)
    } else {
        s
    }
}

pub open spec fn fx_negative(s: Seq<char>) -> bool {
    s.len() > 0 && s[0] == '-'
}

pub open spec fn int_part(b: Seq<char>) -> Seq<char> {
    b.take(dot_index(b))
}

pub open spec fn frac_part(b: Seq<char>) -> Seq<char> {
    if dot_index(b) < b.len() {
        b.subrange(dot_index(b) + 1, b.len() as int)
    } else {
        Seq::empty()
    }
}

/// The fraction digits contribute through the sixth decimal place; further
/// digits are read (and must be digits) but truncated away.
pub open spec fn frac_scaled(f: Seq<char>) -> int {
    if f.len() >= 6 {
        dec_val(f.take(6))
    } else {
        dec_val(f) * pow10(6 - f.len())
    }
}

/// The magnitude of the numeral, in mantissa units.
pub open spec fn fx_magnitude(b: Seq<char>) -> int {
    dec_val(int_part(b)) * 1_000_000 + frac_scaled(frac_part(b))
}

/// A numeral accepted as a fixed-point scalar: an optional sign, then
/// digits around at most one dot — at least one digit in all, on either side
/// of the dot — and a magnitude in range.
pub open spec fn valid_fx(s: Seq<char>) -> bool {
    let b = fx_body(s);
    all_digits(int_part(b)) && (dot_index(b) < b.len() ==> all_digits(frac_part(b))) && (int_part(
        b,
    ).len() > 0 || (dot_index(b) < b.len() && frac_part(b).len() > 0)) && fx_magnitude(b)
        <= MAX_M
}

/// The parsed value: the magnitude, negated under a leading minus.
pub open spec fn fx_parse_val(s: Seq<char>) -> int {
    if fx_negative(s) {
        -fx_magnitude(fx_body(s))
    } else {
        fx_magnitude(fx_body(s))
    }
}

proof fn lemma_frac_scaled_nonneg(f: Seq<char>)
    requires
        all_digits(f),
    ensures
        frac_scaled(f) >= 0,
{
    if f.len() >= 6 {
        assert(all_digits(f.take(6)));
        lemma_dec_val_small(f.take(6));
    } else {
        lemma_frac_block(f);
    }
}

/// Ten to a small power, executable.
fn pow10_exec(k: u64) -> (r: u64)
    requires
        k <= 6,
    ensures
        r as int == pow10(k as int),
{
    proof {
        lemma_pow10_vals();
    }
    if k == 0 {
        1
    } else if k == 1 {
        10
    } else if k == 2 {
        100
    } else if k == 3 {
        1000
    } else if k == 4 {
        10_000
    } else if k == 5 {
        100_000
    } else {
        1_000_000
    }
}

/// Parse a signed decimal fixed-point numeral such as `-1.25`, `5.` or
/// `.5`. Returns the exact mantissa whenever the numeral is well formed and
/// in range; fraction digits beyond the sixth are truncated away. The
/// grammar is deliberately plain decimal: exponent notation (`1e5`) and the
/// non-finite spellings of binary floating point name no fixed-point value
/// here, so such overrides fall back to the caller's default.
#[verifier::rlimit(100)]
pub fn parse_fx(s: &str) -> (r: Option<Fx>)
    ensures
        r.is_some() <==> valid_fx(s@),
        r.is_some() ==> r.unwrap() == (Fx { m: fx_parse_val(s@) as i64 }),
{
    let n = s.unicode_len();
    let mut i0: usize = 0;
    let mut neg = false;
    if n > 0 {
        let c0 = s.get_char(0);
        if c0 == '-' {
            neg = true;
            i0 = 1;
        } else if c0 == '+' {
            i0 = 1;
        }
    }
    let ghost b = fx_body(s@);
    proof {
        assert(b =~= s@.subrange(i0 as int, n as int));
    }
    // locate the first dot, if any
    let mut dp: usize = n;
    let mut j: usize = i0;
    while j < n
        invariant
            i0 <= j <= n,
            n == s@.len(),
            i0 <= dp <= n,
            dp == n || (dp < j && s@[dp as int] == '.'),
            forall|k: int| i0 <= k < j && k < dp ==> s@[k] != '.',
        decreases n - j,
    {
        let c = s.get_char(j);
        if c == '.' && dp == n {
            dp = j;
        }
        j = j + 1;
    }
    proof {
        assert forall|k: int| 0 <= k < dp - i0 implies b[k] != '.' by {
            assert(b[k] == s@[i0 + k]);
        }
        if dp < n {
            assert(b[dp - i0] == s@[dp as int]);
        }
        lemma_dot_index_at(b, dp - i0);
        assert(int_part(b) =~= s@.subrange(i0 as int, dp as int));
    }
    let int_str = s.substring_char(i0, dp);
    let iv: u64 = if dp > i0 {
        match parse_digits(int_str) {
            Some(v) => v,
            None => {
                proof {
                    if valid_fx(s@) {
                        lemma_frac_scaled_nonneg(frac_part(b));
                        lemma_dec_val_nonneg(int_part(b));
                    }
                }
                return None;
            },
        }
    } else {
        // the integer part is empty: digits must follow a dot instead
        if dp == n {
            proof {
                assert(int_part(b).len() == 0);
            }
            return None;
        }
        0
    };
    let fscaled: u64 = if dp < n {
        proof {
            assert(frac_part(b) =~= s@.subrange(dp as int + 1, n as int));
        }
        let fl = n - dp - 1;
        if fl == 0 {
            // a trailing dot: fine after digits, no numeral on its own
            if dp == i0 {
                proof {
                    assert(int_part(b).len() == 0);
                    assert(frac_part(b).len() == 0);
                }
                return None;
            }
            proof {
                lemma_pow10_vals();
                assert(frac_part(b) =~= Seq::<char>::empty());
                assert(frac_scaled(frac_part(b)) == 0);
            }
            0
        } else if fl <= 6 {
            let fstr = s.substring_char(dp + 1, n);
            match parse_digits(fstr) {
                Some(fv) => {
                    proof {
                        lemma_frac_block(fstr@);
                        if fstr@.len() == 6 {
                            assert(fstr@.take(6) =~= fstr@);
                        }
                        lemma_pow10_vals();
                    }
                    let fs = fv * pow10_exec((6 - fl) as u64);
                    proof {
                        assert(fs as int == frac_scaled(frac_part(b)));
                    }
                    fs
                },
                None => {
                    proof {
                        if all_digits(fstr@) {
                            lemma_frac_block(fstr@);
                        }
                    }
                    return None;
                },
            }
        } else {
            let f6 = s.substring_char(dp + 1, dp + 7);
            proof {
                assert(f6@ =~= frac_part(b).take(6));
            }
            let fv = match parse_digits(f6) {
                Some(v) => v,
                None => {
                    proof {
                        if all_digits(f6@) {
                            lemma_dec_val_small(f6@);
                            lemma_pow10_vals();
                        }
                        if valid_fx(s@) {
                            assert(all_digits(frac_part(b)));
                            assert forall|t: int| 0 <= t < 6 implies is_digit(
                                #[trigger] f6@[t],
                            ) by {
                                assert(f6@[t] == frac_part(b)[t]);
                            }
                        }
                    }
                    return None;
                },
            };
            // the remaining fraction digits are truncated but must be digits
            let mut k: usize = dp + 7;
            while k < n
                invariant
                    dp + 7 <= k <= n,
                    n == s@.len(),
                    b == fx_body(s@),
                    dp < n,
                    valid_fx(s@) ==> all_digits(frac_part(b)),
                    frac_part(b) == s@.subrange(dp as int + 1, n as int),
                    forall|t: int| dp + 7 <= t < k ==> is_digit(#[trigger] s@[t]),
                decreases n - k,
            {
                let c = s.get_char(k);
                let d: u32 = c as u32;
                if d < 48 || d > 57 {
                    proof {
                        assert(frac_part(b)[k - (dp as int + 1)] == s@[k as int]);
                        assert(!is_digit(s@[k as int]));
                    }
                    return None;
                }
                k = k + 1;
            }
            proof {
                assert forall|t: int| 0 <= t < frac_part(b).len() implies is_digit(
                    #[trigger] frac_part(b)[t],
                ) by {
                    assert(frac_part(b)[t] == s@[dp + 1 + t]);
                    if t < 6 {
                        assert(frac_part(b)[t] == f6@[t]);
                    }
                }
                assert(fv as int == frac_scaled(frac_part(b)));
            }
            fv
        }
    } else {
        proof {
            lemma_pow10_vals();
            assert(frac_part(b) =~= Seq::<char>::empty());
            assert(frac_scaled(frac_part(b)) == 0);
        }
        0
    };
    proof {
        if dp == i0 {
            assert(int_part(b).len() == 0);
            assert(dec_val(int_part(b)) == 0);
        }
        lemma_dec_val_nonneg(int_part(b));
        lemma_frac_scaled_nonneg(frac_part(b));
        assert(fscaled as int == frac_scaled(frac_part(b)));
        assert(iv as int == dec_val(int_part(b)));
    }
    let mag: u128 = iv as u128 * 1_000_000 + fscaled as u128;
    if mag > MAX_M as u128 {
        return None;
    }
    let m: i64 = mag as i64;
    if neg {
        Some(Fx { m: -m })
    } else {
        Some(Fx { m: m })
    }
}

/// The parse-or-default policy for a fixed-point field.
pub open spec fn parse_fx_or(sv: Seq<char>, default: Fx) -> Fx {
    if valid_fx(sv) {
        Fx { m: fx_parse_val(sv) as i64 }
    } else {
        default
    }
}

pub fn parse_fx_with_default(opt: Option<&str>, default: Fx) -> (r: Fx)
    ensures
        r == (match opt {
            Option::Some(s) => parse_fx_or(s@, default),
            Option::None => default,
        }),
{
    match opt {
        None => default,
        Some(s) => match parse_fx(s) {
            Some(v) => v,
            None => default,
        },
    }
}

impl FParams {
    /// The multi-line settings sheet: measures, iteration parameters and the
    /// selected function, each key padded into a fixed-width column.
    pub open spec fn settings_text_spec(&self) -> Seq<char> {
        let func = (if crate::funcs::kind_of_id_spec(self.kind_fn).is_some() {
            crate::funcs::kind_label_spec(crate::funcs::kind_of_id_spec(self.kind_fn).unwrap())
        } else {
            "default"@
        });
        "Measures\n=======\nwidth           "@ + crate::display::dec_str(self.width as nat)
            + "\nheight          "@ + crate::display::dec_str(self.height as nat)
            + "\nrange           "@ + crate::display::fx_str_spec(self.range_x) + ", "@
            + crate::display::fx_str_spec(self.range_y) + "\nzoom            "@
            + crate::display::fx_str_spec(self.zoom) + "\ncenter          "@
            + crate::display::complex_str_spec(self.center) + "\nz0 (calc)       "@
            + crate::display::complex_str_spec(self.z0) + "\n\nIteration params\n"@
            + "================\nmax iter        "@ + crate::display::dec_str(
            self.max_iter as nat,
        ) + "\ndelta (calc)    "@ + crate::display::fx_str_spec(self.delta.re) + ", "@
            + crate::display::fx_str_spec(self.delta.im) + "\nparallel        "@ + (if self
            .parallel {
            "true"@
        } else {
            "false"@
        }) + "\nis gif          "@ + (if self.is_gif {
            "true"@
        } else {
            "false"@
        }) + "\nzoom speed      "@ + crate::display::fx_str_spec(self.zoom_speed)
            + "\ngif frames      "@ + crate::display::dec_str(self.gif_frames as nat)
            + "\n\nFunction\n========\nkind fn         "@ + func + "\nconstant        "@
            + crate::display::complex_str_spec(self.constant) + "\nbailout         "@
            + crate::display::fx_str_spec(self.bailout) + "\n"@
    }

    /// Render the settings sheet.
    #[verifier::rlimit(60)]
    pub fn settings_text(&self) -> (s: String)
        requires
            self.center.im.m > i64::MIN,
            self.z0.im.m > i64::MIN,
            self.constant.im.m > i64::MIN,
        ensures
            s@ == self.settings_text_spec(),
    {
        let mut s = String::from_str("Measures\n=======\nwidth           ");
        s.append(crate::display::u64_str(self.width as u64).as_str());
        s.append("\nheight          ");
        s.append(crate::display::u64_str(self.height as u64).as_str());
        s.append("\nrange           ");
        s.append(crate::display::fx_str(self.range_x).as_str());
        s.append(", ");
        s.append(crate::display::fx_str(self.range_y).as_str());
        s.append("\nzoom            ");
        s.append(crate::display::fx_str(self.zoom).as_str());
        s.append("\ncenter          ");
        s.append(crate::display::complex_str(self.center).as_str());
        s.append("\nz0 (calc)       ");
        s.append(crate::display::complex_str(self.z0).as_str());
        s.append("\n\nIteration params\n");
        s.append("================\nmax iter        ");
        s.append(crate::display::u64_str(self.max_iter as u64).as_str());
        s.append("\ndelta (calc)    ");
        s.append(crate::display::fx_str(self.delta.re).as_str());
        s.append(", ");
        s.append(crate::display::fx_str(self.delta.im).as_str());
        s.append("\nparallel        ");
        s.append(crate::display::bool_str(self.parallel).as_str());
        s.append("\nis gif          ");
        s.append(crate::display::bool_str(self.is_gif).as_str());
        s.append("\nzoom speed      ");
        s.append(crate::display::fx_str(self.zoom_speed).as_str());
        s.append("\ngif frames      ");
        s.append(crate::display::u64_str(self.gif_frames).as_str());
        s.append("\n\nFunction\n========\nkind fn         ");
        match crate::funcs::kind_of_id(self.kind_fn) {
            Some(kind) => s.append(crate::funcs::kind_label(kind).as_str()),
            None => s.append("default"),
        }
        s.append("\nconstant        ");
        s.append(crate::display::complex_str(self.constant).as_str());
        s.append("\nbailout         ");
        s.append(crate::display::fx_str(self.bailout).as_str());
        s.append("\n");
        proof {
            assert(s@ =~= self.settings_text_spec());
        }
        s
    }
}

/// The textual parameter overrides handed in by a command-line layer. An
/// absent or malformed entry falls back to the documented default.
pub struct Overrides<'a> {
    pub max_iter: Option<&'a str>,
    pub width: Option<&'a str>,
    pub height: Option<&'a str>,
    pub range_x: Option<&'a str>,
    pub range_y: Option<&'a str>,
    pub zoom: Option<&'a str>,
    pub center_x: Option<&'a str>,
    pub center_y: Option<&'a str>,
    pub constant_x: Option<&'a str>,
    pub constant_y: Option<&'a str>,
    pub kind_fn: Option<&'a str>,
    pub zoom_speed: Option<&'a str>,
    pub gif_frames: Option<&'a str>,
    pub parallel: bool,
    pub is_gif: bool,
}

/// The parse-or-default policy lifted to optional text.
pub open spec fn over_fx(o: Option<&str>, d: Fx) -> Fx {
    match o {
        Option::Some(s) => parse_fx_or(s@, d),
        Option::None => d,
    }
}

pub open spec fn over_u32(o: Option<&str>, d: u32) -> u32 {
    match o {
        Option::Some(s) => parse_u32_or(s@, d),
        Option::None => d,
    }
}

pub open spec fn over_u64(o: Option<&str>, d: u64) -> u64 {
    match o {
        Option::Some(s) => parse_u64_or(s@, d),
        Option::None => d,
    }
}

pub open spec fn over_usize(o: Option<&str>, d: usize) -> usize {
    match o {
        Option::Some(s) => parse_usize_or(s@, d),
        Option::None => d,
    }
}

impl FParams {
    /// Build the parameters from the defaults overlaid with the textual
    /// overrides, each field independently, then derive `z0` and `delta`.
    pub fn from_overrides(o: &Overrides<'_>) -> (r: FParams)
        ensures
            r.bailout == (Fx { m: 2_000_000 }),
            r.max_iter == over_u32(o.max_iter, 500),
            r.width == over_u32(o.width, 1000),
            r.height == over_u32(o.height, 1000),
            r.range_x == over_fx(o.range_x, Fx { m: 3_000_000 }),
            r.range_y == over_fx(o.range_y, Fx { m: 3_000_000 }),
            r.zoom == over_fx(o.zoom, Fx { m: 1_000_000 }),
            r.center == (Complex {
                re: over_fx(o.center_x, Fx { m: 0 }),
                im: over_fx(o.center_y, Fx { m: 0 }),
            }),
            r.constant == (Complex {
                re: over_fx(o.constant_x, Fx { m: 0 }),
                im: over_fx(o.constant_y, Fx { m: 0 }),
            }),
            r.parallel == o.parallel,
            r.kind_fn == over_usize(o.kind_fn, 0),
            r.colorizer == 0,
            r.is_gif == o.is_gif,
            r.zoom_speed == over_fx(o.zoom_speed, Fx { m: 1_100_000 }),
            r.gif_frames == over_u64(o.gif_frames, 400),
            derived_ok(r),
    {
        let mut params = FParams::default();
        params.max_iter = parse_u32_with_default(o.max_iter, 500);
        params.width = parse_u32_with_default(o.width, 1000);
        params.height = parse_u32_with_default(o.height, 1000);
        params.range_x = parse_fx_with_default(o.range_x, Fx { m: 3_000_000 });
        params.range_y = parse_fx_with_default(o.range_y, Fx { m: 3_000_000 });
        params.zoom = parse_fx_with_default(o.zoom, Fx { m: 1_000_000 });
        params.center = Complex {
            re: parse_fx_with_default(o.center_x, Fx { m: 0 }),
            im: parse_fx_with_default(o.center_y, Fx { m: 0 }),
        };
        params.constant = Complex {
            re: parse_fx_with_default(o.constant_x, Fx { m: 0 }),
            im: parse_fx_with_default(o.constant_y, Fx { m: 0 }),
        };
        params.parallel = o.parallel;
        params.kind_fn = parse_usize_with_default(o.kind_fn, 0);
        params.is_gif = o.is_gif;
        params.zoom_speed = parse_fx_with_default(o.zoom_speed, Fx { m: 1_100_000 });
        params.gif_frames = parse_with_default(o.gif_frames, 400);
        params.calc_z0();
        params.calc_delta();
        params
    }
}

} // verus!
