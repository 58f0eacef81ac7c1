//! The render engine.
//!
//! [`FGenerator`] owns the parameters, the selected iteration function and a
//! colorizer, and renders the pixel grid: every pixel is mapped to a sample
//! point in the plane, iterated until escape or budget exhaustion, and
//! colored from its escape count. The parallel and sequential paths are both
//! pinned to the same specification of the output buffer, so they are
//! byte-identical by contract.

use vstd::prelude::*;

use rayon::iter::{IndexedParallelIterator, IntoParallelIterator, ParallelIterator};

use crate::colorizer::SimpleColorizer;
use crate::complex::{lemma_norm_sqr_nonneg, norm_sqr, norm_sqr_spec, Complex};
use crate::display::{bool_str, complex_str, complex_str_spec, dec_str, fx_str, fx_str_spec,
    u64_str};
use crate::fixed::{add_spec, from_int_spec, fx_add, fx_from_int, fx_mul, fx_sub, mul_spec,
    sub_spec, Fx};
use crate::fparams::{derived_ok, zoom_stepped, FParams};
use crate::funcs::{apply_fn, kind_of_id, kind_of_id_spec, step_spec, FnKind};

verus! {

/// A coloring strategy: a pure, thread-safe map from an escape count to an
/// RGBA byte quad, pinned to its own specification.
pub trait Colorizer: Sized {
    /// The quad this strategy assigns to an escape count.
    spec fn color_spec(&self, k: u32) -> Seq<u8>;

    /// The strategy's configuration invariant.
    spec fn wf(&self) -> bool;

    /// Compute the four bytes of the color assigned to `k`.
    fn calc_color(&self, k: u32) -> (r: Vec<u8>)
        requires
            self.wf(),
        ensures
            r@ == self.color_spec(k),
            r@.len() == 4,
    ;
}

/// A fatal configuration error: the only failure the engine can surface.
#[derive(Clone, Copy, PartialEq, Eq, Structural, Debug)]
pub enum FractalError {
    UnsupportedFunction,
}

impl FractalError {
    /// The human-readable description of the error.
    pub fn message(&self) -> (r: String)
        ensures
            r@ == "Function not supported"@,
    {
        String::from_str("Function not supported")
    }
}

/// The sample point of the pixel in column `col` and row `row`: the top-left
/// point displaced by the per-pixel step, rightward along the real axis and
/// downward (numerically decreasing) along the imaginary axis.
pub open spec fn point_spec(p: FParams, col: int, row: int) -> Complex {
    Complex {
        re: add_spec(p.z0.re, mul_spec(p.delta.re, from_int_spec(col))),
        im: sub_spec(p.z0.im, mul_spec(p.delta.im, from_int_spec(row))),
    }
}

/// The escape count of a point: how many iterations run before the squared
/// magnitude reaches the bailout threshold, the budget capping the count.
/// A point already at or past the threshold counts zero, which also covers a
/// nonpositive bailout, since a squared magnitude is never negative.
pub open spec fn escape_count(kind: FnKind, c: Complex, bailout: Fx, z: Complex, fuel: nat) -> nat
    decreases fuel,
{
    if norm_sqr_spec(z).m >= bailout.m || fuel == 0 {
        0
    } else {
        1 + escape_count(kind, c, bailout, step_spec(kind, z, c), (fuel - 1) as nat)
    }
}

/// The escape count never exceeds the budget.
pub proof fn lemma_escape_count_le_fuel(kind: FnKind, c: Complex, bailout: Fx, z: Complex,
    fuel: nat)
    ensures
        escape_count(kind, c, bailout, z, fuel) <= fuel,
    decreases fuel,
{
    if !(norm_sqr_spec(z).m >= bailout.m || fuel == 0) {
        lemma_escape_count_le_fuel(kind, c, bailout, step_spec(kind, z, c), (fuel - 1) as nat);
    }
}

/// Run the escape-time loop from `z`: iterate while the squared magnitude is
/// below the bailout and the budget remains.
pub fn escape_time(kind: FnKind, constant: Complex, bailout: Fx, z_start: Complex, max_iter: u32)
    -> (k: u32)
    ensures
        k as nat == escape_count(kind, constant, bailout, z_start, max_iter as nat),
{
    let mut z = z_start;
    let mut k: u32 = 0;
    while norm_sqr(z).m < bailout.m && k < max_iter
        invariant
            k <= max_iter,
            escape_count(kind, constant, bailout, z_start, max_iter as nat) == k
                + escape_count(kind, constant, bailout, z, (max_iter - k) as nat),
        decreases max_iter - k,
    {
        z = apply_fn(kind, z, constant);
        k = k + 1;
    }
    k
}

/// The render engine: parameters, the selected iteration function, and a
/// coloring strategy.
pub struct FGenerator<C: Colorizer> {
    pub params: FParams,
    pub kind: FnKind,
    pub colorizer: C,
}

impl<C: Colorizer> FGenerator<C> {
    /// What rendering relies on: a consistent viewport, a well-formed
    /// colorizer, and a pixel buffer that fits in the address space.
    pub open spec fn wf(&self) -> bool {
        derived_ok(self.params) && self.colorizer.wf() && (self.params.width as int)
            * (self.params.height as int) * 4 <= usize::MAX as int
    }

    /// Build an engine around an explicit coloring strategy; the function
    /// identifier must name a catalog member, anything else is a fatal
    /// configuration error.
    pub fn with_colorizer(params: FParams, colorizer: C) -> (r: Result<FGenerator<C>, FractalError>)
        ensures
            r.is_ok() <==> kind_of_id_spec(params.kind_fn).is_some(),
            r.is_ok() ==> r.unwrap() == (FGenerator {
                params,
                kind: kind_of_id_spec(params.kind_fn).unwrap(),
                colorizer,
            }),
            r.is_err() ==> r == Err::<FGenerator<C>, FractalError>(
                FractalError::UnsupportedFunction,
            ),
    {
        match kind_of_id(params.kind_fn) {
            Some(kind) => Ok(FGenerator { params, kind, colorizer }),
            None => Err(FractalError::UnsupportedFunction),
        }
    }

    /// The effective parameters of this engine.
    pub fn get_params(&self) -> (r: &FParams)
        ensures
            r == self.params,
    {
        &self.params
    }

    /// The column and row of a flat pixel index, row-major.
    pub open spec fn col_of(&self, idx: int) -> int {
        idx % (self.params.width as int)
    }

    pub open spec fn row_of(&self, idx: int) -> int {
        idx / (self.params.width as int)
    }

    /// Split a flat pixel index into its column and row.
    pub fn into_2d(&self, k: usize) -> (r: (usize, usize))
        requires
            self.params.width >= 1,
            k < (self.params.width as int) * (self.params.height as int),
        ensures
            r.0 as int == self.col_of(k as int),
            r.1 as int == self.row_of(k as int),
            r.0 < self.params.width,
            r.1 < self.params.height,
    {
        let w = self.params.width as usize;
        let i = k % w;
        let j = k / w;
        proof {
            vstd::arithmetic::div_mod::lemma_multiply_divide_lt(k as int, w as int,
                self.params.height as int);
        }
        (i, j)
    }

    /// The color of the pixel in column `col` and row `row`: the colorizer
    /// applied to the escape count of the pixel's sample point.
    pub open spec fn pixel_spec(&self, col: int, row: int) -> Seq<u8> {
        self.colorizer.color_spec(
            escape_count(self.kind, self.params.constant, self.params.bailout,
                point_spec(self.params, col, row), self.params.max_iter as nat) as u32,
        )
    }

    /// Compute one pixel: sample, iterate, color.
    pub fn escape_time_to_color(&self, i: usize, j: usize) -> (r: Vec<u8>)
        requires
            self.wf(),
            i <= u32::MAX,
            j <= u32::MAX,
        ensures
            r@ == self.pixel_spec(i as int, j as int),
            r@.len() == 4,
    {
        let z = Complex {
            re: fx_add(self.params.z0.re, fx_mul(self.params.delta.re, fx_from_int(i as i64))),
            im: fx_sub(self.params.z0.im, fx_mul(self.params.delta.im, fx_from_int(j as i64))),
        };
        proof {
            lemma_escape_count_le_fuel(self.kind, self.params.constant, self.params.bailout, z,
                self.params.max_iter as nat);
        }
        let k = escape_time(self.kind, self.params.constant, self.params.bailout, z,
            self.params.max_iter);
        self.colorizer.calc_color(k)
    }

    /// The whole output buffer: `4 * width * height` bytes, row-major, four
    /// bytes per pixel, each pixel colored by its escape count. The
    /// specification does not mention the `parallel` flag: both evaluation
    /// paths produce exactly this sequence.
    pub open spec fn render_spec(&self) -> Seq<u8> {
        Seq::new(((self.params.width as int) * (self.params.height as int) * 4) as nat,
            |n: int| self.pixel_spec(self.col_of(n / 4), self.row_of(n / 4))[n % 4])
    }

    /// Render every pixel in order, single-threaded.
    fn render_seq(&self) -> (buf: Vec<u8>)
        requires
            self.wf(),
        ensures
            buf@ == self.render_spec(),
    {
        let w = self.params.width as usize;
        let h = self.params.height as usize;
        let total: usize = w * h;
        let mut buf: Vec<u8> = Vec::new();
        let mut p: usize = 0;
        while p < total
            invariant
                p <= total,
                total == w * h,
                w == self.params.width as usize,
                h == self.params.height as usize,
                self.wf(),
                buf@.len() == 4 * p,
                forall|n: int| 0 <= n < 4 * p ==> buf@[n] == self.render_spec()[n],
            decreases total - p,
        {
            proof {
                lemma_grid_nonempty(self.params.width as int, self.params.height as int,
                    p as int);
            }
            let (i, j) = self.into_2d(p);
            let color = self.escape_time_to_color(i, j);
            let ghost old_buf = buf@;
            buf.push(color[0]);
            buf.push(color[1]);
            buf.push(color[2]);
            buf.push(color[3]);
            proof {
                assert forall|n: int| 0 <= n < 4 * (p + 1) implies buf@[n]
                    == self.render_spec()[n] by {
                    if n < 4 * p {
                        assert(buf@[n] == old_buf[n]);
                    } else {
                        let t = n - 4 * p;
                        assert(buf@[n] == color@[t]);
                        assert(n / 4 == p as int && n % 4 == t);
                        assert(self.render_spec()[n] == self.pixel_spec(self.col_of(p as int),
                            self.row_of(p as int))[t]);
                    }
                }
            }
            p = p + 1;
        }
        proof {
            assert(buf@ =~= self.render_spec());
        }
        buf
    }
}

/// A flat index below the pixel count means the grid has at least one column.
proof fn lemma_grid_nonempty(w: int, h: int, p: int)
    by (nonlinear_arith)
    requires
        0 <= w,
        0 <= h,
        0 <= p < w * h,
    ensures
        w >= 1,
{
}

/// Relies on rayon's `IndexedParallelIterator::collect_into_vec`: mapping an
/// index range in parallel and collecting yields the images of the indices
/// in index order. Each worker only calls the verified per-pixel functions
/// on its own index, so every element is what the sequential path would put
/// there.
#[verifier::external_body]
fn par_pixel_colors<C: Colorizer + Sync>(gen: &FGenerator<C>, total: usize) -> (r: Vec<Vec<u8>>)
    requires
        gen.wf(),
        total == (gen.params.width as int) * (gen.params.height as int),
    ensures
        r@.len() == total,
        forall|p: int| 0 <= p < total ==> r@[p]@ == gen.pixel_spec(gen.col_of(p), gen.row_of(p))
            && r@[p]@.len() == 4,
{
    let mut out: Vec<Vec<u8>> = Vec::new();
    (0..total)
        .into_par_iter()
        .map(|p| {
            let (i, j) = gen.into_2d(p);
            gen.escape_time_to_color(i, j)
        })
        .collect_into_vec(&mut out);
    out
}

impl<C: Colorizer + Sync> FGenerator<C> {
    /// Render every pixel over the worker pool, then lay the per-pixel quads
    /// out in index order.
    fn render_par(&self) -> (buf: Vec<u8>)
        requires
            self.wf(),
        ensures
            buf@ == self.render_spec(),
    {
        let w = self.params.width as usize;
        let h = self.params.height as usize;
        let total: usize = w * h;
        let colors = par_pixel_colors(self, total);
        let mut buf: Vec<u8> = Vec::new();
        let mut p: usize = 0;
        while p < total
            invariant
                p <= total,
                total == w * h,
                w == self.params.width as usize,
                h == self.params.height as usize,
                self.wf(),
                colors@.len() == total,
                forall|q: int| 0 <= q < total ==> (#[trigger] colors@[q])@ == self.pixel_spec(
                    self.col_of(q), self.row_of(q)) && colors@[q]@.len() == 4,
                buf@.len() == 4 * p,
                forall|n: int| 0 <= n < 4 * p ==> buf@[n] == self.render_spec()[n],
            decreases total - p,
        {
            let color = &colors[p];
            let ghost old_buf = buf@;
            buf.push(color[0]);
            buf.push(color[1]);
            buf.push(color[2]);
            buf.push(color[3]);
            proof {
                assert forall|n: int| 0 <= n < 4 * (p + 1) implies buf@[n]
                    == self.render_spec()[n] by {
                    if n < 4 * p {
                        assert(buf@[n] == old_buf[n]);
                    } else {
                        let t = n - 4 * p;
                        assert(buf@[n] == color@[t]);
                        assert(n / 4 == p as int && n % 4 == t);
                        assert(self.render_spec()[n] == self.pixel_spec(self.col_of(p as int),
                            self.row_of(p as int))[t]);
                    }
                }
            }
            p = p + 1;
        }
        proof {
            assert(buf@ =~= self.render_spec());
        }
        buf
    }

    /// Render the full pixel buffer. The parallel flag only picks the
    /// evaluation strategy: the contract — and therefore every byte of the
    /// result — is the same either way.
    pub fn render(&self) -> (buf: Vec<u8>)
        requires
            self.wf(),
        ensures
            buf@ == self.render_spec(),
            buf@.len() == (self.params.width as int) * (self.params.height as int) * 4,
    {
        if self.params.parallel {
            self.render_par()
        } else {
            self.render_seq()
        }
    }

    /// The animation driver: for each frame, multiply the zoom by the
    /// per-frame factor, rederive the geometry, render, and append the
    /// buffer. Produces exactly `gif_frames` buffers, all of the same
    /// dimensions, frame `i` rendered at the parameters after `i + 1` zoom
    /// steps; it never stops early.
    pub fn render_animation(&mut self) -> (frames: Vec<Vec<u8>>)
        requires
            old(self).wf(),
            old(self).params.gif_frames <= usize::MAX,
        ensures
            frames@.len() == old(self).params.gif_frames,
            forall|q: int| 0 <= q < frames@.len() ==> (#[trigger] frames@[q])@ == (FGenerator {
                params: zoom_stepped(old(self).params, (q + 1) as nat),
                ..*old(self)
            }).render_spec(),
            *final(self) == (FGenerator {
                params: zoom_stepped(old(self).params, old(self).params.gif_frames as nat),
                ..*old(self)
            }),
    {
        let total: u64 = self.params.gif_frames;
        let mut frames: Vec<Vec<u8>> = Vec::new();
        let mut i: u64 = 0;
        while i < total
            invariant
                i <= total,
                total == old(self).params.gif_frames,
                total <= usize::MAX,
                self.kind == old(self).kind,
                self.colorizer == old(self).colorizer,
                self.params == zoom_stepped(old(self).params, i as nat),
                self.wf(),
                frames@.len() == i,
                forall|q: int| 0 <= q < i ==> (#[trigger] frames@[q])@ == (FGenerator {
                    params: zoom_stepped(old(self).params, (q + 1) as nat),
                    ..*old(self)
                }).render_spec(),
            decreases total - i,
        {
            let new_zoom = fx_mul(self.params.zoom, self.params.zoom_speed);
            self.params.set_zoom(new_zoom);
            proof {
                assert(self.params == zoom_stepped(old(self).params, (i + 1) as nat));
            }
            let frame = self.render();
            frames.push(frame);
            i = i + 1;
        }
        frames
    }
}

impl<C: Colorizer> FGenerator<C> {
    /// The one-line settings display that a command-line layer prints before
    /// rendering.
    pub open spec fn settings_string_spec(&self) -> Seq<char> {
        "max_iter = "@ + dec_str(self.params.max_iter as nat) + " width = "@ + dec_str(
            self.params.width as nat,
        ) + " height = "@ + dec_str(self.params.height as nat) + " zoom = "@ + fx_str_spec(
            self.params.zoom,
        ) + " center = "@ + complex_str_spec(self.params.center) + " parallel = "@ + (if self
            .params
            .parallel {
            "true"@
        } else {
            "false"@
        }) + " constant = "@ + complex_str_spec(self.params.constant)
    }

    /// Render the effective settings as text.
    pub fn settings_to_string(&self) -> (s: String)
        requires
            self.params.center.im.m > i64::MIN,
            self.params.constant.im.m > i64::MIN,
        ensures
            s@ == self.settings_string_spec(),
    {
        let mut s = String::from_str("max_iter = ");
        s.append(u64_str(self.params.max_iter as u64).as_str());
        s.append(" width = ");
        s.append(u64_str(self.params.width as u64).as_str());
        s.append(" height = ");
        s.append(u64_str(self.params.height as u64).as_str());
        s.append(" zoom = ");
        s.append(fx_str(self.params.zoom).as_str());
        s.append(" center = ");
        s.append(complex_str(self.params.center).as_str());
        s.append(" parallel = ");
        s.append(bool_str(self.params.parallel).as_str());
        s.append(" constant = ");
        s.append(complex_str(self.params.constant).as_str());
        proof {
            assert(s@ =~= self.settings_string_spec());
        }
        s
    }
}

/// A nonpositive bailout means immediate escape: a squared magnitude is
/// never negative, so every point counts zero iterations.
pub proof fn lemma_nonpositive_bailout_counts_zero(kind: FnKind, c: Complex, bailout: Fx,
    z: Complex, fuel: nat)
    requires
        bailout.m <= 0,
    ensures
        escape_count(kind, c, bailout, z, fuel) == 0,
{
    lemma_norm_sqr_nonneg(z);
}

/// A sample point whose squared magnitude already reaches the threshold
/// escapes before any iteration runs: its count is zero. In particular, for
/// the quadratic map with constant zero and bailout `4`, every sample with
/// squared magnitude at least `4` counts zero.
pub proof fn lemma_escaped_point_counts_zero(kind: FnKind, c: Complex, bailout: Fx, z: Complex,
    fuel: nat)
    requires
        norm_sqr_spec(z).m >= bailout.m,
    ensures
        escape_count(kind, c, bailout, z, fuel) == 0,
{
}

/// A point below the threshold whose very next iterate reaches it counts
/// exactly one iteration.
pub proof fn lemma_escape_after_one_step(kind: FnKind, c: Complex, bailout: Fx, z: Complex,
    fuel: nat)
    requires
        norm_sqr_spec(z).m < bailout.m,
        norm_sqr_spec(step_spec(kind, z, c)).m >= bailout.m,
        fuel >= 1,
    ensures
        escape_count(kind, c, bailout, z, fuel) == 1,
{
    let z1 = step_spec(kind, z, c);
    assert(escape_count(kind, c, bailout, z1, (fuel - 1) as nat) == 0);
}

/// With a zero iteration budget, every byte of the buffer comes from the
/// color of count zero: pixel `p`'s bytes equal `color_spec(0)`.
pub proof fn lemma_render_max_iter_zero<C: Colorizer>(g: FGenerator<C>, n: int)
    requires
        g.params.max_iter == 0,
        0 <= n < g.render_spec().len(),
    ensures
        g.render_spec()[n] == g.colorizer.color_spec(0)[n % 4],
{
}

impl FGenerator<SimpleColorizer> {
    /// Build an engine with the default hue-rotation colorizer; the function
    /// identifier must name a catalog member, anything else is a fatal
    /// configuration error.
    pub fn new(params: FParams) -> (r: Result<FGenerator<SimpleColorizer>, FractalError>)
        ensures
            r.is_ok() <==> kind_of_id_spec(params.kind_fn).is_some(),
            r.is_ok() ==> r.unwrap() == (FGenerator {
                params,
                kind: kind_of_id_spec(params.kind_fn).unwrap(),
                colorizer: SimpleColorizer {
                    step: Fx { m: 5_000_000 },
                    phase: Fx { m: 0 },
                    saturation: Fx { m: 700_000 },
                    lightness: Fx { m: 600_000 },
                    alpha: Fx { m: 900_000 },
                },
            }),
            r.is_err() ==> r == Err::<FGenerator<SimpleColorizer>, FractalError>(
                FractalError::UnsupportedFunction,
            ),
    {
        Self::with_colorizer(params, SimpleColorizer::default())
    }
}

} // verus!
