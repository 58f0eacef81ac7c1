use fractal::colorizer::SimpleColorizer;
use fractal::complex::Complex;
use fractal::fgenerator::{escape_time, Colorizer, FGenerator, FractalError};
use fractal::fixed::Fx;
use fractal::fparams::FParams;
use fractal::funcs::{f0, f10, kind_of_id, FnKind};

fn fx(m: i64) -> Fx {
    Fx { m }
}

fn small_params(width: u32, height: u32) -> FParams {
    let mut p = FParams::default();
    p.width = width;
    p.height = height;
    p.range_x = fx(2_000_000);
    p.range_y = fx(2_000_000);
    p.max_iter = 20;
    p.bailout = fx(4_000_000);
    p.set_zoom(fx(1_000_000));
    p
}

#[test]
fn test_color_by_index_factory() {
    let f = SimpleColorizer {
        step: fx(1_000_000),
        phase: fx(0),
        saturation: fx(700_000),
        lightness: fx(600_000),
        alpha: fx(900_000),
    };
    let _c = f.calc_color(2);
}

#[test]
fn colorizer_golden_quad_for_count_two() {
    let f = SimpleColorizer {
        step: fx(1_000_000),
        phase: fx(0),
        saturation: fx(700_000),
        lightness: fx(600_000),
        alpha: fx(900_000),
    };
    assert_eq!(f.calc_color(2), vec![224, 86, 81, 229]);
}

#[test]
fn colorizer_is_periodic_in_the_count() {
    let f = SimpleColorizer::default();
    // step 5 divides the full turn into 72 parts
    for k in [0u32, 1, 5, 17, 71, 100] {
        assert_eq!(f.calc_color(k), f.calc_color(k + 72));
        assert_eq!(f.calc_color(k), f.calc_color(k + 144));
    }
    let g = SimpleColorizer {
        step: fx(1_000_000),
        ..SimpleColorizer::default()
    };
    assert_eq!(g.calc_color(3), g.calc_color(3 + 360));
}

#[test]
fn escape_counts_for_the_quadratic_map() {
    let origin = Complex { re: fx(0), im: fx(0) };
    // squared magnitude 9 is already past bailout 4: zero iterations
    let far = Complex { re: fx(3_000_000), im: fx(0) };
    assert_eq!(escape_time(FnKind::Quadratic, origin, fx(4_000_000), far, 100), 0);
    // 1.5 squares to 2.25 < 4, then 5.0625 >= 4: exactly one iteration
    let near = Complex { re: fx(1_500_000), im: fx(0) };
    assert_eq!(escape_time(FnKind::Quadratic, origin, fx(4_000_000), near, 100), 1);
    // the origin never escapes: the budget caps the count
    assert_eq!(escape_time(FnKind::Quadratic, origin, fx(4_000_000), origin, 100), 100);
    // a point exactly at the threshold counts as escaped
    let edge = Complex { re: fx(2_000_000), im: fx(0) };
    assert_eq!(escape_time(FnKind::Quadratic, origin, fx(4_000_000), edge, 100), 0);
    // a nonpositive bailout escapes immediately everywhere
    assert_eq!(escape_time(FnKind::Quadratic, origin, fx(0), origin, 100), 0);
    assert_eq!(escape_time(FnKind::Quadratic, origin, fx(-1_000_000), origin, 100), 0);
}

#[test]
fn parallel_and_sequential_buffers_are_identical() {
    let mut p = small_params(4, 4);
    p.kind_fn = 0;
    p.parallel = false;
    let seq_buf = FGenerator::new(p).unwrap().render();
    p.parallel = true;
    let par_buf = FGenerator::new(p).unwrap().render();
    assert_eq!(seq_buf.len(), 4 * 4 * 4);
    assert_eq!(seq_buf, par_buf);

    // the exponential member exercises the transcendental helpers too
    let mut q = small_params(3, 2);
    q.kind_fn = 10;
    q.parallel = false;
    let a = FGenerator::new(q).unwrap().render();
    q.parallel = true;
    let b = FGenerator::new(q).unwrap().render();
    assert_eq!(a, b);
}

#[test]
fn zero_budget_colors_every_pixel_as_count_zero() {
    let mut p = small_params(2, 2);
    p.max_iter = 0;
    let gen = FGenerator::new(p).unwrap();
    let buf = gen.render();
    let c0 = gen.colorizer.calc_color(0);
    assert_eq!(buf.len(), 16);
    for px in 0..4 {
        assert_eq!(&buf[4 * px..4 * px + 4], &c0[..]);
    }
}

#[test]
fn unsupported_function_id_is_a_construction_error() {
    let mut p = FParams::default();
    p.kind_fn = 7;
    match FGenerator::new(p) {
        Err(e) => {
            assert_eq!(e, FractalError::UnsupportedFunction);
            assert_eq!(e.message(), "Function not supported");
        },
        Ok(_) => panic!("identifier 7 names no catalog member"),
    }
    assert!(kind_of_id(0) == Some(FnKind::Quadratic));
    assert!(kind_of_id(200) == Some(FnKind::RationalLog));
    assert!(kind_of_id(2) == None);
}

#[test]
fn animation_zoom_sequence_is_exact() {
    let mut p = small_params(2, 2);
    p.zoom_speed = fx(1_100_000);
    p.gif_frames = 3;
    // the zoom sequence 1.1, 1.21, 1.331 is exact in decimal fixed point
    let mut q = p;
    q.set_zoom(fx(1_100_000));
    let first = FGenerator::new(q).unwrap().render();
    let mut gen = FGenerator::new(p).unwrap();
    let frames = gen.render_animation();
    assert_eq!(frames.len(), 3);
    assert_eq!(gen.params.zoom, fx(1_331_000));
    assert_eq!(frames[0], first);
    q.set_zoom(fx(1_210_000));
    assert_eq!(frames[1], FGenerator::new(q).unwrap().render());
    q.set_zoom(fx(1_331_000));
    assert_eq!(frames[2], FGenerator::new(q).unwrap().render());
    for f in &frames {
        assert_eq!(f.len(), 16);
    }
}

#[test]
fn iteration_functions_compute_their_formulas() {
    let z = Complex { re: fx(1_000_000), im: fx(1_000_000) };
    let c = Complex { re: fx(500_000), im: fx(0) };
    // (1 + i)^2 + 0.5 = 0.5 + 2i
    assert_eq!(f0(z, c), Complex { re: fx(500_000), im: fx(2_000_000) });
    // exp(0) + 0 = 1
    let zero = Complex { re: fx(0), im: fx(0) };
    assert_eq!(f10(zero, zero), Complex { re: fx(1_000_000), im: fx(0) });
}

#[test]
fn settings_to_string_reports_the_effective_parameters() {
    let gen = FGenerator::new(FParams::default()).unwrap();
    assert_eq!(
        gen.settings_to_string(),
        "max_iter = 500 width = 1000 height = 1000 zoom = 1 center = 0+0i parallel = false constant = 0+0i"
    );
}
