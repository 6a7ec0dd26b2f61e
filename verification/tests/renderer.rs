//! Tests of the viewport operations, the budget controls, the field
//! recomputation and the RGBA drawing.

use mandelbrot::color::ColorMap;
use mandelbrot::fixed::SCALE;
use mandelbrot::render::MandelbrotSet;
use mandelbrot::viewport::Viewport;

fn default_bounds() -> (i64, i64) {
    (-2 * SCALE, 2 * SCALE)
}

#[test]
fn new_renderer_has_default_state() {
    let m = MandelbrotSet::new(4);
    let (lo, hi) = default_bounds();
    assert_eq!(m.resolution, 4);
    assert_eq!(m.viewport.re_min, lo);
    assert_eq!(m.viewport.re_max, hi);
    assert_eq!(m.viewport.im_min, lo);
    assert_eq!(m.viewport.im_max, hi);
    assert_eq!(m.max_iterations, 255);
    assert_eq!(m.color, ColorMap::Grayscale);
    assert_eq!(m.cells, vec![0u8; 16]);
}

#[test]
fn pan_right_shifts_real_axis_by_a_tenth() {
    let mut m = MandelbrotSet::new(4);
    m.pan(false, false, false, true);
    let (lo, hi) = default_bounds();
    let step = (hi - lo) / 10;
    assert_eq!(m.viewport.re_min, lo + step);
    assert_eq!(m.viewport.re_max, hi + step);
    assert_eq!(m.viewport.im_min, lo);
    assert_eq!(m.viewport.im_max, hi);
}

#[test]
fn pan_directions_combine_and_cancel() {
    let mut m = MandelbrotSet::new(4);
    let (lo, hi) = default_bounds();
    let step = (hi - lo) / 10;
    // Up and right together shift diagonally.
    m.pan(true, false, false, true);
    assert_eq!(m.viewport.re_min, lo + step);
    assert_eq!(m.viewport.im_min, lo + step);
    // Opposite directions cancel to a no-op.
    let before = m.viewport;
    m.pan(true, true, true, true);
    assert_eq!(m.viewport, before);
}

#[test]
fn pan_into_coordinate_limit_is_refused() {
    let mut v = Viewport {
        re_min: 999_000_000_000_000,
        re_max: 1_000_000_000_000_000,
        im_min: 0,
        im_max: 1_000_000_000_000,
    };
    let before = v;
    // The real step is 10^11; the new re_max would pass COORD_MAX.
    v.pan(false, false, false, true);
    assert_eq!(v, before);
}

#[test]
fn zoom_in_shrinks_both_axes_symmetrically() {
    let mut m = MandelbrotSet::new(4);
    m.zoom_in();
    let s = SCALE;
    assert_eq!(m.viewport.re_min, -16 * s / 10);
    assert_eq!(m.viewport.re_max, 16 * s / 10);
    assert_eq!(m.viewport.im_min, -16 * s / 10);
    assert_eq!(m.viewport.im_max, 16 * s / 10);
}

#[test]
fn zoom_out_grows_both_axes_symmetrically() {
    let mut m = MandelbrotSet::new(4);
    m.zoom_out();
    let s = SCALE;
    assert_eq!(m.viewport.re_min, -24 * s / 10);
    assert_eq!(m.viewport.re_max, 24 * s / 10);
    assert_eq!(m.viewport.im_min, -24 * s / 10);
    assert_eq!(m.viewport.im_max, 24 * s / 10);
}

#[test]
fn zoom_out_at_coordinate_limit_is_refused() {
    let mut v = Viewport {
        re_min: -1_000_000_000_000_000,
        re_max: 1_000_000_000_000_000,
        im_min: -1_000_000_000_000_000,
        im_max: 1_000_000_000_000_000,
    };
    let before = v;
    v.zoom_out();
    assert_eq!(v, before);
}

#[test]
fn zoom_pair_narrows_wide_viewports() {
    // Zooming in then out does not return a wide viewport: the zoom-out
    // step is a tenth of the already shrunken range, so the pair leaves
    // 96% of the original width.
    let mut m = MandelbrotSet::new(4);
    m.zoom_in();
    m.zoom_out();
    let s = SCALE;
    assert_eq!(m.viewport.re_min, -192 * s / 100);
    assert_eq!(m.viewport.re_max, 192 * s / 100);
}

#[test]
fn zoom_pair_is_identity_below_step_granularity() {
    // Both ranges are under one step's granularity: neither zoom moves.
    let mut v = Viewport { re_min: 0, re_max: 5, im_min: -3, im_max: 4 };
    let before = v;
    v.zoom_in();
    v.zoom_out();
    assert_eq!(v, before);
}

#[test]
fn budget_increment_is_unconditional() {
    let mut m = MandelbrotSet::new(4);
    m.more_iterations();
    assert_eq!(m.max_iterations, 265);
    m.more_iterations();
    assert_eq!(m.max_iterations, 275);
}

#[test]
fn budget_decrement_stops_above_step_size() {
    let mut m = MandelbrotSet::new(4);
    m.less_iterations();
    assert_eq!(m.max_iterations, 245);
    m.max_iterations = 25;
    m.less_iterations();
    assert_eq!(m.max_iterations, 15);
    // 15 - 10 would be at or below the step size: refused.
    m.less_iterations();
    assert_eq!(m.max_iterations, 15);
    m.max_iterations = 20;
    m.less_iterations();
    assert_eq!(m.max_iterations, 20);
}

#[test]
fn reset_restores_defaults_and_keeps_resolution() {
    let mut m = MandelbrotSet::new(4);
    m.pan(true, false, false, true);
    m.zoom_in();
    m.more_iterations();
    m.set_color_map(ColorMap::Hue);
    m.calculate();
    m.reset();
    let (lo, hi) = default_bounds();
    assert_eq!(m.resolution, 4);
    assert_eq!(m.viewport.re_min, lo);
    assert_eq!(m.viewport.re_max, hi);
    assert_eq!(m.viewport.im_min, lo);
    assert_eq!(m.viewport.im_max, hi);
    assert_eq!(m.max_iterations, 255);
    assert_eq!(m.color, ColorMap::Grayscale);
    assert_eq!(m.cells, vec![0u8; 16]);
}

#[test]
fn calculate_matches_per_pixel_evaluation() {
    // Resolution 4 over the default viewport: the axis step is exactly one
    // SCALE unit, so pixel (x, y) sits at (-2 + x, -2 + y) real units.
    let mut m = MandelbrotSet::new(4);
    m.calculate();
    for y in 0..4usize {
        for x in 0..4usize {
            let re = -2 * SCALE + (x as i64) * SCALE;
            let im = -2 * SCALE + (y as i64) * SCALE;
            let expected =
                MandelbrotSet::normalize(MandelbrotSet::mandelbrot(re, im, 255), 255);
            assert_eq!(m.cells[y * 4 + x], expected);
        }
    }
    // The first pixel sits exactly on (re_min, im_min) and escapes at once.
    assert_eq!(m.cells[0], 1);
    // The last pixel sits one step short of (re_max, im_max).
    assert_eq!(
        m.cells[15],
        MandelbrotSet::normalize(MandelbrotSet::mandelbrot(SCALE, SCALE, 255), 255)
    );
}

#[test]
fn calculate_is_deterministic() {
    let mut a = MandelbrotSet::new(8);
    a.pan(false, false, true, false);
    a.zoom_in();
    let mut b = MandelbrotSet::new(8);
    b.pan(false, false, true, false);
    b.zoom_in();
    a.calculate();
    b.calculate();
    assert_eq!(a.cells, b.cells);
    // Recomputing with unchanged state is idempotent.
    let first = a.cells.clone();
    a.calculate();
    assert_eq!(a.cells, first);
}

#[test]
fn default_field_center_and_corner() {
    // End to end at resolution 400: the center pixel maps exactly to the
    // origin and spends the whole budget; the corner pixel escapes at once.
    let mut m = MandelbrotSet::new(400);
    m.calculate();
    assert_eq!(MandelbrotSet::mandelbrot(0, 0, 255), 255);
    assert_eq!(m.cells[200 * 400 + 200], 255);
    let corner_raw = MandelbrotSet::mandelbrot(-2 * SCALE, -2 * SCALE, 255);
    assert_eq!(corner_raw, 1);
    assert_eq!(m.cells[0], 1);
}

#[test]
fn draw_writes_rgba_per_cell() {
    let mut m = MandelbrotSet::new(2);
    m.cells = vec![0, 1, 2, 3];
    let mut frame = vec![0u8; 16];
    m.draw(&mut frame);
    for i in 0..4usize {
        let c = m.cells[i];
        assert_eq!(&frame[4 * i..4 * i + 4], &[c, c, c, 255]);
    }
    m.set_color_map(ColorMap::Hue);
    m.draw(&mut frame);
    assert_eq!(&frame[0..4], &[255, 0, 0, 255]);
    assert_eq!(&frame[4..8], &[255, 6, 0, 255]);
}
