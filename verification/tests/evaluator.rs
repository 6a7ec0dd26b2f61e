//! Tests of the escape-time evaluator, the intensity normalization and the
//! colour mappings.

use mandelbrot::color::ColorMap;
use mandelbrot::fixed::SCALE;
use mandelbrot::render::MandelbrotSet;

#[test]
fn origin_spends_whole_budget() {
    assert_eq!(MandelbrotSet::mandelbrot(0, 0, 1), 1);
    assert_eq!(MandelbrotSet::mandelbrot(0, 0, 7), 7);
    assert_eq!(MandelbrotSet::mandelbrot(0, 0, 255), 255);
    assert_eq!(MandelbrotSet::mandelbrot(0, 0, 1000), 1000);
}

#[test]
fn far_point_escapes_in_one_step() {
    // |c| = 3 > 2: the first orbit point is c itself, already outside.
    assert_eq!(MandelbrotSet::mandelbrot(3 * SCALE, 0, 100), 1);
    assert_eq!(MandelbrotSet::mandelbrot(0, -3 * SCALE, 100), 1);
    assert_eq!(MandelbrotSet::mandelbrot(2 * SCALE, 2 * SCALE, 255), 1);
}

#[test]
fn zero_budget_returns_zero() {
    assert_eq!(MandelbrotSet::mandelbrot(0, 0, 0), 0);
    assert_eq!(MandelbrotSet::mandelbrot(3 * SCALE, 0, 0), 0);
}

#[test]
fn escape_count_monotonic_in_budget() {
    // c = -1.8: real orbit stays bounded a while; counts never decrease as
    // the budget grows, and settle once the point has escaped.
    let c = -18 * SCALE / 10;
    let mut prev = 0u32;
    for budget in [1u32, 2, 5, 10, 50, 100, 255] {
        let n = MandelbrotSet::mandelbrot(c, 0, budget);
        assert!(n >= prev);
        assert!(n <= budget);
        prev = n;
    }
    // A point that escapes at some step returns that step for every larger
    // budget.
    let quick = MandelbrotSet::mandelbrot(SCALE, SCALE, 255);
    assert!(quick < 255);
    assert_eq!(MandelbrotSet::mandelbrot(SCALE, SCALE, 1000), quick);
}

#[test]
fn normalize_exact_values() {
    assert_eq!(MandelbrotSet::normalize(0, 255), 0);
    assert_eq!(MandelbrotSet::normalize(1, 255), 1);
    assert_eq!(MandelbrotSet::normalize(255, 255), 255);
    assert_eq!(MandelbrotSet::normalize(128, 255), 128);
    // 1/2 of 255 is 127.5; rounding half up gives 128.
    assert_eq!(MandelbrotSet::normalize(1, 2), 128);
    assert_eq!(MandelbrotSet::normalize(10, 10), 255);
    assert_eq!(MandelbrotSet::normalize(3, 10), 77);
}

#[test]
fn grayscale_is_identity() {
    for c in [0u8, 1, 77, 128, 254, 255] {
        assert_eq!(ColorMap::Grayscale.rgb(c), (c, c, c));
    }
}

#[test]
fn hue_wheel_primaries() {
    // The wheel starts at red, passes green and blue at thirds, and wraps.
    assert_eq!(ColorMap::Hue.rgb(0), (255, 0, 0));
    assert_eq!(ColorMap::Hue.rgb(85), (0, 255, 0));
    assert_eq!(ColorMap::Hue.rgb(170), (0, 0, 255));
    assert_eq!(ColorMap::Hue.rgb(255), (255, 0, 0));
}

#[test]
fn hue_wheel_intermediate_values() {
    // Halfway from red to green: nearly full red, full green, no blue.
    assert_eq!(ColorMap::Hue.rgb(43), (252, 255, 0));
    // A quarter turn: yellow-green.
    assert_eq!(ColorMap::Hue.rgb(64), (126, 255, 0));
}
