//! The field renderer.
//!
//! A `MandelbrotSet` owns the viewport, the square resolution fixed at
//! construction, the iteration budget, the colour mapping, and the field of
//! normalized intensities.  `calculate` recomputes every cell of the field
//! from the current state; `draw` writes the field through the colour
//! mapping into an RGBA frame.  The per-cell work is verified; only the
//! data-parallel distribution of it over the buffer is taken on trust.

use vstd::prelude::*;
use vstd::pervasive::VecAdditionalExecFns;
use rayon::iter::{IndexedParallelIterator, IntoParallelRefMutIterator, ParallelIterator};
use crate::color::{rgb_spec, ColorMap};
use crate::escape::{
    escape_time, escaped_at, lemma_escape_time_hits, lemma_escape_time_saturates,
    lemma_step_in_bounds, orbit, step_im, step_re, ESCAPE_SQR, ORBIT_BOUND,
};
use crate::fixed::{div_pos, tdiv128, COORD_MAX, SCALE};
use crate::viewport::Viewport;

verus! {

/// Iteration budget a fresh renderer starts with.
pub const DEFAULT_ITERATIONS: u32 = 255;

/// Fixed increment of the iteration budget.
pub const ITERATION_STEP: u32 = 10;

/// Largest accepted square resolution.
pub const MAX_RESOLUTION: usize = 10_000;

/// Width of one axis step of the pixel grid: the axis range over the
/// resolution, rounded down.
pub open spec fn axis_step(min: int, max: int, resolution: int) -> int {
    (max - min) / resolution
}

/// The coordinate of pixel `idx` on an axis: a left-inclusive, right-open
/// linear mapping, so the last pixel never reaches the axis maximum.
pub open spec fn pixel_coord(min: int, step: int, idx: int) -> int {
    min + step * idx
}

/// An iteration count rescaled to 0..=255, rounding half up:
/// `round(iterations / max_iterations * 255)`.
pub open spec fn normalize_spec(iterations: nat, max_iterations: nat) -> int {
    (510 * iterations + max_iterations) as int / (2 * max_iterations) as int
}

/// The intensity of the cell with row-major index `i`.
pub open spec fn cell_at(
    re_min: int,
    im_min: int,
    re_step: int,
    im_step: int,
    resolution: int,
    max_iterations: nat,
    i: int,
) -> u8 {
    let re = pixel_coord(re_min, re_step, i % resolution);
    let im = pixel_coord(im_min, im_step, i / resolution);
    normalize_spec(escape_time(re, im, max_iterations), max_iterations) as u8
}

/// The whole field as a function of viewport, resolution and budget alone.
pub open spec fn grid_spec(v: Viewport, resolution: int, max_iterations: nat) -> Seq<u8> {
    Seq::new(
        (resolution * resolution) as nat,
        |i: int| cell_at(
            v.re_min as int,
            v.im_min as int,
            axis_step(v.re_min as int, v.re_max as int, resolution),
            axis_step(v.im_min as int, v.im_max as int, resolution),
            resolution,
            max_iterations,
            i,
        ),
    )
}

/// A product of two values of magnitude at most `m` stays within `m * m`.
proof fn lemma_abs_product_bound(a: int, b: int, m: int)
    by (nonlinear_arith)
    requires
        0 <= m,
        -m <= a <= m,
        -m <= b <= m,
    ensures
        -(m * m) <= a * b <= m * m,
{
}

/// How far one axis step can carry the last pixel: never up to the axis
/// maximum, and exactly one step short of it when the resolution divides
/// the range.
proof fn lemma_axis_step_bounds(min: int, max: int, resolution: int)
    requires
        min < max,
        1 <= resolution,
    ensures
        0 <= axis_step(min, max, resolution),
        min + axis_step(min, max, resolution) * (resolution - 1) < max,
        (max - min) % resolution == 0 ==> min + axis_step(min, max, resolution) * (resolution - 1)
            == max - axis_step(min, max, resolution),
{
    let range: int = max - min;
    let s: int = axis_step(min, max, resolution);
    vstd::arithmetic::div_mod::lemma_div_pos_is_pos(range, resolution);
    vstd::arithmetic::div_mod::lemma_fundamental_div_mod(range, resolution);
    vstd::arithmetic::div_mod::lemma_mod_bound(range, resolution);
    vstd::arithmetic::mul::lemma_mul_is_distributive_sub(s, resolution, 1);
    vstd::arithmetic::mul::lemma_mul_is_commutative(s, resolution);
    vstd::arithmetic::mul::lemma_mul_basics(s);
    vstd::arithmetic::mul::lemma_mul_basics(resolution);
    assert(range == resolution * s + range % resolution);
    if s == 0 && range % resolution == 0 {
        assert(resolution * 0 == 0);
        assert(range == 0);
    }
    assert(s * (resolution - 1) == s * resolution - s);
    assert(min + s * (resolution - 1) == max - (range % resolution) - s);
}

/// The pixel-to-coordinate mapping: pixel 0 of each axis sits exactly on
/// the axis minimum; the last pixel stays strictly below the axis maximum,
/// and exactly one step below it whenever the resolution divides the axis
/// range, as it does for the default viewport at the default resolutions.
pub proof fn lemma_pixel_mapping(v: Viewport, resolution: int)
    requires
        v.wf(),
        1 <= resolution,
    ensures
        pixel_coord(
            v.re_min as int,
            axis_step(v.re_min as int, v.re_max as int, resolution),
            0,
        ) == v.re_min,
        pixel_coord(
            v.im_min as int,
            axis_step(v.im_min as int, v.im_max as int, resolution),
            0,
        ) == v.im_min,
        pixel_coord(
            v.re_min as int,
            axis_step(v.re_min as int, v.re_max as int, resolution),
            resolution - 1,
        ) < v.re_max,
        pixel_coord(
            v.im_min as int,
            axis_step(v.im_min as int, v.im_max as int, resolution),
            resolution - 1,
        ) < v.im_max,
        v.re_range() % resolution == 0 ==> pixel_coord(
            v.re_min as int,
            axis_step(v.re_min as int, v.re_max as int, resolution),
            resolution - 1,
        ) == v.re_max - axis_step(v.re_min as int, v.re_max as int, resolution),
        v.im_range() % resolution == 0 ==> pixel_coord(
            v.im_min as int,
            axis_step(v.im_min as int, v.im_max as int, resolution),
            resolution - 1,
        ) == v.im_max - axis_step(v.im_min as int, v.im_max as int, resolution),
{
    lemma_axis_step_bounds(v.re_min as int, v.re_max as int, resolution);
    lemma_axis_step_bounds(v.im_min as int, v.im_max as int, resolution);
}

/// Recomputing the field is a pure function of viewport, resolution and
/// budget: two renderers that agree on those three produce identical fields.
pub proof fn lemma_recompute_deterministic(a: MandelbrotSet, b: MandelbrotSet)
    requires
        a.viewport == b.viewport,
        a.resolution == b.resolution,
        a.max_iterations == b.max_iterations,
    ensures
        grid_spec(a.viewport, a.resolution as int, a.max_iterations as nat) == grid_spec(
            b.viewport,
            b.resolution as int,
            b.max_iterations as nat,
        ),
{
}

/// The renderer: viewport, resolution, iteration budget, colour mapping and
/// the field of normalized intensities, row-major with row 0 at the minimum
/// imaginary value.
pub struct MandelbrotSet {
    pub cells: Vec<u8>,
    pub resolution: usize,
    pub viewport: Viewport,
    pub max_iterations: u32,
    pub color: ColorMap,
}

impl MandelbrotSet {
    /// The state every operation preserves: a well-formed viewport, a
    /// bounded resolution whose square is the field size, and a positive
    /// iteration budget.
    pub open spec fn wf(self) -> bool {
        &&& self.viewport.wf()
        &&& 1 <= self.resolution <= MAX_RESOLUTION
        &&& self.cells.len() == self.resolution * self.resolution
        &&& 1 <= self.max_iterations
    }

    /// A fresh renderer: default viewport, default budget, grayscale
    /// colouring, all cells dark.
    pub fn new(resolution: usize) -> (m: MandelbrotSet)
        requires
            1 <= resolution <= MAX_RESOLUTION,
        ensures
            m.wf(),
            m.resolution == resolution,
            m.viewport == Viewport::spec_default(),
            m.max_iterations == DEFAULT_ITERATIONS,
            m.color == ColorMap::Grayscale,
            m.cells@.len() == resolution * resolution,
            forall|i: int| 0 <= i < m.cells@.len() ==> m.cells@[i] == 0u8,
    {
        proof {
            assert(resolution * resolution <= MAX_RESOLUTION * MAX_RESOLUTION) by (nonlinear_arith)
                requires
                    1 <= resolution <= MAX_RESOLUTION,
            ;
        }
        let cells: Vec<u8> = vec![0u8; resolution * resolution];
        MandelbrotSet {
            cells,
            resolution,
            viewport: Viewport::default(),
            max_iterations: DEFAULT_ITERATIONS,
            color: ColorMap::Grayscale,
        }
    }

    /// The escape-time evaluator: how many orbit steps the point takes to
    /// leave the escape circle, capped at the iteration budget.
    pub fn mandelbrot(re: i64, im: i64, max_iterations: u32) -> (n: u32)
        requires
            -COORD_MAX <= re <= COORD_MAX,
            -COORD_MAX <= im <= COORD_MAX,
        ensures
            n <= max_iterations,
            n as nat == escape_time(re as int, im as int, max_iterations as nat),
    {
        let mut n: u32 = 0;
        let mut zre: i64 = 0;
        let mut zim: i64 = 0;
        loop
            invariant_except_break
                -COORD_MAX <= re <= COORD_MAX,
                -COORD_MAX <= im <= COORD_MAX,
                n <= max_iterations,
                -ORBIT_BOUND <= zre <= ORBIT_BOUND,
                -ORBIT_BOUND <= zim <= ORBIT_BOUND,
                zre as int == orbit(re as int, im as int, n as nat).0,
                zim as int == orbit(re as int, im as int, n as nat).1,
                forall|k: nat| k < n ==> !escaped_at(re as int, im as int, k),
            ensures
                n <= max_iterations,
                n as nat == escape_time(re as int, im as int, max_iterations as nat),
            decreases max_iterations - n,
        {
            if n >= max_iterations {
                proof {
                    lemma_escape_time_saturates(re as int, im as int, max_iterations as nat);
                }
                break;
            }
            proof {
                lemma_abs_product_bound(zre as int, zre as int, ORBIT_BOUND as int);
                lemma_abs_product_bound(zim as int, zim as int, ORBIT_BOUND as int);
                lemma_abs_product_bound(zre as int, zim as int, ORBIT_BOUND as int);
            }
            let zr2: i128 = (zre as i128) * (zre as i128);
            let zi2: i128 = (zim as i128) * (zim as i128);
            if zr2 + zi2 >= ESCAPE_SQR {
                proof {
                    assert(escaped_at(re as int, im as int, n as nat));
                    lemma_escape_time_hits(
                        re as int,
                        im as int,
                        n as nat,
                        max_iterations as nat,
                    );
                }
                break;
            }
            proof {
                lemma_step_in_bounds(zre as int, zim as int, re as int, im as int);
            }
            let cross: i128 = 2 * ((zre as i128) * (zim as i128));
            let new_re: i64 = (tdiv128(zr2 - zi2, SCALE as i128) + (re as i128)) as i64;
            let new_im: i64 = (tdiv128(cross, SCALE as i128) + (im as i128)) as i64;
            proof {
                assert(!escaped_at(re as int, im as int, n as nat));
                assert(new_re as int == step_re(zre as int, zim as int, re as int));
                assert(new_im as int == step_im(zre as int, zim as int, im as int));
                assert(orbit(re as int, im as int, (n + 1) as nat).0 == new_re as int);
                assert(orbit(re as int, im as int, (n + 1) as nat).1 == new_im as int);
            }
            zre = new_re;
            zim = new_im;
            n = n + 1;
        }
        n
    }

    /// Rescale an iteration count to an 8-bit intensity, rounding half up.
    pub fn normalize(iterations: u32, max_iterations: u32) -> (c: u8)
        requires
            1 <= max_iterations,
            iterations <= max_iterations,
        ensures
            c as int == normalize_spec(iterations as nat, max_iterations as nat),
    {
        let num: u64 = 510 * (iterations as u64) + (max_iterations as u64);
        let den: u64 = 2 * (max_iterations as u64);
        proof {
            vstd::arithmetic::div_mod::lemma_multiply_divide_lt(num as int, den as int, 256);
        }
        (num / den) as u8
    }

    /// Recompute every cell of the field from the current viewport,
    /// resolution and budget.  Nothing else changes; the result depends on
    /// those three alone.
    pub fn calculate(&mut self)
        requires
            old(self).wf(),
        ensures
            final(self).wf(),
            final(self).viewport == old(self).viewport,
            final(self).resolution == old(self).resolution,
            final(self).max_iterations == old(self).max_iterations,
            final(self).color == old(self).color,
            final(self).cells@ == grid_spec(
                old(self).viewport,
                old(self).resolution as int,
                old(self).max_iterations as nat,
            ),
    {
        let re_step: i64 = div_pos(
            self.viewport.re_max - self.viewport.re_min,
            self.resolution as i64,
        );
        let im_step: i64 = div_pos(
            self.viewport.im_max - self.viewport.im_min,
            self.resolution as i64,
        );
        proof {
            lemma_axis_step_bounds(
                self.viewport.re_min as int,
                self.viewport.re_max as int,
                self.resolution as int,
            );
            lemma_axis_step_bounds(
                self.viewport.im_min as int,
                self.viewport.im_max as int,
                self.resolution as int,
            );
        }
        fill_cells(
            &mut self.cells,
            self.viewport.re_min,
            self.viewport.im_min,
            re_step,
            im_step,
            self.resolution,
            self.max_iterations,
        );
        proof {
            assert(self.cells@ =~= grid_spec(
                self.viewport,
                self.resolution as int,
                self.max_iterations as nat,
            ));
        }
    }

    /// Write the field through the colour mapping into an RGBA frame of
    /// exactly four bytes per cell, row-major, with a fully opaque alpha.
    pub fn draw(&self, frame: &mut Vec<u8>)
        requires
            self.wf(),
            old(frame).len() == 4 * self.cells.len(),
        ensures
            final(frame).len() == old(frame).len(),
            forall|i: int| 0 <= i < self.cells.len() ==> {
                &&& final(frame)@[4 * i] as int == rgb_spec(self.color, self.cells@[i]).0
                &&& final(frame)@[4 * i + 1] as int == rgb_spec(self.color, self.cells@[i]).1
                &&& final(frame)@[4 * i + 2] as int == rgb_spec(self.color, self.cells@[i]).2
                &&& final(frame)@[4 * i + 3] == 255u8
            },
    {
        proof {
            assert(self.cells.len() <= MAX_RESOLUTION * MAX_RESOLUTION) by (nonlinear_arith)
                requires
                    self.wf(),
            ;
        }
        let n: usize = self.cells.len();
        let mut i: usize = 0;
        while i < n
            invariant
                self.wf(),
                n == self.cells.len(),
                n <= MAX_RESOLUTION * MAX_RESOLUTION,
                i <= n,
                frame.len() == 4 * n,
                forall|j: int| 0 <= j < i ==> {
                    &&& frame@[4 * j] as int == rgb_spec(self.color, self.cells@[j]).0
                    &&& frame@[4 * j + 1] as int == rgb_spec(self.color, self.cells@[j]).1
                    &&& frame@[4 * j + 2] as int == rgb_spec(self.color, self.cells@[j]).2
                    &&& frame@[4 * j + 3] == 255u8
                },
            decreases n - i,
        {
            let c: u8 = self.cells[i];
            let rgb: (u8, u8, u8) = self.color.rgb(c);
            frame.set(4 * i, rgb.0);
            frame.set(4 * i + 1, rgb.1);
            frame.set(4 * i + 2, rgb.2);
            frame.set(4 * i + 3, 255);
            i = i + 1;
        }
    }

    /// Restore the default state, keeping only the resolution: default
    /// viewport, default budget, and the default grayscale colouring.
    pub fn reset(&mut self)
        requires
            old(self).wf(),
        ensures
            final(self).wf(),
            final(self).resolution == old(self).resolution,
            final(self).viewport == Viewport::spec_default(),
            final(self).max_iterations == DEFAULT_ITERATIONS,
            final(self).color == ColorMap::Grayscale,
            final(self).cells@.len() == old(self).resolution * old(self).resolution,
            forall|i: int| 0 <= i < final(self).cells@.len() ==> final(self).cells@[i] == 0u8,
    {
        let resolution: usize = self.resolution;
        *self = MandelbrotSet::new(resolution);
    }

    /// Raise the iteration budget by one step.
    pub fn more_iterations(&mut self)
        requires
            old(self).wf(),
            old(self).max_iterations + ITERATION_STEP <= u32::MAX,
        ensures
            final(self).wf(),
            final(self).max_iterations == old(self).max_iterations + ITERATION_STEP,
            final(self).viewport == old(self).viewport,
            final(self).resolution == old(self).resolution,
            final(self).color == old(self).color,
            final(self).cells@ == old(self).cells@,
    {
        self.max_iterations = self.max_iterations + ITERATION_STEP;
    }

    /// Lower the iteration budget by one step; a step that would take the
    /// budget to or below the step size is refused and changes nothing.
    pub fn less_iterations(&mut self)
        requires
            old(self).wf(),
        ensures
            final(self).wf(),
            final(self).max_iterations == (if old(self).max_iterations > 2 * ITERATION_STEP {
                (old(self).max_iterations - ITERATION_STEP) as u32
            } else {
                old(self).max_iterations
            }),
            final(self).viewport == old(self).viewport,
            final(self).resolution == old(self).resolution,
            final(self).color == old(self).color,
            final(self).cells@ == old(self).cells@,
    {
        if self.max_iterations > 2 * ITERATION_STEP {
            self.max_iterations = self.max_iterations - ITERATION_STEP;
        }
    }

    /// Shift the viewport by one step per direction flag; the field must
    /// then be recomputed.
    pub fn pan(&mut self, up: bool, down: bool, left: bool, right: bool)
        requires
            old(self).wf(),
        ensures
            final(self).wf(),
            final(self).viewport == old(self).viewport.pan_result(up, down, left, right),
            final(self).resolution == old(self).resolution,
            final(self).max_iterations == old(self).max_iterations,
            final(self).color == old(self).color,
            final(self).cells@ == old(self).cells@,
    {
        self.viewport.pan(up, down, left, right);
    }

    /// Zoom in by one step; the field must then be recomputed.
    pub fn zoom_in(&mut self)
        requires
            old(self).wf(),
        ensures
            final(self).wf(),
            final(self).viewport == old(self).viewport.zoom_in_result(),
            final(self).resolution == old(self).resolution,
            final(self).max_iterations == old(self).max_iterations,
            final(self).color == old(self).color,
            final(self).cells@ == old(self).cells@,
    {
        self.viewport.zoom_in();
    }

    /// Zoom out by one step; the field must then be recomputed.
    pub fn zoom_out(&mut self)
        requires
            old(self).wf(),
        ensures
            final(self).wf(),
            final(self).viewport == old(self).viewport.zoom_out_result(),
            final(self).resolution == old(self).resolution,
            final(self).max_iterations == old(self).max_iterations,
            final(self).color == old(self).color,
            final(self).cells@ == old(self).cells@,
    {
        self.viewport.zoom_out();
    }

    /// Select the colour mapping applied at draw time.  The stored
    /// intensities are untouched.
    pub fn set_color_map(&mut self, map: ColorMap)
        requires
            old(self).wf(),
        ensures
            final(self).wf(),
            final(self).color == map,
            final(self).viewport == old(self).viewport,
            final(self).resolution == old(self).resolution,
            final(self).max_iterations == old(self).max_iterations,
            final(self).cells@ == old(self).cells@,
    {
        self.color = map;
    }
}

/// The intensity of one cell, from the axis minima and precomputed steps.
fn compute_cell(
    re_min: i64,
    im_min: i64,
    re_step: i64,
    im_step: i64,
    resolution: usize,
    max_iterations: u32,
    i: usize,
) -> (c: u8)
    requires
        1 <= resolution <= MAX_RESOLUTION,
        i < resolution * resolution,
        1 <= max_iterations,
        0 <= re_step,
        0 <= im_step,
        -COORD_MAX <= re_min <= COORD_MAX,
        -COORD_MAX <= im_min <= COORD_MAX,
        re_min + re_step * (resolution - 1) <= COORD_MAX,
        im_min + im_step * (resolution - 1) <= COORD_MAX,
    ensures
        c == cell_at(
            re_min as int,
            im_min as int,
            re_step as int,
            im_step as int,
            resolution as int,
            max_iterations as nat,
            i as int,
        ),
{
    let x: usize = i % resolution;
    let y: usize = i / resolution;
    proof {
        vstd::arithmetic::div_mod::lemma_mod_bound(i as int, resolution as int);
        vstd::arithmetic::div_mod::lemma_multiply_divide_lt(
            i as int,
            resolution as int,
            resolution as int,
        );
        vstd::arithmetic::mul::lemma_mul_inequality(x as int, resolution as int - 1, re_step as int);
        vstd::arithmetic::mul::lemma_mul_inequality(y as int, resolution as int - 1, im_step as int);
        vstd::arithmetic::mul::lemma_mul_is_commutative(x as int, re_step as int);
        vstd::arithmetic::mul::lemma_mul_is_commutative(y as int, im_step as int);
        vstd::arithmetic::mul::lemma_mul_is_commutative(resolution as int - 1, re_step as int);
        vstd::arithmetic::mul::lemma_mul_is_commutative(resolution as int - 1, im_step as int);
        vstd::arithmetic::mul::lemma_mul_nonnegative(re_step as int, x as int);
        vstd::arithmetic::mul::lemma_mul_nonnegative(im_step as int, y as int);
    }
    let re: i64 = re_min + re_step * (x as i64);
    let im: i64 = im_min + im_step * (y as i64);
    MandelbrotSet::normalize(MandelbrotSet::mandelbrot(re, im, max_iterations), max_iterations)
}

/// Relies on rayon: `par_iter_mut` hands each cell of the buffer to the
/// closure exactly once, paired by `enumerate` with its index, and
/// `for_each` runs the closure on every one.  The closure stores what the
/// verified `compute_cell` returns for that index and touches nothing else.
#[verifier::external_body]
fn fill_cells(
    cells: &mut Vec<u8>,
    re_min: i64,
    im_min: i64,
    re_step: i64,
    im_step: i64,
    resolution: usize,
    max_iterations: u32,
)
    requires
        old(cells).len() == resolution * resolution,
        1 <= resolution <= MAX_RESOLUTION,
        1 <= max_iterations,
        0 <= re_step,
        0 <= im_step,
        -COORD_MAX <= re_min <= COORD_MAX,
        -COORD_MAX <= im_min <= COORD_MAX,
        re_min + re_step * (resolution - 1) <= COORD_MAX,
        im_min + im_step * (resolution - 1) <= COORD_MAX,
    ensures
        final(cells).len() == old(cells).len(),
        forall|i: int| 0 <= i < final(cells).len() ==> final(cells)@[i] == cell_at(
            re_min as int,
            im_min as int,
            re_step as int,
            im_step as int,
            resolution as int,
            max_iterations as nat,
            i,
        ),
{
    cells.par_iter_mut().enumerate().for_each(|(i, cell)| {
        *cell = compute_cell(re_min, im_min, re_step, im_step, resolution, max_iterations, i);
    });
}

} // verus!
