//! The visible rectangle of the complex plane.
//!
//! A viewport is a pair of closed intervals in fixed-point coordinates with
//! `re_min < re_max` and `im_min < im_max`.  Pan and zoom steps move the
//! bounds by a tenth of the current range of each axis; a step that would
//! push a bound past `COORD_MAX` is refused whole and leaves the viewport
//! unchanged.

use vstd::prelude::*;
use crate::fixed::{COORD_MAX, div_pos};

verus! {

/// Default viewport bound, fixed point: the square `[-2, 2] x [-2, 2]`.
pub const DEFAULT_MIN: i64 = -200_000_000;

/// Default viewport bound, fixed point: the square `[-2, 2] x [-2, 2]`.
pub const DEFAULT_MAX: i64 = 200_000_000;

/// A pan or zoom step moves a bound by the range over this divisor: 10%.
pub const STEP_DIVISOR: i64 = 10;

/// The rectangle of the complex plane mapped onto the pixel grid.
#[derive(Clone, Copy, PartialEq, Eq, Structural, Debug)]
pub struct Viewport {
    pub re_min: i64,
    pub re_max: i64,
    pub im_min: i64,
    pub im_max: i64,
}

impl Viewport {
    /// The canonical default view as a value: the square `[-2, 2] x [-2, 2]`.
    pub open spec fn spec_default() -> Viewport {
        Viewport {
            re_min: DEFAULT_MIN,
            re_max: DEFAULT_MAX,
            im_min: DEFAULT_MIN,
            im_max: DEFAULT_MAX,
        }
    }

    /// Both axes are nonempty intervals within the coordinate range.
    pub open spec fn wf(self) -> bool {
        &&& -COORD_MAX <= self.re_min < self.re_max <= COORD_MAX
        &&& -COORD_MAX <= self.im_min < self.im_max <= COORD_MAX
    }

    /// Width of the real axis.
    pub open spec fn re_range(self) -> int {
        self.re_max - self.re_min
    }

    /// Height of the imaginary axis.
    pub open spec fn im_range(self) -> int {
        self.im_max - self.im_min
    }

    /// Size of one pan/zoom step on an axis: a tenth of its range.
    pub open spec fn step_size(range: int) -> int {
        range / (STEP_DIVISOR as int)
    }

    /// Net shift of one axis from a pair of opposite direction flags.
    pub open spec fn net_shift(pos: bool, neg: bool, step: int) -> int {
        (if pos { step } else { 0 }) - (if neg { step } else { 0 })
    }

    /// Whether translating by `dre`, `dim` keeps all bounds in range.
    pub open spec fn can_translate(self, dre: int, dim: int) -> bool {
        &&& -COORD_MAX <= self.re_min + dre
        &&& self.re_max + dre <= COORD_MAX
        &&& -COORD_MAX <= self.im_min + dim
        &&& self.im_max + dim <= COORD_MAX
    }

    /// The viewport translated by `dre`, `dim`.
    pub open spec fn translated(self, dre: int, dim: int) -> Viewport {
        Viewport {
            re_min: (self.re_min + dre) as i64,
            re_max: (self.re_max + dre) as i64,
            im_min: (self.im_min + dim) as i64,
            im_max: (self.im_max + dim) as i64,
        }
    }

    /// What one pan call does: the four direction flags combine additively,
    /// each contributing one step of its axis; a pan that would leave the
    /// coordinate range is a no-op.
    pub open spec fn pan_result(self, up: bool, down: bool, left: bool, right: bool) -> Viewport {
        let dre = Self::net_shift(right, left, Self::step_size(self.re_range()));
        let dim = Self::net_shift(up, down, Self::step_size(self.im_range()));
        if self.can_translate(dre, dim) {
            self.translated(dre, dim)
        } else {
            self
        }
    }

    /// What one zoom-in step does: both axes shrink symmetrically around
    /// their center by one step on each side.
    pub open spec fn zoom_in_result(self) -> Viewport {
        let dre = Self::step_size(self.re_range());
        let dim = Self::step_size(self.im_range());
        Viewport {
            re_min: (self.re_min + dre) as i64,
            re_max: (self.re_max - dre) as i64,
            im_min: (self.im_min + dim) as i64,
            im_max: (self.im_max - dim) as i64,
        }
    }

    /// Whether widening by `dre`, `dim` keeps all bounds in range.
    pub open spec fn can_widen(self, dre: int, dim: int) -> bool {
        &&& -COORD_MAX <= self.re_min - dre
        &&& self.re_max + dre <= COORD_MAX
        &&& -COORD_MAX <= self.im_min - dim
        &&& self.im_max + dim <= COORD_MAX
    }

    /// What one zoom-out step does: the negation of a zoom-in step, refused
    /// whole if a bound would leave the coordinate range.
    pub open spec fn zoom_out_result(self) -> Viewport {
        let dre = Self::step_size(self.re_range());
        let dim = Self::step_size(self.im_range());
        if self.can_widen(dre, dim) {
            Viewport {
                re_min: (self.re_min - dre) as i64,
                re_max: (self.re_max + dre) as i64,
                im_min: (self.im_min - dim) as i64,
                im_max: (self.im_max + dim) as i64,
            }
        } else {
            self
        }
    }

    /// Shift the viewport by one step per direction flag.
    pub fn pan(&mut self, up: bool, down: bool, left: bool, right: bool)
        requires
            old(self).wf(),
        ensures
            final(self).wf(),
            *final(self) == old(self).pan_result(up, down, left, right),
    {
        let re_step: i64 = div_pos(self.re_max - self.re_min, STEP_DIVISOR);
        let im_step: i64 = div_pos(self.im_max - self.im_min, STEP_DIVISOR);
        proof {
            vstd::arithmetic::div_mod::lemma_div_nonincreasing(old(self).re_range(), STEP_DIVISOR as int);
            vstd::arithmetic::div_mod::lemma_div_nonincreasing(old(self).im_range(), STEP_DIVISOR as int);
            vstd::arithmetic::div_mod::lemma_div_pos_is_pos(old(self).re_range(), STEP_DIVISOR as int);
            vstd::arithmetic::div_mod::lemma_div_pos_is_pos(old(self).im_range(), STEP_DIVISOR as int);
        }
        let dre: i64 = (if right { re_step } else { 0 }) - (if left { re_step } else { 0 });
        let dim: i64 = (if up { im_step } else { 0 }) - (if down { im_step } else { 0 });
        if -COORD_MAX <= self.re_min + dre && self.re_max + dre <= COORD_MAX
            && -COORD_MAX <= self.im_min + dim && self.im_max + dim <= COORD_MAX {
            self.re_min = self.re_min + dre;
            self.re_max = self.re_max + dre;
            self.im_min = self.im_min + dim;
            self.im_max = self.im_max + dim;
        }
    }

    /// Shrink both axes symmetrically by one step on each side.
    pub fn zoom_in(&mut self)
        requires
            old(self).wf(),
        ensures
            final(self).wf(),
            *final(self) == old(self).zoom_in_result(),
    {
        let dre: i64 = div_pos(self.re_max - self.re_min, STEP_DIVISOR);
        let dim: i64 = div_pos(self.im_max - self.im_min, STEP_DIVISOR);
        proof {
            lemma_step_keeps_axis_nonempty(old(self).re_range());
            lemma_step_keeps_axis_nonempty(old(self).im_range());
        }
        self.re_min = self.re_min + dre;
        self.re_max = self.re_max - dre;
        self.im_min = self.im_min + dim;
        self.im_max = self.im_max - dim;
    }

    /// Grow both axes symmetrically by one step on each side; a step that
    /// would leave the coordinate range is a no-op.
    pub fn zoom_out(&mut self)
        requires
            old(self).wf(),
        ensures
            final(self).wf(),
            *final(self) == old(self).zoom_out_result(),
    {
        let dre: i64 = div_pos(self.re_max - self.re_min, STEP_DIVISOR);
        let dim: i64 = div_pos(self.im_max - self.im_min, STEP_DIVISOR);
        proof {
            vstd::arithmetic::div_mod::lemma_div_nonincreasing(old(self).re_range(), STEP_DIVISOR as int);
            vstd::arithmetic::div_mod::lemma_div_nonincreasing(old(self).im_range(), STEP_DIVISOR as int);
            vstd::arithmetic::div_mod::lemma_div_pos_is_pos(old(self).re_range(), STEP_DIVISOR as int);
            vstd::arithmetic::div_mod::lemma_div_pos_is_pos(old(self).im_range(), STEP_DIVISOR as int);
        }
        if -COORD_MAX <= self.re_min - dre && self.re_max + dre <= COORD_MAX
            && -COORD_MAX <= self.im_min - dim && self.im_max + dim <= COORD_MAX {
            self.re_min = self.re_min - dre;
            self.re_max = self.re_max + dre;
            self.im_min = self.im_min - dim;
            self.im_max = self.im_max + dim;
        }
    }
}

impl Default for Viewport {
    /// The canonical default view, the square `[-2, 2] x [-2, 2]`.
    fn default() -> (v: Viewport)
        ensures
            v == Viewport::spec_default(),
            v.wf(),
    {
        Viewport {
            re_min: DEFAULT_MIN,
            re_max: DEFAULT_MAX,
            im_min: DEFAULT_MIN,
            im_max: DEFAULT_MAX,
        }
    }
}

/// Two zoom steps cannot empty an axis: the interval shrunk from both sides
/// by a tenth of its width keeps a positive width.
proof fn lemma_step_keeps_axis_nonempty(range: int)
    requires
        range >= 1,
    ensures
        0 <= Viewport::step_size(range),
        2 * Viewport::step_size(range) < range,
{
    vstd::arithmetic::div_mod::lemma_div_pos_is_pos(range, STEP_DIVISOR as int);
    vstd::arithmetic::div_mod::lemma_fundamental_div_mod(range, STEP_DIVISOR as int);
    vstd::arithmetic::div_mod::lemma_remainder_lower(range, STEP_DIVISOR as int);
}

/// Zooming in and back out returns the viewport to its prior bounds exactly
/// when both axis ranges are below one step's granularity, so that neither
/// step moves a bound.  On any wider viewport the pair narrows the axes:
/// the zoom-out step is a tenth of the already shrunken range.
pub proof fn lemma_zoom_round_trip_fixed_point(v: Viewport)
    requires
        v.wf(),
        v.re_range() < STEP_DIVISOR as int,
        v.im_range() < STEP_DIVISOR as int,
    ensures
        v.zoom_in_result().zoom_out_result() == v,
{
    vstd::arithmetic::div_mod::lemma_basic_div(v.re_range(), STEP_DIVISOR as int);
    vstd::arithmetic::div_mod::lemma_basic_div(v.im_range(), STEP_DIVISOR as int);
}

} // verus!
