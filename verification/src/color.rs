//! Colour mappings from normalized intensities to RGB triples.
//!
//! A mapping is a pure function of the 8-bit intensity alone.  The hue
//! mapping walks the colour wheel at full saturation and value: intensity 0
//! is red and the wheel wraps around once over the intensity range.  Its
//! piecewise-linear channels are computed exactly in integer arithmetic,
//! in units of 1/255 scaled by 85.

use vstd::prelude::*;

verus! {

/// A colour mapping strategy, dispatched at render time.
#[derive(Clone, Copy, PartialEq, Eq, Structural, Debug)]
pub enum ColorMap {
    /// Intensity becomes the grey `(c, c, c)`.
    Grayscale,
    /// Intensity becomes a hue on the colour wheel.
    Hue,
}

/// Position on the hue wheel for intensity `c` and channel offset `n`,
/// scaled so that one sixth of the wheel spans 85 units.
pub open spec fn hue_pos(c: int, n: int) -> int {
    (85 * n + 2 * c) % 510
}

/// One channel of the hue mapping: the distance of the wheel position from
/// the channel's peak, clamped to one sixth of the wheel, taken off white.
pub open spec fn hue_channel(c: int, n: int) -> int {
    let k = hue_pos(c, n);
    let t = if k <= 340 - k {
        k
    } else {
        340 - k
    };
    let m = if t < 0 {
        0
    } else if t > 85 {
        85
    } else {
        t
    };
    255 - 3 * m
}

/// The RGB triple a mapping assigns to an intensity.
pub open spec fn rgb_spec(map: ColorMap, c: u8) -> (int, int, int) {
    match map {
        ColorMap::Grayscale => (c as int, c as int, c as int),
        ColorMap::Hue => (
            hue_channel(c as int, 5),
            hue_channel(c as int, 3),
            hue_channel(c as int, 1),
        ),
    }
}

/// One hue channel, executed in plain integer arithmetic.
fn hue_channel_at(c: u8, n: u32) -> (r: u8)
    requires
        n <= 5,
    ensures
        r as int == hue_channel(c as int, n as int),
{
    let k: u32 = (85 * n + 2 * (c as u32)) % 510;
    let ki: i32 = k as i32;
    let t: i32 = if ki <= 340 - ki {
        ki
    } else {
        340 - ki
    };
    let m: i32 = if t < 0 {
        0
    } else if t > 85 {
        85
    } else {
        t
    };
    (255 - 3 * m) as u8
}

impl ColorMap {
    /// The RGB triple for a normalized intensity.
    pub fn rgb(self, c: u8) -> (rgb: (u8, u8, u8))
        ensures
            rgb.0 as int == rgb_spec(self, c).0,
            rgb.1 as int == rgb_spec(self, c).1,
            rgb.2 as int == rgb_spec(self, c).2,
    {
        match self {
            ColorMap::Grayscale => (c, c, c),
            ColorMap::Hue => (hue_channel_at(c, 5), hue_channel_at(c, 3), hue_channel_at(c, 1)),
        }
    }
}

} // verus!
