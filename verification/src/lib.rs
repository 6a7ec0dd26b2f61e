//! A verified Mandelbrot-set rendering engine.
//!
//! The complex plane is modelled in decimal fixed point: a coordinate is an
//! `i64` counting multiples of `1 / fixed::SCALE`.  On that model the crate
//! proves the escape-time evaluator, the pixel-to-coordinate mapping, the
//! normalization of iteration counts to 8-bit intensities, the colour
//! mappings, and the pan/zoom/budget operations on the viewport.  The only
//! unverified step is the data-parallel fill of the cell buffer, which hands
//! each cell to a verified per-cell function through rayon.

pub mod color;
pub mod escape;
pub mod fixed;
pub mod render;
pub mod viewport;
