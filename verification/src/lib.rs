//! Hachure fill: fills polygons with evenly spaced parallel lines.
//!
//! Coordinates are fixed-point values: an `i64` counts micro-units, so one
//! geometric unit is `SCALE` (1 000 000) micro-units. All arithmetic is
//! saturating and truncating, which keeps every operation total and the
//! whole computation deterministic.

pub mod fixed;
pub mod trig;
pub mod geometry;
pub mod scanline;
pub mod hachure;
pub mod laws;
