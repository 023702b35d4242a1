//! The discrete core of a Whitted-style ray tracer: nearest-hit selection,
//! shadow and albedo rules, the reflection bounce budget, the pixel grid and
//! its walk, and texture lookup in an environment image.
//!
//! Distances reach this crate as order keys: any `u64` that orders as the
//! distances do. For a non-negative `f64` its bit pattern (`f64::to_bits`) is
//! such a key, positive infinity included.

pub mod trace;
pub mod screen;
pub mod color;
pub mod background;
