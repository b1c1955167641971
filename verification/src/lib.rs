//! A verified geometry kernel for wave-modulated parametric curves.
//!
//! All scalars are fixed-point values with six decimal places (see
//! [`fixed::SCALE`]): a stored `i64` value `v` stands for the real number
//! `v / 1e6`. On top of that arithmetic the crate derives velocity,
//! arc-length and unit normals from any parametric position function, and
//! displaces the curve along its normal by a sinusoidal function of
//! accumulated arc-length. The `laws` module states and proves the
//! geometric guarantees that hold across all curve families.

pub mod fixed;
pub mod laws;
pub mod line;
pub mod quad;
pub mod trajectory;
pub mod wave;
