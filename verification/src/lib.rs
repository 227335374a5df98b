//! A 2-D N-body gravity simulation core over fixed-point coordinates.
//!
//! All physical quantities are integers in milli-units (one pixel is
//! `SCALE` position units, one second is `SCALE` time units): pairwise
//! gravitational forces, damped Euler integration and elastic boundary
//! reflection are all exact integer computations with verified contracts.
//! A frontend owns the window, input and drawing, and advances the
//! simulation once per frame.

pub mod limits;
pub mod math;
pub mod vec2;
pub mod body;
pub mod rng;
pub mod forces;
pub mod motion;
pub mod boundary;
pub mod sim;
