//! Escape-time fractal rendering engine.
//!
//! The plane is sampled on a pixel grid; each sample point is iterated under a
//! selectable complex-valued function until its squared magnitude crosses a
//! bailout threshold or an iteration budget is exhausted, and the iteration
//! count is mapped to an RGBA color. All plane arithmetic is exact decimal
//! fixed-point, so every rendered byte is pinned down by the contracts.

pub mod cmath;
pub mod colorizer;
pub mod complex;
pub mod display;
pub mod fgenerator;
pub mod fixed;
pub mod fparams;
pub mod funcs;
