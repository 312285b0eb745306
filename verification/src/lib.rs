//! Terminal renderer for the Mandelbrot set.
//!
//! The library samples a rectangular region of the complex plane on a
//! character grid, maps escape-time counts to display glyphs, and drives an
//! interactive pan/zoom session from decoded keyboard bytes.  Plane
//! coordinates are held in a fixed-point encoding (millionths), so every
//! computation is exact integer arithmetic with a verified contract.

pub mod config;
pub mod fixed;
pub mod input;
pub mod kernel;
pub mod palette;
pub mod render;
pub mod session;
pub mod text;
pub mod viewport;
