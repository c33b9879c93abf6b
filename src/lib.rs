//! Escape-time rendering of the Mandelbrot set: the step-by-step escape
//! decision, the mapping from escape steps to colors, and the assembly of the
//! image from independently computed row tiles.

pub mod mandelbrot;
pub mod palette;
pub mod render;
