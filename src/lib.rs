//! Binarisation of grayscale pixel grids by dithering.
//!
//! A [`grid::Grid`] holds 8-bit luminance samples in row-major order. Four
//! routines turn it into a grid of the same size whose samples are all 0 or
//! 255: Floyd–Steinberg and Atkinson error diffusion, ordered (Bayer matrix)
//! dithering, and a flat threshold. [`dispatch::select_algorithm`] picks one
//! of them by name.

pub mod grid;
pub mod pointwise;
pub mod diffusion;
pub mod dispatch;
pub mod laws;
