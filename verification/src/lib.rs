//! A software triangle rasterizer built on exact arithmetic.
//!
//! The pipeline transforms mesh vertices through a view / projection /
//! viewport matrix chain, then rasterizes each triangle into a pixel
//! buffer with a depth test and barycentric color interpolation.  All
//! coordinates and matrix entries are rational numbers held as integer
//! numerator/denominator pairs, so every step is exact and fully
//! specified.

pub mod canvas;
pub mod graphics;
pub mod matrix;
pub mod raster;
pub mod render;
pub mod rat;
pub mod vec;
