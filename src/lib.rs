//! The exact core of a software rasterizer.
//!
//! - `math`: vectors over exact integers, RGBA colours and their blending.
//! - `image`: row-major pixel grids, texel lookup and pixel-format decoding.
//! - `viewport`: the pixel rectangle a draw may touch.
//! - `raster`: winding and cull decisions, depth tests, index triples.
//! - `clip`: clipping triangles against the near and far planes.
//! - `command`: the pipeline state and how a fragment meets the depth buffer.
//! - `draw`: the pixel traversal that writes fragments.
//! - `triangle`: integer screen-space triangles, drawn exactly.

pub mod math;
pub mod image;
pub mod raster;
pub mod clip;
pub mod viewport;
pub mod command;
pub mod draw;
pub mod triangle;
