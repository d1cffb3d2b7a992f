//! A software rasterizer: triangulated 3D geometry is transformed by
//! model/view/projection matrices, scan-converted with barycentric
//! inside-tests, depth-tested, shaded (diffuse lighting, nearest-neighbour
//! texture sampling, gamma correction) and written into a colour + depth
//! framebuffer.
//!
//! All real-valued quantities (coordinates, depths, colour channels in
//! `[0, 1]`) are carried as fixed-point integers scaled by
//! [`fixed::FX_ONE`], so every stage has an exact arithmetic meaning.

use vstd::prelude::*;

pub mod fixed;
pub mod framebuffer;
pub mod geometry;
pub mod image;
pub mod math;
pub mod pipeline;
pub mod rasterizer;
pub mod texture;
pub mod vertex;

verus! {

/// The failures the pipeline can surface; everything else (degenerate
/// triangles, texture coordinates outside `[0, 1]`) is recovered from by
/// skipping or clamping.
#[derive(Clone, Copy, PartialEq, Eq, Structural, Debug)]
pub enum RenderError {
    /// A framebuffer was requested with a non-positive width or height.
    InvalidDimensions,
    /// The per-vertex attribute arrays do not all have the same length.
    AttributeLengthMismatch,
    /// Shading was requested with no texture bound.
    MissingTexture,
}

} // verus!
