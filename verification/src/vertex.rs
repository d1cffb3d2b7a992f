//! A single vertex's attributes.

use vstd::prelude::*;
use crate::math::Vec2;
use crate::math::Vec3;

verus! {

/// One vertex: its position, a colour, and a texture coordinate, all in
/// fixed point.
#[derive(Clone, Copy, PartialEq, Eq, Structural, Debug)]
pub struct Vertex {
    pub position: Vec3,
    pub color: Vec3,
    pub uv: Vec2,
}

} // verus!
