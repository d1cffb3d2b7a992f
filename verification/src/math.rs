//! Fixed-point vectors and matrices.
//!
//! Every component is a fixed-point scalar (see [`crate::fixed`]). To keep
//! all intermediate products inside the machine integers, the pipeline's
//! values are kept within `[-FX_BOUND, FX_BOUND]`; the operations here
//! saturate to that interval, which for scene-sized values is never reached.

use vstd::prelude::*;
use crate::fixed::FX_ONE;
use crate::fixed::FX_BOUND;
use crate::fixed::clamp_spec;
use crate::fixed::trunc_div;
use crate::fixed::trunc_div_i128;
use crate::fixed::lemma_mul_bound;

verus! {

/// A two-component fixed-point vector (texture coordinates).
#[derive(Clone, Copy, PartialEq, Eq, Structural, Debug)]
pub struct Vec2 {
    pub x: i64,
    pub y: i64,
}

/// A three-component fixed-point vector (positions, normals, colours).
#[derive(Clone, Copy, PartialEq, Eq, Structural, Debug)]
pub struct Vec3 {
    pub x: i64,
    pub y: i64,
    pub z: i64,
}

/// A four-component fixed-point vector (homogeneous positions, RGBA
/// colours).
#[derive(Clone, Copy, PartialEq, Eq, Structural, Debug)]
pub struct Vec4 {
    pub x: i64,
    pub y: i64,
    pub z: i64,
    pub w: i64,
}

/// An integer pixel position.
#[derive(Clone, Copy, PartialEq, Eq, Structural, Debug)]
pub struct IVec2 {
    pub x: i32,
    pub y: i32,
}

/// A 4x4 fixed-point matrix, stored by rows.
#[derive(Clone, Copy, PartialEq, Eq, Structural, Debug)]
pub struct Mat4 {
    pub r0: Vec4,
    pub r1: Vec4,
    pub r2: Vec4,
    pub r3: Vec4,
}

/// All components lie within the pipeline's magnitude bound.
pub open spec fn vec2_bounded(v: Vec2) -> bool {
    -FX_BOUND <= v.x <= FX_BOUND && -FX_BOUND <= v.y <= FX_BOUND
}

/// All components lie within the pipeline's magnitude bound.
pub open spec fn vec3_bounded(v: Vec3) -> bool {
    &&& -FX_BOUND <= v.x <= FX_BOUND
    &&& -FX_BOUND <= v.y <= FX_BOUND
    &&& -FX_BOUND <= v.z <= FX_BOUND
}

/// All components lie within the pipeline's magnitude bound.
pub open spec fn vec4_bounded(v: Vec4) -> bool {
    &&& -FX_BOUND <= v.x <= FX_BOUND
    &&& -FX_BOUND <= v.y <= FX_BOUND
    &&& -FX_BOUND <= v.z <= FX_BOUND
    &&& -FX_BOUND <= v.w <= FX_BOUND
}

/// All entries lie within the pipeline's magnitude bound.
pub open spec fn mat4_bounded(m: Mat4) -> bool {
    vec4_bounded(m.r0) && vec4_bounded(m.r1) && vec4_bounded(m.r2) && vec4_bounded(m.r3)
}

/// The fixed-point dot product of a matrix row with a column vector,
/// saturated to the magnitude bound.
pub open spec fn row_dot_spec(r: Vec4, v: Vec4) -> int {
    clamp_spec(
        trunc_div(r.x * v.x + r.y * v.y + r.z * v.z + r.w * v.w, FX_ONE as int),
        -FX_BOUND as int,
        FX_BOUND as int,
    )
}

/// The matrix applied to a homogeneous vector, row by row.
pub open spec fn mat4_mul_vec4_spec(m: Mat4, v: Vec4) -> Vec4 {
    Vec4 {
        x: row_dot_spec(m.r0, v) as i64,
        y: row_dot_spec(m.r1, v) as i64,
        z: row_dot_spec(m.r2, v) as i64,
        w: row_dot_spec(m.r3, v) as i64,
    }
}

/// One row of the matrix-vector product.
fn row_dot(r: &Vec4, v: &Vec4) -> (out: i64)
    requires
        vec4_bounded(*r),
        vec4_bounded(*v),
    ensures
        out == row_dot_spec(*r, *v),
        -FX_BOUND <= out <= FX_BOUND,
{
    proof {
        lemma_mul_bound(r.x as int, v.x as int, FX_BOUND as int);
        lemma_mul_bound(r.y as int, v.y as int, FX_BOUND as int);
        lemma_mul_bound(r.z as int, v.z as int, FX_BOUND as int);
        lemma_mul_bound(r.w as int, v.w as int, FX_BOUND as int);
    }
    let s: i128 = (r.x as i128) * (v.x as i128) + (r.y as i128) * (v.y as i128) + (r.z as i128)
        * (v.z as i128) + (r.w as i128) * (v.w as i128);
    let q = trunc_div_i128(s, FX_ONE as i128);
    if q < -(FX_BOUND as i128) {
        -FX_BOUND
    } else if q > FX_BOUND as i128 {
        FX_BOUND
    } else {
        q as i64
    }
}

/// Applies a matrix to a homogeneous vector.
pub fn mat4_mul_vec4(m: &Mat4, v: &Vec4) -> (out: Vec4)
    requires
        mat4_bounded(*m),
        vec4_bounded(*v),
    ensures
        out == mat4_mul_vec4_spec(*m, *v),
        vec4_bounded(out),
{
    Vec4 {
        x: row_dot(&m.r0, v),
        y: row_dot(&m.r1, v),
        z: row_dot(&m.r2, v),
        w: row_dot(&m.r3, v),
    }
}

/// The fixed-point dot product of two three-component vectors.
pub open spec fn dot3_spec(a: Vec3, b: Vec3) -> int {
    trunc_div(a.x * b.x + a.y * b.y + a.z * b.z, FX_ONE as int)
}

/// The dot product of two three-component vectors.
pub fn dot3(a: &Vec3, b: &Vec3) -> (out: i64)
    requires
        vec3_bounded(*a),
        vec3_bounded(*b),
    ensures
        out == dot3_spec(*a, *b),
{
    proof {
        lemma_mul_bound(a.x as int, b.x as int, FX_BOUND as int);
        lemma_mul_bound(a.y as int, b.y as int, FX_BOUND as int);
        lemma_mul_bound(a.z as int, b.z as int, FX_BOUND as int);
    }
    let s: i128 = (a.x as i128) * (b.x as i128) + (a.y as i128) * (b.y as i128) + (a.z as i128)
        * (b.z as i128);
    let q = trunc_div_i128(s, FX_ONE as i128);
    q as i64
}

/// The component-wise negation of a vector.
pub open spec fn neg3_spec(v: Vec3) -> Vec3 {
    Vec3 { x: -v.x as i64, y: -v.y as i64, z: -v.z as i64 }
}

/// Negates a vector component-wise.
pub fn neg3(v: &Vec3) -> (out: Vec3)
    requires
        vec3_bounded(*v),
    ensures
        out == neg3_spec(*v),
        vec3_bounded(out),
{
    Vec3 { x: -v.x, y: -v.y, z: -v.z }
}

} // verus!
