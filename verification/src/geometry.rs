//! The geometry stage: per-vertex transform from model space to normalized
//! device coordinates.
//!
//! Each position is taken through the model, view and projection matrices
//! and divided by the resulting `w`; the view matrix is the caller's camera
//! policy (carried in the uniforms), the projection is the stage's fixed
//! perspective. A separate world-space fragment position is computed from
//! the model matrix alone. Normals and texture coordinates pass through
//! unchanged.

use vstd::prelude::*;
use crate::RenderError;
use crate::fixed::FX_BOUND;
use crate::fixed::FX_ONE;
use crate::fixed::clamp_spec;
use crate::fixed::fx_clamp;
use crate::fixed::fx_div;
use crate::fixed::fx_div_spec;
use crate::fixed::fx_mul;
use crate::fixed::fx_mul_spec;
use crate::fixed::lemma_mul_bounds;
use crate::math::Mat4;
use crate::math::Vec2;
use crate::math::Vec3;
use crate::math::Vec4;
use crate::math::mat4_bounded;
use crate::math::mat4_mul_vec4;
use crate::math::mat4_mul_vec4_spec;
use crate::math::vec3_bounded;
use crate::math::vec4_bounded;
use crate::pipeline::Uniforms;

verus! {

/// The fixed projection's aspect ratio, `1280 / 720` in fixed point.
pub const PROJ_ASPECT: i64 = 116053;

/// The fixed projection's `tan(fovy / 2)` for a 90 degree field of view.
pub const PROJ_TAN_HALF_FOVY: i64 = 65280;

/// The fixed projection's near plane.
pub const PROJ_NEAR: i64 = -6528;

/// The fixed projection's far plane.
pub const PROJ_FAR: i64 = -652800;

/// A position as a homogeneous point (`w` one).
pub open spec fn vec4_of_point(p: Vec3) -> Vec4 {
    Vec4 { x: p.x, y: p.y, z: p.z, w: FX_ONE }
}

/// The perspective divide: each component divided by `w` and saturated; a
/// zero `w` yields the origin.
pub open spec fn ndc_of(clip: Vec4) -> Vec3 {
    if clip.w == 0 {
        Vec3 { x: 0, y: 0, z: 0 }
    } else {
        Vec3 {
            x: clamp_spec(
                fx_div_spec(clip.x as int, clip.w as int),
                -FX_BOUND as int,
                FX_BOUND as int,
            ) as i64,
            y: clamp_spec(
                fx_div_spec(clip.y as int, clip.w as int),
                -FX_BOUND as int,
                FX_BOUND as int,
            ) as i64,
            z: clamp_spec(
                fx_div_spec(clip.z as int, clip.w as int),
                -FX_BOUND as int,
                FX_BOUND as int,
            ) as i64,
        }
    }
}

/// The clip-space position: projection times view times model times the
/// homogeneous point.
pub open spec fn clip_of(p: Vec3, model: Mat4, view: Mat4, proj: Mat4) -> Vec4 {
    mat4_mul_vec4_spec(proj, mat4_mul_vec4_spec(view, mat4_mul_vec4_spec(model, vec4_of_point(p))))
}

/// The world-space position: the model matrix times the homogeneous point.
pub open spec fn world_of(p: Vec3, model: Mat4) -> Vec4 {
    mat4_mul_vec4_spec(model, vec4_of_point(p))
}

/// A right-handed perspective matrix with depth mapped to `[0, 1]`, over
/// the caller's `tan(fovy / 2)`; entries are saturated fixed-point values.
pub open spec fn perspective_spec(aspect: int, tan_half_fovy: int, near: int, far: int) -> Mat4 {
    Mat4 {
        r0: Vec4 {
            x: clamp_spec(
                fx_div_spec(FX_ONE as int, fx_mul_spec(aspect, tan_half_fovy)),
                -FX_BOUND as int,
                FX_BOUND as int,
            ) as i64,
            y: 0,
            z: 0,
            w: 0,
        },
        r1: Vec4 {
            x: 0,
            y: clamp_spec(
                fx_div_spec(FX_ONE as int, tan_half_fovy),
                -FX_BOUND as int,
                FX_BOUND as int,
            ) as i64,
            z: 0,
            w: 0,
        },
        r2: Vec4 {
            x: 0,
            y: 0,
            z: clamp_spec(fx_div_spec(far, near - far), -FX_BOUND as int, FX_BOUND as int) as i64,
            w: clamp_spec(
                -fx_div_spec(fx_mul_spec(far, near), far - near),
                -FX_BOUND as int,
                FX_BOUND as int,
            ) as i64,
        },
        r3: Vec4 { x: 0, y: 0, z: (-FX_ONE) as i64, w: 0 },
    }
}

/// The geometry stage's fixed projection: a 90 degree field of view at a
/// 1280 by 720 aspect ratio, with negated near and far planes (a
/// handedness quirk kept for the depth ordering it produces).
pub open spec fn projection_spec() -> Mat4 {
    perspective_spec(PROJ_ASPECT as int, PROJ_TAN_HALF_FOVY as int, PROJ_NEAR as int, PROJ_FAR
        as int)
}

/// The NDC position a vertex is transformed to under the frame's uniforms.
pub open spec fn transformed_position(p: Vec3, u: Uniforms) -> Vec3 {
    ndc_of(clip_of(p, u.model_mat, u.view_mat, projection_spec()))
}

/// The world-space fragment position of a vertex under the frame's
/// uniforms.
pub open spec fn frag_position(p: Vec3, u: Uniforms) -> Vec3 {
    ndc_of(world_of(p, u.model_mat))
}

/// Builds a right-handed perspective matrix with depth in `[0, 1]`.
pub fn perspective(aspect: i64, tan_half_fovy: i64, near: i64, far: i64) -> (r: Mat4)
    requires
        -FX_BOUND <= aspect <= FX_BOUND,
        -FX_BOUND <= tan_half_fovy <= FX_BOUND,
        -FX_BOUND <= near <= FX_BOUND,
        -FX_BOUND <= far <= FX_BOUND,
        tan_half_fovy != 0,
        near != far,
        fx_mul_spec(aspect as int, tan_half_fovy as int) != 0,
    ensures
        r == perspective_spec(aspect as int, tan_half_fovy as int, near as int, far as int),
        mat4_bounded(r),
{
    proof {
        lemma_mul_bounds(aspect as int, tan_half_fovy as int, FX_BOUND as int, FX_BOUND as int);
        lemma_mul_bounds(far as int, near as int, FX_BOUND as int, FX_BOUND as int);
    }
    let at = fx_mul(aspect, tan_half_fovy);
    let m00 = fx_clamp(fx_div(FX_ONE, at), -FX_BOUND, FX_BOUND);
    let m11 = fx_clamp(fx_div(FX_ONE, tan_half_fovy), -FX_BOUND, FX_BOUND);
    let m22 = fx_clamp(fx_div(far, near - far), -FX_BOUND, FX_BOUND);
    let fn_over = fx_mul(far, near);
    let m23 = fx_clamp(-fx_div(fn_over, far - near), -FX_BOUND, FX_BOUND);
    Mat4 {
        r0: Vec4 { x: m00, y: 0, z: 0, w: 0 },
        r1: Vec4 { x: 0, y: m11, z: 0, w: 0 },
        r2: Vec4 { x: 0, y: 0, z: m22, w: m23 },
        r3: Vec4 { x: 0, y: 0, z: -FX_ONE, w: 0 },
    }
}

/// Divides a clip-space position by its `w`.
fn perspective_divide(clip: &Vec4) -> (r: Vec3)
    requires
        vec4_bounded(*clip),
    ensures
        r == ndc_of(*clip),
        vec3_bounded(r),
{
    if clip.w == 0 {
        Vec3 { x: 0, y: 0, z: 0 }
    } else {
        Vec3 {
            x: fx_clamp(fx_div(clip.x, clip.w), -FX_BOUND, FX_BOUND),
            y: fx_clamp(fx_div(clip.y, clip.w), -FX_BOUND, FX_BOUND),
            z: fx_clamp(fx_div(clip.z, clip.w), -FX_BOUND, FX_BOUND),
        }
    }
}

/// The geometry stage.
pub struct Geometry {}

/// The geometry stage's input: the triangle-ordered vertex attribute
/// arrays and the frame's uniforms.
pub struct GeometryInput {
    pub positions: Vec<Vec3>,
    pub normals: Vec<Vec3>,
    pub uv_coords: Vec<Vec2>,
    pub uniforms: Uniforms,
}

/// The geometry stage's output: NDC positions, the untouched normals and
/// texture coordinates, and the world-space fragment positions.
pub struct GeometryOutput {
    pub positions: Vec<Vec3>,
    pub normals: Vec<Vec3>,
    pub uv_coords: Vec<Vec2>,
    pub frag_pos: Vec<Vec3>,
}

impl Geometry {
    /// Runs the stage: the vertex shader over every vertex.
    pub fn run(&mut self, input: GeometryInput) -> (r: Result<GeometryOutput, RenderError>)
        requires
            input.uniforms.well_formed(),
            forall|i: int|
                0 <= i < input.positions@.len() ==> vec3_bounded(#[trigger] input.positions@[i]),
        ensures
            r is Err <==> !(input.positions@.len() == input.normals@.len()
                && input.positions@.len() == input.uv_coords@.len()),
            r is Err ==> r == Err::<GeometryOutput, RenderError>(
                RenderError::AttributeLengthMismatch,
            ),
            r is Ok ==> ({
                let out = r->Ok_0;
                &&& out.positions@.len() == input.positions@.len()
                &&& out.frag_pos@.len() == input.positions@.len()
                &&& out.normals@ == input.normals@
                &&& out.uv_coords@ == input.uv_coords@
                &&& forall|i: int|
                    0 <= i < input.positions@.len() ==> #[trigger] out.positions@[i]
                        == transformed_position(input.positions@[i], input.uniforms)
                &&& forall|i: int|
                    0 <= i < input.positions@.len() ==> #[trigger] out.frag_pos@[i]
                        == frag_position(input.positions@[i], input.uniforms)
            }),
    {
        self.vertex_shader(input)
    }

    /// Transforms every position to NDC through the model, view and fixed
    /// projection matrices with a perspective divide, computes world-space
    /// fragment positions through the model matrix, and passes normals and
    /// texture coordinates through; arrays of unequal length are refused
    /// before any transform runs.
    pub fn vertex_shader(&mut self, input: GeometryInput) -> (r: Result<
        GeometryOutput,
        RenderError,
    >)
        requires
            input.uniforms.well_formed(),
            forall|i: int|
                0 <= i < input.positions@.len() ==> vec3_bounded(#[trigger] input.positions@[i]),
        ensures
            r is Err <==> !(input.positions@.len() == input.normals@.len()
                && input.positions@.len() == input.uv_coords@.len()),
            r is Err ==> r == Err::<GeometryOutput, RenderError>(
                RenderError::AttributeLengthMismatch,
            ),
            r is Ok ==> ({
                let out = r->Ok_0;
                &&& out.positions@.len() == input.positions@.len()
                &&& out.frag_pos@.len() == input.positions@.len()
                &&& out.normals@ == input.normals@
                &&& out.uv_coords@ == input.uv_coords@
                &&& forall|i: int|
                    0 <= i < input.positions@.len() ==> #[trigger] out.positions@[i]
                        == transformed_position(input.positions@[i], input.uniforms)
                &&& forall|i: int|
                    0 <= i < input.positions@.len() ==> #[trigger] out.frag_pos@[i]
                        == frag_position(input.positions@[i], input.uniforms)
            }),
    {
        if input.positions.len() != input.normals.len() || input.positions.len()
            != input.uv_coords.len() {
            return Err(RenderError::AttributeLengthMismatch);
        }
        let projection = perspective(PROJ_ASPECT, PROJ_TAN_HALF_FOVY, PROJ_NEAR, PROJ_FAR);
        proof {
            assert(projection == projection_spec());
        }
        let view = input.uniforms.view_mat;
        let model = input.uniforms.model_mat;
        let n = input.positions.len();
        let mut positions: Vec<Vec3> = Vec::new();
        let mut frags_pos: Vec<Vec3> = Vec::new();
        let mut i: usize = 0;
        while i < n
            invariant
                i <= n,
                n == input.positions@.len(),
                positions@.len() == i,
                frags_pos@.len() == i,
                projection == projection_spec(),
                view == input.uniforms.view_mat,
                model == input.uniforms.model_mat,
                input.uniforms.well_formed(),
                forall|j: int|
                    0 <= j < input.positions@.len() ==> vec3_bounded(
                        #[trigger] input.positions@[j],
                    ),
                forall|j: int|
                    0 <= j < i ==> #[trigger] positions@[j] == transformed_position(
                        input.positions@[j],
                        input.uniforms,
                    ),
                forall|j: int|
                    0 <= j < i ==> #[trigger] frags_pos@[j] == frag_position(
                        input.positions@[j],
                        input.uniforms,
                    ),
            decreases n - i,
        {
            let p = input.positions[i];
            let hp = Vec4 { x: p.x, y: p.y, z: p.z, w: FX_ONE };
            let clip = mat4_mul_vec4(&projection, &mat4_mul_vec4(&view, &mat4_mul_vec4(
                &model,
                &hp,
            )));
            positions.push(perspective_divide(&clip));
            let world = mat4_mul_vec4(&model, &hp);
            frags_pos.push(perspective_divide(&world));
            i = i + 1;
        }
        Ok(
            GeometryOutput {
                positions,
                normals: input.normals,
                uv_coords: input.uv_coords,
                frag_pos: frags_pos,
            },
        )
    }
}

} // verus!
