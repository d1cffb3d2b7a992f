//! The per-frame pipeline: geometry transform followed by rasterization.

use vstd::prelude::*;
use crate::RenderError;
use crate::geometry::Geometry;
use crate::geometry::GeometryInput;
use crate::geometry::transformed_position;
use crate::math::Mat4;
use crate::math::Vec2;
use crate::math::Vec3;
use crate::math::mat4_bounded;
use crate::math::vec2_bounded;
use crate::math::vec3_bounded;
use crate::rasterizer::Rasterizer;
use crate::rasterizer::RasterizerInput;
use crate::rasterizer::cleared_depth;
use crate::rasterizer::cleared_pixels;
use crate::rasterizer::raster_after;
use crate::rasterizer::screen_pos_spec;
use crate::texture::Texture;

verus! {

/// The immutable per-frame parameters: elapsed time, a unit light
/// direction, the model matrix, the caller's view matrix (the camera is the
/// caller's policy), and the gamma exponent.
///
/// Gamma is a whole exponent: the shading stage raises each channel to
/// `1 / gamma`; `1` leaves colours untouched, the conventional display
/// correction is `2`.
#[derive(Clone, Copy)]
pub struct Uniforms {
    pub time: i64,
    pub sun_light_dir: Vec3,
    pub model_mat: Mat4,
    pub view_mat: Mat4,
    pub gamma: u32,
}

impl Uniforms {
    /// The vectors and matrices are bounded and the gamma exponent is one
    /// the shading stage can raise to.
    pub open spec fn well_formed(&self) -> bool {
        &&& vec3_bounded(self.sun_light_dir)
        &&& mat4_bounded(self.model_mat)
        &&& mat4_bounded(self.view_mat)
        &&& 1 <= self.gamma <= 6
    }
}

/// Copies a vector of three-component vectors.
fn copy_vec3s(v: &Vec<Vec3>) -> (r: Vec<Vec3>)
    ensures
        r@ == v@,
{
    let mut r: Vec<Vec3> = Vec::new();
    let mut i: usize = 0;
    while i < v.len()
        invariant
            i <= v@.len(),
            r@ == v@.subrange(0, i as int),
        decreases v@.len() - i,
    {
        r.push(v[i]);
        proof {
            assert(r@ =~= v@.subrange(0, i + 1));
        }
        i = i + 1;
    }
    proof {
        assert(r@ =~= v@);
    }
    r
}

/// Copies a vector of two-component vectors.
fn copy_vec2s(v: &Vec<Vec2>) -> (r: Vec<Vec2>)
    ensures
        r@ == v@,
{
    let mut r: Vec<Vec2> = Vec::new();
    let mut i: usize = 0;
    while i < v.len()
        invariant
            i <= v@.len(),
            r@ == v@.subrange(0, i as int),
        decreases v@.len() - i,
    {
        r.push(v[i]);
        proof {
            assert(r@ =~= v@.subrange(0, i + 1));
        }
        i = i + 1;
    }
    proof {
        assert(r@ =~= v@);
    }
    r
}

/// The rendering pipeline: the geometry stage and the rasterizer with its
/// framebuffer.
pub struct Pipeline {
    pub rasterizer: Rasterizer,
    pub geometry: Geometry,
}

impl Pipeline {
    /// The rasterizer and its framebuffer are usable.
    pub open spec fn well_formed(&self) -> bool {
        self.rasterizer.well_formed()
    }

    /// Allocates a pipeline rendering into a buffer of the given
    /// dimensions; non-positive dimensions are refused.
    pub fn new(width: i32, height: i32) -> (r: Result<Pipeline, RenderError>)
        requires
            width * height * 4 <= i32::MAX,
        ensures
            (width <= 0 || height <= 0) <==> r is Err,
            r is Err ==> r == Err::<Pipeline, RenderError>(RenderError::InvalidDimensions),
            r is Ok ==> ({
                let p = r->Ok_0;
                &&& p.well_formed()
                &&& p.rasterizer.width == width
                &&& p.rasterizer.height == height
            }),
    {
        let rasterizer = match Rasterizer::new(width, height) {
            Ok(rr) => rr,
            Err(e) => {
                return Err(e);
            },
        };
        Ok(Pipeline { rasterizer, geometry: Geometry {  } })
    }

    /// Renders one frame: transforms the vertices through the geometry
    /// stage and rasterizes every triangle into the framebuffer. Attribute
    /// arrays of unequal length are refused before any transform runs; an
    /// empty texture list is refused before the framebuffer is touched.
    pub fn run(
        &mut self,
        positions: &Vec<Vec3>,
        normals: &Vec<Vec3>,
        tex_coords: &Vec<Vec2>,
        textures: Vec<Texture>,
        uniforms: Uniforms,
    ) -> (r: Result<(), RenderError>)
        requires
            old(self).well_formed(),
            uniforms.well_formed(),
            forall|i: int| 0 <= i < positions@.len() ==> vec3_bounded(#[trigger] positions@[i]),
            forall|i: int| 0 <= i < normals@.len() ==> vec3_bounded(#[trigger] normals@[i]),
            forall|i: int| 0 <= i < tex_coords@.len() ==> vec2_bounded(#[trigger] tex_coords@[i]),
            forall|i: int| 0 <= i < textures@.len() ==> (#[trigger] textures@[i]).well_formed(),
        ensures
            final(self).well_formed(),
            final(self).rasterizer.width == old(self).rasterizer.width,
            final(self).rasterizer.height == old(self).rasterizer.height,
            r is Err ==> (r == Err::<(), RenderError>(RenderError::AttributeLengthMismatch) || r
                == Err::<(), RenderError>(RenderError::MissingTexture)),
            r == Err::<(), RenderError>(RenderError::AttributeLengthMismatch) <==> !(
            positions@.len() == normals@.len() && positions@.len() == tex_coords@.len()),
            r == Err::<(), RenderError>(RenderError::MissingTexture) <==> (positions@.len()
                == normals@.len() && positions@.len() == tex_coords@.len() && textures@.len()
                == 0),
            r == Err::<(), RenderError>(RenderError::AttributeLengthMismatch) ==> *final(self)
                == *old(self),
            r == Err::<(), RenderError>(RenderError::MissingTexture)
                ==> final(self).rasterizer.framebuffer == old(self).rasterizer.framebuffer,
            r is Ok ==> ({
                let w = old(self).rasterizer.width as int;
                let h = old(self).rasterizer.height as int;
                let tp = Seq::new(
                    positions@.len(),
                    |i: int| transformed_position(positions@[i], uniforms),
                );
                let screen = Seq::new(tp.len(), |i: int| screen_pos_spec(tp[i], w, h));
                let after = raster_after(
                    cleared_pixels(old(self).rasterizer.framebuffer.pixels@.len()),
                    cleared_depth(old(self).rasterizer.framebuffer.depth@.len()),
                    w,
                    h,
                    screen,
                    tp,
                    normals@,
                    tex_coords@,
                    uniforms.sun_light_dir,
                    uniforms.gamma,
                    textures@[0],
                    positions@.len() as int / 3,
                );
                final(self).rasterizer.framebuffer.pixels@ == after.0
                    && final(self).rasterizer.framebuffer.depth@ == after.1
            }),
    {
        let geometry_input = GeometryInput {
            positions: copy_vec3s(positions),
            normals: copy_vec3s(normals),
            uv_coords: copy_vec2s(tex_coords),
            uniforms,
        };
        let geometry_output = match self.geometry.run(geometry_input) {
            Ok(out) => out,
            Err(e) => {
                return Err(e);
            },
        };
        let input = RasterizerInput {
            positions: geometry_output.positions,
            normals: geometry_output.normals,
            uv_coords: geometry_output.uv_coords,
            uniforms,
            textures,
        };
        proof {
            assert forall|i: int| 0 <= i < input.positions@.len() implies vec3_bounded(
                #[trigger] input.positions@[i],
            ) by {
                assert(input.positions@[i] == transformed_position(positions@[i], uniforms));
            }
        }
        let r = self.rasterizer.run(&input);
        proof {
            if r is Ok {
                let w = old(self).rasterizer.width as int;
                let h = old(self).rasterizer.height as int;
                let tp = Seq::new(
                    positions@.len(),
                    |i: int| transformed_position(positions@[i], uniforms),
                );
                let screen = Seq::new(tp.len(), |i: int| screen_pos_spec(tp[i], w, h));
                assert(input.positions@ =~= tp);
                let screen2 = Seq::new(
                    input.positions@.len(),
                    |i: int| screen_pos_spec(input.positions@[i], w, h),
                );
                assert(screen =~= screen2);
            }
        }
        r
    }
}

} // verus!
