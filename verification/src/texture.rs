//! Read-only RGBA textures and nearest-neighbour sampling.
//!
//! Texture coordinates are fixed-point values with `(0, 0)` at the
//! bottom-left of the image; rows are stored top-left first, so sampling
//! flips vertically. Coordinates outside `[0, 1]` are clamped to the edge
//! texels.

use vstd::prelude::*;
use crate::RenderError;
use crate::fixed::FX_ONE;
use crate::fixed::clamp_spec;
use crate::fixed::trunc_div;
use crate::fixed::trunc_div_i128;
use crate::framebuffer::fx_of_byte;
use crate::math::Vec2;
use crate::math::Vec3;
use crate::math::vec2_bounded;

verus! {

/// A read-only RGBA image of `width * height` texels, stored row-major from
/// the top-left.
pub struct Texture {
    pub width: i32,
    pub height: i32,
    pub data: Vec<u8>,
}

/// The texel column sampled for a texture coordinate: `u * width`,
/// truncated, clamped to the image.
pub open spec fn texel_x_spec(u: int, width: int) -> int {
    clamp_spec(trunc_div(u * width, FX_ONE as int), 0, width - 1)
}

/// The texel row sampled for a texture coordinate, before the vertical
/// flip: `v * height`, truncated, clamped to the image.
pub open spec fn texel_y_spec(v: int, height: int) -> int {
    clamp_spec(trunc_div(v * height, FX_ONE as int), 0, height - 1)
}

impl Texture {
    /// The data holds exactly `width * height` RGBA texels, and the
    /// dimensions are small enough for exact index arithmetic.
    pub open spec fn well_formed(&self) -> bool {
        &&& 0 < self.width <= 0x4000
        &&& 0 < self.height <= 0x4000
        &&& self.data@.len() == self.width * self.height * 4
    }

    /// The RGB texel sampled at `uv`, as a fixed-point colour: texel
    /// `(tx, height - 1 - ty)` of the stored rows.
    pub open spec fn sample_spec(&self, uv: Vec2) -> Vec3 {
        let tx = texel_x_spec(uv.x as int, self.width as int);
        let ty = texel_y_spec(uv.y as int, self.height as int);
        let row = self.height - 1 - ty;
        let base = (row * self.width + tx) * 4;
        Vec3 {
            x: fx_of_byte(self.data@[base] as int) as i64,
            y: fx_of_byte(self.data@[base + 1] as int) as i64,
            z: fx_of_byte(self.data@[base + 2] as int) as i64,
        }
    }

    /// Wraps an RGBA byte image; refused unless the dimensions are positive,
    /// small enough for exact indexing, and match the data's length.
    pub fn new(width: i32, height: i32, data: Vec<u8>) -> (r: Result<Texture, RenderError>)
        ensures
            r is Ok <==> (0 < width <= 0x4000 && 0 < height <= 0x4000 && data@.len() == width
                * height * 4),
            r is Err ==> r == Err::<Texture, RenderError>(RenderError::InvalidDimensions),
            r is Ok ==> ({
                let t = r->Ok_0;
                &&& t.well_formed()
                &&& t.width == width
                &&& t.height == height
                &&& t.data@ == data@
            }),
    {
        if width <= 0 || width > 0x4000 || height <= 0 || height > 0x4000 {
            return Err(RenderError::InvalidDimensions);
        }
        proof {
            assert(0 < width * height * 4 <= 0x4_0000_0000) by (nonlinear_arith)
                requires
                    0 < width <= 0x4000,
                    0 < height <= 0x4000,
            ;
        }
        let expect: u64 = (width as u64) * (height as u64) * 4;
        if (data.len() as u64) != expect {
            return Err(RenderError::InvalidDimensions);
        }
        Ok(Texture { width, height, data })
    }

    /// Samples the nearest texel for `uv`, clamped to the image's edges and
    /// flipped vertically, as a fixed-point RGB colour.
    pub fn sample(&self, uv: &Vec2) -> (r: Vec3)
        requires
            self.well_formed(),
            vec2_bounded(*uv),
        ensures
            r == self.sample_spec(*uv),
            0 <= r.x <= FX_ONE,
            0 <= r.y <= FX_ONE,
            0 <= r.z <= FX_ONE,
    {
        proof {
            crate::fixed::lemma_mul_bound(uv.x as int, self.width as int, 0x4000_0000);
            crate::fixed::lemma_mul_bound(uv.y as int, self.height as int, 0x4000_0000);
        }
        let txq = trunc_div_i128((uv.x as i128) * (self.width as i128), FX_ONE as i128);
        let tyq = trunc_div_i128((uv.y as i128) * (self.height as i128), FX_ONE as i128);
        let tx: i32 = if txq < 0 {
            0
        } else if txq > (self.width - 1) as i128 {
            self.width - 1
        } else {
            txq as i32
        };
        let ty: i32 = if tyq < 0 {
            0
        } else if tyq > (self.height - 1) as i128 {
            self.height - 1
        } else {
            tyq as i32
        };
        let row: i32 = self.height - 1 - ty;
        proof {
            assert(0 <= row * self.width && row * self.width + tx < self.width * self.height
                && (row * self.width + tx) * 4 + 2 < self.width * self.height * 4 && self.width
                * self.height * 4 <= 0x4000_0000) by (nonlinear_arith)
                requires
                    0 <= tx < self.width,
                    0 <= row < self.height,
                    0 < self.width <= 0x4000,
                    0 < self.height <= 0x4000,
            ;
        }
        let base: usize = ((row * self.width + tx) * 4) as usize;
        Vec3 {
            x: 256 * (self.data[base] as i64),
            y: 256 * (self.data[base + 1] as i64),
            z: 256 * (self.data[base + 2] as i64),
        }
    }
}

} // verus!
