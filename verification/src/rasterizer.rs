//! The rasterizer / shading stage.
//!
//! Screen mapping takes normalized device coordinates to pixel coordinates;
//! each triangle is scanned over its clamped bounding box with a signed
//! barycentric inside-test; accepted fragments are depth-tested against the
//! framebuffer and shaded (diffuse lighting, texture sampling, gamma).

use vstd::prelude::*;
use crate::RenderError;
use crate::fixed::FX_BOUND;
use crate::fixed::FX_HALF;
use crate::fixed::FX_ONE;
use crate::fixed::clamp_spec;
use crate::fixed::fx_clamp;
use crate::fixed::fx_mul;
use crate::fixed::fx_mul_spec;
use crate::fixed::fx_root;
use crate::fixed::fx_root_spec;
use crate::fixed::lemma_mul_bounds;
use crate::fixed::trunc_div;
use crate::fixed::trunc_div_i128;
use crate::framebuffer::Framebuffer;
use crate::framebuffer::byte_of_fx;
use crate::math::IVec2;
use crate::math::Vec2;
use crate::math::Vec3;
use crate::math::Vec4;
use crate::math::dot3;
use crate::math::dot3_spec;
use crate::math::neg3;
use crate::math::neg3_spec;
use crate::math::vec2_bounded;
use crate::math::vec3_bounded;
use crate::pipeline::Uniforms;
use crate::texture::Texture;

verus! {

/// The fixed-point ambient lighting term (one tenth).
pub const FX_AMBIENT: i64 = 6528;

/// The first numerator of the barycentric cross product: the weight of the
/// triangle's first vertex at `pt`, times `cross_den`.
pub open spec fn cross_x(pt: IVec2, p2: IVec2, p3: IVec2) -> int {
    (p3.x - p2.x) * (pt.y - p3.y) - (pt.x - p3.x) * (p3.y - p2.y)
}

/// The second numerator of the barycentric cross product: the weight of the
/// triangle's second vertex at `pt`, times `cross_den`.
pub open spec fn cross_y(pt: IVec2, p1: IVec2, p3: IVec2) -> int {
    (pt.x - p3.x) * (p3.y - p1.y) - (p3.x - p1.x) * (pt.y - p3.y)
}

/// The barycentric denominator: twice the triangle's signed area. Zero
/// exactly for degenerate (colinear) triangles.
pub open spec fn cross_den(p1: IVec2, p2: IVec2, p3: IVec2) -> int {
    (p3.x - p1.x) * (p3.y - p2.y) - (p3.x - p2.x) * (p3.y - p1.y)
}

/// Whether `pt` lies inside the triangle, edges included: all three
/// barycentric weights are at least zero. A degenerate triangle contains no
/// points.
pub open spec fn inside_spec(pt: IVec2, p1: IVec2, p2: IVec2, p3: IVec2) -> bool {
    let cx = cross_x(pt, p2, p3);
    let cy = cross_y(pt, p1, p3);
    let cz = cross_den(p1, p2, p3);
    let cw = cz - cx - cy;
    if cz > 0 {
        cx >= 0 && cy >= 0 && cw >= 0
    } else if cz < 0 {
        cx <= 0 && cy <= 0 && cw <= 0
    } else {
        false
    }
}

/// The barycentric interpolation of the vertex attributes `a1, a2, a3` at
/// `pt`, saturated to the pipeline's magnitude bound.
pub open spec fn interp_spec(
    pt: IVec2,
    p1: IVec2,
    p2: IVec2,
    p3: IVec2,
    a1: int,
    a2: int,
    a3: int,
) -> int
    recommends
        cross_den(p1, p2, p3) != 0,
{
    let cx = cross_x(pt, p2, p3);
    let cy = cross_y(pt, p1, p3);
    let cz = cross_den(p1, p2, p3);
    let cw = cz - cx - cy;
    clamp_spec(
        trunc_div(cx * a1 + cy * a2 + cw * a3, cz),
        -FX_BOUND as int,
        FX_BOUND as int,
    )
}

/// The fragment's depth at `pt`: the interpolated view-space depth mapped
/// into `[0, 1]` by `-z / 2 + 1/2`.
pub open spec fn frag_depth_spec(
    pt: IVec2,
    p1: IVec2,
    p2: IVec2,
    p3: IVec2,
    z1: int,
    z2: int,
    z3: int,
) -> int {
    FX_HALF - trunc_div(interp_spec(pt, p1, p2, p3, z1, z2, z3), 2)
}

/// The pixel column for an NDC x coordinate: `(x + 1/2) * width`, truncated
/// toward zero and saturated to the machine's pixel range.
pub open spec fn screen_x_spec(nx: int, width: int) -> int {
    clamp_spec(trunc_div((nx + FX_HALF) * width, FX_ONE as int), i32::MIN as int, i32::MAX as int)
}

/// The pixel row for an NDC y coordinate: `(-y + 1/2) * height` (NDC y
/// points up, pixel rows grow down), truncated and saturated.
pub open spec fn screen_y_spec(ny: int, height: int) -> int {
    clamp_spec(
        trunc_div((-ny + FX_HALF) * height, FX_ONE as int),
        i32::MIN as int,
        i32::MAX as int,
    )
}

/// The pixel position an NDC position is mapped to.
pub open spec fn screen_pos_spec(p: Vec3, width: int, height: int) -> IVec2 {
    IVec2 {
        x: screen_x_spec(p.x as int, width) as i32,
        y: screen_y_spec(p.y as int, height) as i32,
    }
}

/// NDC `(0, 0)` maps to the pixel at `(width / 2, height / 2)`, and NDC
/// `(-1/2, 1/2)` to the pixel at `(0, 0)`, for every buffer size.
pub proof fn lemma_screen_mapping_anchors(width: int, height: int)
    requires
        0 < width <= i32::MAX,
        0 < height <= i32::MAX,
    ensures
        screen_x_spec(0, width) == width / 2,
        screen_y_spec(0, height) == height / 2,
        screen_x_spec(-FX_HALF as int, width) == 0,
        screen_y_spec(FX_HALF as int, height) == 0,
{
    assert(FX_HALF * width == (width / 2) * FX_ONE + (if width % 2 == 0 { 0int } else {
        FX_HALF as int
    })) by (nonlinear_arith)
        requires
            0 < width,
            FX_HALF == 32640,
            FX_ONE == 65280,
            width == 2 * (width / 2) + width % 2,
            width % 2 == 0 || width % 2 == 1,
    ;
    vstd::arithmetic::div_mod::lemma_fundamental_div_mod(width, 2);
    vstd::arithmetic::div_mod::lemma_fundamental_div_mod_converse_div(
        FX_HALF * width,
        FX_ONE as int,
        width / 2,
        if width % 2 == 0 { 0int } else { FX_HALF as int },
    );
    assert(FX_HALF * height == (height / 2) * FX_ONE + (if height % 2 == 0 { 0int } else {
        FX_HALF as int
    })) by (nonlinear_arith)
        requires
            0 < height,
            FX_HALF == 32640,
            FX_ONE == 65280,
            height == 2 * (height / 2) + height % 2,
            height % 2 == 0 || height % 2 == 1,
    ;
    vstd::arithmetic::div_mod::lemma_fundamental_div_mod(height, 2);
    vstd::arithmetic::div_mod::lemma_fundamental_div_mod_converse_div(
        FX_HALF * height,
        FX_ONE as int,
        height / 2,
        if height % 2 == 0 { 0int } else { FX_HALF as int },
    );
    assert((0 + FX_HALF) * width == FX_HALF * width);
    assert((-FX_HALF as int + FX_HALF) * width == 0) by (nonlinear_arith);
    assert((-(FX_HALF as int) + FX_HALF) * height == 0) by (nonlinear_arith);
    assert(trunc_div(0, FX_ONE as int) == 0) by {
        vstd::arithmetic::div_mod::lemma_div_of0(FX_ONE as int);
    }
    assert(0 <= width / 2 <= i32::MAX);
    assert(0 <= height / 2 <= i32::MAX);
}

/// The shaded colour before gamma correction: ambient plus clamped diffuse
/// lighting, times the sampled texel, clamped to `[0, 1]` per channel.
pub open spec fn shade_pre_gamma_spec(normal: Vec3, uv: Vec2, light: Vec3, tex: Texture) -> Vec3 {
    let diff = clamp_spec(dot3_spec(normal, neg3_spec(light)), 0, FX_ONE as int);
    let albedo = tex.sample_spec(uv);
    let atten = FX_AMBIENT + diff;
    Vec3 {
        x: clamp_spec(fx_mul_spec(atten, albedo.x as int), 0, FX_ONE as int) as i64,
        y: clamp_spec(fx_mul_spec(atten, albedo.y as int), 0, FX_ONE as int) as i64,
        z: clamp_spec(fx_mul_spec(atten, albedo.z as int), 0, FX_ONE as int) as i64,
    }
}

/// The shaded colour: the pre-gamma colour with each channel raised to
/// `1 / gamma`.
pub open spec fn shade_spec(normal: Vec3, uv: Vec2, light: Vec3, gamma: u32, tex: Texture) -> Vec3 {
    let c = shade_pre_gamma_spec(normal, uv, light, tex);
    Vec3 {
        x: fx_root_spec(c.x as int, gamma as nat) as i64,
        y: fx_root_spec(c.y as int, gamma as nat) as i64,
        z: fx_root_spec(c.z as int, gamma as nat) as i64,
    }
}

/// Shades one fragment: diffuse lighting against the light direction,
/// multiplied into the sampled texel over an ambient floor, then gamma
/// corrected. With `gamma == 1` the result is exactly the pre-gamma colour;
/// with `gamma > 1` no channel decreases.
pub fn shade(normal: &Vec3, uv: &Vec2, light: &Vec3, gamma: u32, tex: &Texture) -> (r: Vec3)
    requires
        vec3_bounded(*normal),
        vec2_bounded(*uv),
        vec3_bounded(*light),
        1 <= gamma <= 6,
        tex.well_formed(),
    ensures
        r == shade_spec(*normal, *uv, *light, gamma, *tex),
        0 <= r.x <= FX_ONE && 0 <= r.y <= FX_ONE && 0 <= r.z <= FX_ONE,
        gamma == 1 ==> r == shade_pre_gamma_spec(*normal, *uv, *light, *tex),
        gamma > 1 ==> ({
            let c = shade_pre_gamma_spec(*normal, *uv, *light, *tex);
            r.x >= c.x && r.y >= c.y && r.z >= c.z
        }),
{
    let minus_light = neg3(light);
    let diff = fx_clamp(dot3(normal, &minus_light), 0, FX_ONE);
    let albedo = tex.sample(uv);
    let atten = FX_AMBIENT + diff;
    proof {
        lemma_mul_bounds(atten as int, albedo.x as int, 71808, FX_ONE as int);
        lemma_mul_bounds(atten as int, albedo.y as int, 71808, FX_ONE as int);
        lemma_mul_bounds(atten as int, albedo.z as int, 71808, FX_ONE as int);
    }
    let cx = fx_clamp(fx_mul(atten, albedo.x), 0, FX_ONE);
    let cy = fx_clamp(fx_mul(atten, albedo.y), 0, FX_ONE);
    let cz = fx_clamp(fx_mul(atten, albedo.z), 0, FX_ONE);
    Vec3 { x: fx_root(cx, gamma), y: fx_root(cy, gamma), z: fx_root(cz, gamma) }
}

/// Decides the barycentric inside-test for a pixel against a triangle in
/// screen coordinates.
pub fn is_inside_triangle(point: IVec2, p1: IVec2, p2: IVec2, p3: IVec2) -> (r: bool)
    ensures
        r == inside_spec(point, p1, p2, p3),
{
    let e1x: i128 = (p3.x as i128) - (p1.x as i128);
    let e1y: i128 = (p3.y as i128) - (p1.y as i128);
    let e2x: i128 = (p3.x as i128) - (p2.x as i128);
    let e2y: i128 = (p3.y as i128) - (p2.y as i128);
    let qx: i128 = (point.x as i128) - (p3.x as i128);
    let qy: i128 = (point.y as i128) - (p3.y as i128);
    proof {
        lemma_mul_bounds(e2x as int, qy as int, 0x1_0000_0000, 0x1_0000_0000);
        lemma_mul_bounds(qx as int, e2y as int, 0x1_0000_0000, 0x1_0000_0000);
        lemma_mul_bounds(qx as int, e1y as int, 0x1_0000_0000, 0x1_0000_0000);
        lemma_mul_bounds(e1x as int, qy as int, 0x1_0000_0000, 0x1_0000_0000);
        lemma_mul_bounds(e1x as int, e2y as int, 0x1_0000_0000, 0x1_0000_0000);
        lemma_mul_bounds(e2x as int, e1y as int, 0x1_0000_0000, 0x1_0000_0000);
    }
    let cx: i128 = e2x * qy - qx * e2y;
    let cy: i128 = qx * e1y - e1x * qy;
    let cz: i128 = e1x * e2y - e2x * e1y;
    let cw: i128 = cz - cx - cy;
    if cz > 0 {
        cx >= 0 && cy >= 0 && cw >= 0
    } else if cz < 0 {
        cx <= 0 && cy <= 0 && cw <= 0
    } else {
        false
    }
}

/// Interpolates one attribute across the triangle at `pt`.
fn interp3(pt: IVec2, p1: IVec2, p2: IVec2, p3: IVec2, a1: i64, a2: i64, a3: i64) -> (r: i64)
    requires
        cross_den(p1, p2, p3) != 0,
        -FX_BOUND <= a1 <= FX_BOUND,
        -FX_BOUND <= a2 <= FX_BOUND,
        -FX_BOUND <= a3 <= FX_BOUND,
    ensures
        r == interp_spec(pt, p1, p2, p3, a1 as int, a2 as int, a3 as int),
        -FX_BOUND <= r <= FX_BOUND,
{
    let e1x: i128 = (p3.x as i128) - (p1.x as i128);
    let e1y: i128 = (p3.y as i128) - (p1.y as i128);
    let e2x: i128 = (p3.x as i128) - (p2.x as i128);
    let e2y: i128 = (p3.y as i128) - (p2.y as i128);
    let qx: i128 = (pt.x as i128) - (p3.x as i128);
    let qy: i128 = (pt.y as i128) - (p3.y as i128);
    proof {
        lemma_mul_bounds(e2x as int, qy as int, 0x1_0000_0000, 0x1_0000_0000);
        lemma_mul_bounds(qx as int, e2y as int, 0x1_0000_0000, 0x1_0000_0000);
        lemma_mul_bounds(qx as int, e1y as int, 0x1_0000_0000, 0x1_0000_0000);
        lemma_mul_bounds(e1x as int, qy as int, 0x1_0000_0000, 0x1_0000_0000);
        lemma_mul_bounds(e1x as int, e2y as int, 0x1_0000_0000, 0x1_0000_0000);
        lemma_mul_bounds(e2x as int, e1y as int, 0x1_0000_0000, 0x1_0000_0000);
    }
    let cx: i128 = e2x * qy - qx * e2y;
    let cy: i128 = qx * e1y - e1x * qy;
    let cz: i128 = e1x * e2y - e2x * e1y;
    let cw: i128 = cz - cx - cy;
    proof {
        lemma_mul_bounds(cx as int, a1 as int, 0x4_0000_0000_0000_0000, FX_BOUND as int);
        lemma_mul_bounds(cy as int, a2 as int, 0x4_0000_0000_0000_0000, FX_BOUND as int);
        lemma_mul_bounds(cw as int, a3 as int, 0xc_0000_0000_0000_0000, FX_BOUND as int);
    }
    let num: i128 = cx * (a1 as i128) + cy * (a2 as i128) + cw * (a3 as i128);
    let q = trunc_div_i128(num, cz);
    if q < -(FX_BOUND as i128) {
        -FX_BOUND
    } else if q > FX_BOUND as i128 {
        FX_BOUND
    } else {
        q as i64
    }
}

/// Maps a normalized device position to pixel coordinates.
pub fn norm_to_image_coords(from: &Vec3, width: i32, height: i32) -> (r: IVec2)
    requires
        vec3_bounded(*from),
    ensures
        r == screen_pos_spec(*from, width as int, height as int),
{
    proof {
        lemma_mul_bounds(
            from.x + FX_HALF as int,
            width as int,
            0x8000_0000,
            0x8000_0000,
        );
        lemma_mul_bounds(
            -from.y + FX_HALF as int,
            height as int,
            0x8000_0000,
            0x8000_0000,
        );
    }
    let qx = trunc_div_i128(((from.x as i128) + (FX_HALF as i128)) * (width as i128), FX_ONE
        as i128);
    let qy = trunc_div_i128(((-from.y as i128) + (FX_HALF as i128)) * (height as i128), FX_ONE
        as i128);
    let x: i32 = if qx < i32::MIN as i128 {
        i32::MIN
    } else if qx > i32::MAX as i128 {
        i32::MAX
    } else {
        qx as i32
    };
    let y: i32 = if qy < i32::MIN as i128 {
        i32::MIN
    } else if qy > i32::MAX as i128 {
        i32::MAX
    } else {
        qy as i32
    };
    IVec2 { x, y }
}

/// One screen-space triangle: pixel positions, the vertices' NDC depths,
/// normals and texture coordinates.
#[derive(Clone, Copy)]
pub struct TriVerts {
    pub p1: IVec2,
    pub p2: IVec2,
    pub p3: IVec2,
    pub z1: i64,
    pub z2: i64,
    pub z3: i64,
    pub n1: Vec3,
    pub n2: Vec3,
    pub n3: Vec3,
    pub t1: Vec2,
    pub t2: Vec2,
    pub t3: Vec2,
}

/// The triangle's depths, normals and texture coordinates are bounded.
pub open spec fn tri_bounded(t: TriVerts) -> bool {
    &&& -FX_BOUND <= t.z1 <= FX_BOUND
    &&& -FX_BOUND <= t.z2 <= FX_BOUND
    &&& -FX_BOUND <= t.z3 <= FX_BOUND
    &&& vec3_bounded(t.n1)
    &&& vec3_bounded(t.n2)
    &&& vec3_bounded(t.n3)
    &&& vec2_bounded(t.t1)
    &&& vec2_bounded(t.t2)
    &&& vec2_bounded(t.t3)
}

/// The larger of two values.
pub open spec fn imax(a: int, b: int) -> int {
    if a >= b {
        a
    } else {
        b
    }
}

/// The smaller of two values.
pub open spec fn imin(a: int, b: int) -> int {
    if a <= b {
        a
    } else {
        b
    }
}

/// The smallest of three values.
pub open spec fn min3(a: int, b: int, c: int) -> int {
    imin(imin(a, b), c)
}

/// The largest of three values.
pub open spec fn max3(a: int, b: int, c: int) -> int {
    imax(imax(a, b), c)
}

/// The first pixel column of the triangle's bounding box, clamped at the
/// buffer's left edge.
pub open spec fn bbox_min_x(t: TriVerts) -> int {
    imax(min3(t.p1.x as int, t.p2.x as int, t.p3.x as int), 0)
}

/// One past the last pixel column of the bounding box, clamped at the
/// buffer's width.
pub open spec fn bbox_max_x(t: TriVerts, width: int) -> int {
    imin(max3(t.p1.x as int, t.p2.x as int, t.p3.x as int), width)
}

/// The first pixel row of the bounding box, clamped at the buffer's top.
pub open spec fn bbox_min_y(t: TriVerts) -> int {
    imax(min3(t.p1.y as int, t.p2.y as int, t.p3.y as int), 0)
}

/// One past the last pixel row of the bounding box, clamped at the buffer's
/// height.
pub open spec fn bbox_max_y(t: TriVerts, height: int) -> int {
    imin(max3(t.p1.y as int, t.p2.y as int, t.p3.y as int), height)
}

/// Whether the pixel lies in the triangle's clamped bounding box.
pub open spec fn in_bbox(pt: IVec2, t: TriVerts, width: int, height: int) -> bool {
    &&& bbox_min_x(t) <= pt.x < bbox_max_x(t, width)
    &&& bbox_min_y(t) <= pt.y < bbox_max_y(t, height)
}

/// The interpolated normal at `pt`.
pub open spec fn frag_normal_spec(pt: IVec2, t: TriVerts) -> Vec3 {
    Vec3 {
        x: interp_spec(pt, t.p1, t.p2, t.p3, t.n1.x as int, t.n2.x as int, t.n3.x as int) as i64,
        y: interp_spec(pt, t.p1, t.p2, t.p3, t.n1.y as int, t.n2.y as int, t.n3.y as int) as i64,
        z: interp_spec(pt, t.p1, t.p2, t.p3, t.n1.z as int, t.n2.z as int, t.n3.z as int) as i64,
    }
}

/// The interpolated texture coordinate at `pt`.
pub open spec fn frag_uv_spec(pt: IVec2, t: TriVerts) -> Vec2 {
    Vec2 {
        x: interp_spec(pt, t.p1, t.p2, t.p3, t.t1.x as int, t.t2.x as int, t.t3.x as int) as i64,
        y: interp_spec(pt, t.p1, t.p2, t.p3, t.t1.y as int, t.t2.y as int, t.t3.y as int) as i64,
    }
}

/// The fragment depth of the triangle at `pt`.
pub open spec fn tri_depth_at(pt: IVec2, t: TriVerts) -> int {
    frag_depth_spec(pt, t.p1, t.p2, t.p3, t.z1 as int, t.z2 as int, t.z3 as int)
}

/// The shaded colour of the triangle's fragment at `pt`.
pub open spec fn tri_color_at(pt: IVec2, t: TriVerts, light: Vec3, gamma: u32, tex: Texture) -> Vec3 {
    shade_spec(frag_normal_spec(pt, t), frag_uv_spec(pt, t), light, gamma, tex)
}

/// Whether rasterizing the triangle over the depth buffer `d0` writes the
/// pixel `pt`: it lies in the clamped bounding box, passes the inside-test,
/// and its fragment is strictly nearer than the stored depth.
pub open spec fn tri_writes(d0: Seq<i64>, w: int, h: int, pt: IVec2, t: TriVerts) -> bool {
    &&& in_bbox(pt, t, w, h)
    &&& inside_spec(pt, t.p1, t.p2, t.p3)
    &&& tri_depth_at(pt, t) < d0[pt.y * w + pt.x]
}

/// The pixel position of a row-major buffer index.
pub open spec fn pt_of_index(i: int, w: int) -> IVec2 {
    IVec2 { x: (i % w) as i32, y: (i / w) as i32 }
}

/// The depth buffer after rasterizing one triangle: every written pixel
/// holds its fragment depth, every other cell is untouched.
pub open spec fn depth_after_tri(d0: Seq<i64>, w: int, h: int, t: TriVerts) -> Seq<i64> {
    Seq::new(
        d0.len(),
        |i: int|
            if tri_writes(d0, w, h, pt_of_index(i, w), t) {
                tri_depth_at(pt_of_index(i, w), t) as i64
            } else {
                d0[i]
            },
    )
}

/// The colour buffer after rasterizing one triangle over the depth buffer
/// `d0`: every written pixel holds its shaded colour (alpha one), every
/// other byte is untouched.
pub open spec fn pixels_after_tri(
    p0: Seq<u8>,
    d0: Seq<i64>,
    w: int,
    h: int,
    t: TriVerts,
    light: Vec3,
    gamma: u32,
    tex: Texture,
) -> Seq<u8> {
    Seq::new(
        p0.len(),
        |i: int|
            {
                let pt = pt_of_index(i / 4, w);
                if tri_writes(d0, w, h, pt, t) {
                    let c = tri_color_at(pt, t, light, gamma, tex);
                    if i % 4 == 0 {
                        byte_of_fx(c.x as int) as u8
                    } else if i % 4 == 1 {
                        byte_of_fx(c.y as int) as u8
                    } else if i % 4 == 2 {
                        byte_of_fx(c.z as int) as u8
                    } else {
                        byte_of_fx(FX_ONE as int) as u8
                    }
                } else {
                    p0[i]
                }
            },
    )
}

/// A row-major index decomposes into its pixel position and back.
proof fn lemma_row_major(w: int, x: int, y: int)
    requires
        0 < w,
        0 <= x < w,
        0 <= y,
    ensures
        (y * w + x) / w == y,
        (y * w + x) % w == x,
{
    vstd::arithmetic::div_mod::lemma_fundamental_div_mod_converse_div(y * w + x, w, y, x);
    vstd::arithmetic::div_mod::lemma_fundamental_div_mod_converse_mod(y * w + x, w, y, x);
}

/// A channel index decomposes into its pixel index and channel number.
proof fn lemma_chan_index(pix: int, k: int)
    requires
        0 <= pix,
        0 <= k < 4,
    ensures
        (pix * 4 + k) / 4 == pix,
        (pix * 4 + k) % 4 == k,
{
    vstd::arithmetic::div_mod::lemma_fundamental_div_mod_converse_div(pix * 4 + k, 4, pix, k);
    vstd::arithmetic::div_mod::lemma_fundamental_div_mod_converse_mod(pix * 4 + k, 4, pix, k);
}

/// Rasterizes one triangle into the framebuffer: scans the clamped bounding
/// box, tests each pixel against the triangle and the depth buffer, and
/// writes the shaded colour and fragment depth of each accepted pixel. A
/// degenerate (colinear) triangle writes nothing anywhere.
#[verifier::loop_isolation(false)]
#[verifier::rlimit(100)]
pub fn rasterize_triangle(
    fb: &mut Framebuffer,
    t: &TriVerts,
    light: &Vec3,
    gamma: u32,
    tex: &Texture,
)
    requires
        old(fb).well_formed(),
        tri_bounded(*t),
        vec3_bounded(*light),
        1 <= gamma <= 6,
        tex.well_formed(),
    ensures
        final(fb).well_formed(),
        final(fb).width == old(fb).width,
        final(fb).height == old(fb).height,
        final(fb).depth@ == depth_after_tri(
            old(fb).depth@,
            old(fb).width as int,
            old(fb).height as int,
            *t,
        ),
        final(fb).pixels@ == pixels_after_tri(
            old(fb).pixels@,
            old(fb).depth@,
            old(fb).width as int,
            old(fb).height as int,
            *t,
            *light,
            gamma,
            *tex,
        ),
        cross_den(t.p1, t.p2, t.p3) == 0 ==> final(fb).pixels@ == old(fb).pixels@
            && final(fb).depth@ == old(fb).depth@,
{
    let ghost w = old(fb).width as int;
    let ghost h = old(fb).height as int;
    let ghost d0 = old(fb).depth@;
    let ghost px0 = old(fb).pixels@;
    let min_x: i32 = {
        let m = if t.p1.x < t.p2.x { t.p1.x } else { t.p2.x };
        let m = if m < t.p3.x { m } else { t.p3.x };
        if m > 0 { m } else { 0 }
    };
    let max_x: i32 = {
        let m = if t.p1.x > t.p2.x { t.p1.x } else { t.p2.x };
        let m = if m > t.p3.x { m } else { t.p3.x };
        if m < fb.width { m } else { fb.width }
    };
    let min_y: i32 = {
        let m = if t.p1.y < t.p2.y { t.p1.y } else { t.p2.y };
        let m = if m < t.p3.y { m } else { t.p3.y };
        if m > 0 { m } else { 0 }
    };
    let max_y: i32 = {
        let m = if t.p1.y > t.p2.y { t.p1.y } else { t.p2.y };
        let m = if m > t.p3.y { m } else { t.p3.y };
        if m < fb.height { m } else { fb.height }
    };
    proof {
        assert(min_x == bbox_min_x(*t));
        assert(max_x == bbox_max_x(*t, w));
        assert(min_y == bbox_min_y(*t));
        assert(max_y == bbox_max_y(*t, h));
    }
    let mut x: i32 = min_x;
    while x < max_x
        invariant
            min_x <= x,
            x <= max_x || x == min_x,
            fb.well_formed(),
            fb.width == old(fb).width,
            fb.height == old(fb).height,
            fb.depth@.len() == d0.len(),
            fb.pixels@.len() == px0.len(),
            forall|i: int|
                0 <= i < d0.len() ==> #[trigger] fb.depth@[i] == (if pt_of_index(i, w).x < x
                    && tri_writes(d0, w, h, pt_of_index(i, w), *t) {
                    tri_depth_at(pt_of_index(i, w), *t) as i64
                } else {
                    d0[i]
                }),
            forall|i: int|
                0 <= i < px0.len() ==> #[trigger] fb.pixels@[i] == (if pt_of_index(i / 4, w).x < x
                    && tri_writes(d0, w, h, pt_of_index(i / 4, w), *t) {
                    pixels_after_tri(px0, d0, w, h, *t, *light, gamma, *tex)[i]
                } else {
                    px0[i]
                }),
        decreases max_x - x,
    {
        let mut y: i32 = min_y;
        while y < max_y
            invariant
                min_x <= x < max_x,
                min_y <= y,
                y <= max_y || y == min_y,
                fb.well_formed(),
                fb.width == old(fb).width,
                fb.height == old(fb).height,
                fb.depth@.len() == d0.len(),
                fb.pixels@.len() == px0.len(),
                forall|i: int|
                    0 <= i < d0.len() ==> #[trigger] fb.depth@[i] == (if (pt_of_index(i, w).x < x
                        || (pt_of_index(i, w).x == x && pt_of_index(i, w).y < y)) && tri_writes(
                        d0,
                        w,
                        h,
                        pt_of_index(i, w),
                        *t,
                    ) {
                        tri_depth_at(pt_of_index(i, w), *t) as i64
                    } else {
                        d0[i]
                    }),
                forall|i: int|
                    0 <= i < px0.len() ==> #[trigger] fb.pixels@[i] == (if (pt_of_index(i / 4, w).x
                        < x || (pt_of_index(i / 4, w).x == x && pt_of_index(i / 4, w).y < y))
                        && tri_writes(d0, w, h, pt_of_index(i / 4, w), *t) {
                        pixels_after_tri(px0, d0, w, h, *t, *light, gamma, *tex)[i]
                    } else {
                        px0[i]
                    }),
            decreases max_y - y,
        {
            let pt = IVec2 { x, y };
            let ghost idx = y as int * w + x as int;
            proof {
                lemma_row_major(w, x as int, y as int);
                assert(pt_of_index(idx, w) == pt);
                assert(0 <= y as int * w + x as int && (y as int * w + x as int) < w * h)
                    by (nonlinear_arith)
                    requires
                        0 <= x as int && (x as int) < w,
                        0 <= y as int && (y as int) < h,
                ;
                assert(0 <= idx < d0.len());
            }
            if is_inside_triangle(pt, t.p1, t.p2, t.p3) {
                let iz = interp3(pt, t.p1, t.p2, t.p3, t.z1, t.z2, t.z3);
                let depth: i64 = FX_HALF - iz / 2;
                let normal = Vec3 {
                    x: interp3(pt, t.p1, t.p2, t.p3, t.n1.x, t.n2.x, t.n3.x),
                    y: interp3(pt, t.p1, t.p2, t.p3, t.n1.y, t.n2.y, t.n3.y),
                    z: interp3(pt, t.p1, t.p2, t.p3, t.n1.z, t.n2.z, t.n3.z),
                };
                let uv = Vec2 {
                    x: interp3(pt, t.p1, t.p2, t.p3, t.t1.x, t.t2.x, t.t3.x),
                    y: interp3(pt, t.p1, t.p2, t.p3, t.t1.y, t.t2.y, t.t3.y),
                };
                proof {
                    assert(depth == tri_depth_at(pt, *t));
                    assert(normal == frag_normal_spec(pt, *t));
                    assert(uv == frag_uv_spec(pt, *t));
                    assert(fb.depth@[idx] == d0[idx]);
                }
                if depth < fb.get_depth(x, y) {
                    proof {
                        assert(tri_writes(d0, w, h, pt, *t));
                    }
                    let color = shade(&normal, &uv, light, gamma, tex);
                    let ghost pix_before = fb.pixels@;
                    fb.set(x, y, Vec4 { x: color.x, y: color.y, z: color.z, w: FX_ONE });
                    fb.set_depth(x, y, depth);
                    proof {
                        let after = pixels_after_tri(px0, d0, w, h, *t, *light, gamma, *tex);
                        assert(color == tri_color_at(pt, *t, *light, gamma, *tex));
                        assert forall|i: int| 0 <= i < px0.len() implies #[trigger] fb.pixels@[i]
                            == (if (pt_of_index(i / 4, w).x < x || (pt_of_index(i / 4, w).x == x
                            && pt_of_index(i / 4, w).y < y + 1)) && tri_writes(
                            d0,
                            w,
                            h,
                            pt_of_index(i / 4, w),
                            *t,
                        ) {
                            after[i]
                        } else {
                            px0[i]
                        }) by {
                            let base = idx * 4;
                            if base <= i < base + 4 {
                                lemma_chan_index(idx, i - base);
                                assert(pt_of_index(i / 4, w) == pt);
                            } else {
                                assert(fb.pixels@[i] == pix_before[i]);
                                if pt_of_index(i / 4, w) == pt {
                                    vstd::arithmetic::div_mod::lemma_fundamental_div_mod(i, 4);
                                    vstd::arithmetic::div_mod::lemma_mod_division_less_than_divisor(i, 4);
                                    vstd::arithmetic::div_mod::lemma_fundamental_div_mod(i / 4, w);
                                    vstd::arithmetic::div_mod::lemma_mod_division_less_than_divisor(i / 4, w);
                                    assert((i / 4) % w == x as int && (i / 4) / w == y as int);
                                    assert(i / 4 == w * ((i / 4) / w) + (i / 4) % w);
                                    assert(i / 4 == idx) by (nonlinear_arith)
                                        requires
                                            i / 4 == w * ((i / 4) / w) + (i / 4) % w,
                                            (i / 4) % w == x as int,
                                            (i / 4) / w == y as int,
                                            idx == y as int * w + x as int,
                                    ;
                                    assert(base <= i < base + 4);
                                }
                            }
                        }
                        assert forall|i: int| 0 <= i < d0.len() implies #[trigger] fb.depth@[i]
                            == (if (pt_of_index(i, w).x < x || (pt_of_index(i, w).x == x
                            && pt_of_index(i, w).y < y + 1)) && tri_writes(
                            d0,
                            w,
                            h,
                            pt_of_index(i, w),
                            *t,
                        ) {
                            tri_depth_at(pt_of_index(i, w), *t) as i64
                        } else {
                            d0[i]
                        }) by {
                            if i != idx && pt_of_index(i, w) == pt {
                                vstd::arithmetic::div_mod::lemma_fundamental_div_mod(i, w);
                                vstd::arithmetic::div_mod::lemma_mod_division_less_than_divisor(i, w);
                                assert(i % w == x as int && i / w == y as int);
                                assert(i == idx) by (nonlinear_arith)
                                    requires
                                        i == w * (i / w) + i % w,
                                        i % w == x as int,
                                        i / w == y as int,
                                        idx == y as int * w + x as int,
                                ;
                            }
                        }
                    }
                } else {
                    proof {
                        assert(!tri_writes(d0, w, h, pt, *t));
                    }
                }
            } else {
                proof {
                    assert(!tri_writes(d0, w, h, pt, *t));
                }
            }
            y = y + 1;
        }
        x = x + 1;
    }
    proof {
        let after_d = depth_after_tri(d0, w, h, *t);
        let after_p = pixels_after_tri(px0, d0, w, h, *t, *light, gamma, *tex);
        assert forall|i: int| 0 <= i < d0.len() implies fb.depth@[i] == after_d[i] by {
            assert(fb.depth@[i] == (if pt_of_index(i, w).x < x && tri_writes(
                d0,
                w,
                h,
                pt_of_index(i, w),
                *t,
            ) {
                tri_depth_at(pt_of_index(i, w), *t) as i64
            } else {
                d0[i]
            }));
            if tri_writes(d0, w, h, pt_of_index(i, w), *t) {
                assert(pt_of_index(i, w).x < bbox_max_x(*t, w));
            }
        }
        assert(fb.depth@ =~= after_d);
        assert forall|i: int| 0 <= i < px0.len() implies fb.pixels@[i] == after_p[i] by {
            if tri_writes(d0, w, h, pt_of_index(i / 4, w), *t) {
                assert(pt_of_index(i / 4, w).x < bbox_max_x(*t, w));
            }
        }
        assert(fb.pixels@ =~= after_p);
        if cross_den(t.p1, t.p2, t.p3) == 0 {
            assert forall|i: int| 0 <= i < d0.len() implies after_d[i] == d0[i] by {
                assert(!inside_spec(pt_of_index(i, w), t.p1, t.p2, t.p3));
            }
            assert(after_d =~= d0);
            assert forall|i: int| 0 <= i < px0.len() implies after_p[i] == px0[i] by {
                assert(!inside_spec(pt_of_index(i / 4, w), t.p1, t.p2, t.p3));
            }
            assert(after_p =~= px0);
        }
    }
}

/// The rasterizer's input: triangle-ordered NDC positions, normals and
/// texture coordinates, the frame's uniforms, and the bound textures.
pub struct RasterizerInput {
    pub positions: Vec<Vec3>,
    pub normals: Vec<Vec3>,
    pub uv_coords: Vec<Vec2>,
    pub uniforms: Uniforms,
    pub textures: Vec<Texture>,
}

impl RasterizerInput {
    /// The attribute arrays agree in length, every value is bounded, and
    /// the uniforms and textures are usable.
    pub open spec fn well_formed(&self) -> bool {
        &&& self.normals@.len() == self.positions@.len()
        &&& self.uv_coords@.len() == self.positions@.len()
        &&& forall|i: int|
            0 <= i < self.positions@.len() ==> vec3_bounded(#[trigger] self.positions@[i])
        &&& forall|i: int|
            0 <= i < self.normals@.len() ==> vec3_bounded(#[trigger] self.normals@[i])
        &&& forall|i: int|
            0 <= i < self.uv_coords@.len() ==> vec2_bounded(#[trigger] self.uv_coords@[i])
        &&& self.uniforms.well_formed()
        &&& forall|i: int|
            0 <= i < self.textures@.len() ==> (#[trigger] self.textures@[i]).well_formed()
    }
}

/// The `k`-th triangle of the attribute arrays, over the screen-mapped
/// positions: vertices `3k`, `3k + 1` and `3k + 2`.
pub open spec fn tri_at(
    screen: Seq<IVec2>,
    positions: Seq<Vec3>,
    normals: Seq<Vec3>,
    uvs: Seq<Vec2>,
    k: int,
) -> TriVerts {
    TriVerts {
        p1: screen[3 * k],
        p2: screen[3 * k + 1],
        p3: screen[3 * k + 2],
        z1: positions[3 * k].z,
        z2: positions[3 * k + 1].z,
        z3: positions[3 * k + 2].z,
        n1: normals[3 * k],
        n2: normals[3 * k + 1],
        n3: normals[3 * k + 2],
        t1: uvs[3 * k],
        t2: uvs[3 * k + 1],
        t3: uvs[3 * k + 2],
    }
}

/// The buffers after rasterizing the arrays' first `k` triangles, in
/// order, starting from the colour buffer `p0` and depth buffer `d0`.
pub open spec fn raster_after(
    p0: Seq<u8>,
    d0: Seq<i64>,
    w: int,
    h: int,
    screen: Seq<IVec2>,
    positions: Seq<Vec3>,
    normals: Seq<Vec3>,
    uvs: Seq<Vec2>,
    light: Vec3,
    gamma: u32,
    tex: Texture,
    k: int,
) -> (Seq<u8>, Seq<i64>)
    decreases k,
{
    if k <= 0 {
        (p0, d0)
    } else {
        let prev = raster_after(p0, d0, w, h, screen, positions, normals, uvs, light, gamma, tex, k - 1);
        let t = tri_at(screen, positions, normals, uvs, k - 1);
        (
            pixels_after_tri(prev.0, prev.1, w, h, t, light, gamma, tex),
            depth_after_tri(prev.1, w, h, t),
        )
    }
}

/// A colour buffer of transparent black.
pub open spec fn cleared_pixels(n: nat) -> Seq<u8> {
    Seq::new(n, |i: int| 0u8)
}

/// A depth buffer at the far plane.
pub open spec fn cleared_depth(n: nat) -> Seq<i64> {
    Seq::new(n, |i: int| FX_ONE)
}

/// The rasterizer: the target dimensions, the screen-mapped vertex
/// positions of the current frame, and the framebuffer it renders into.
pub struct Rasterizer {
    pub width: i32,
    pub height: i32,
    pub screen_positions: Vec<IVec2>,
    pub framebuffer: Framebuffer,
}

impl Rasterizer {
    /// The framebuffer exists and matches the rasterizer's dimensions.
    pub open spec fn well_formed(&self) -> bool {
        &&& self.framebuffer.well_formed()
        &&& self.framebuffer.width == self.width
        &&& self.framebuffer.height == self.height
    }

    /// Allocates a rasterizer with a cleared framebuffer of the given
    /// dimensions; non-positive dimensions are refused.
    pub fn new(width: i32, height: i32) -> (r: Result<Rasterizer, RenderError>)
        requires
            width * height * 4 <= i32::MAX,
        ensures
            (width <= 0 || height <= 0) <==> r is Err,
            r is Err ==> r == Err::<Rasterizer, RenderError>(RenderError::InvalidDimensions),
            r is Ok ==> ({
                let rr = r->Ok_0;
                &&& rr.well_formed()
                &&& rr.width == width
                &&& rr.height == height
                &&& rr.screen_positions@.len() == 0
            }),
    {
        let framebuffer = match Framebuffer::new(width, height) {
            Ok(fb) => fb,
            Err(e) => {
                return Err(e);
            },
        };
        Ok(Rasterizer { width, height, screen_positions: Vec::new(), framebuffer })
    }

    /// Maps every NDC position of the input to pixel coordinates.
    pub fn screen_mapping(&mut self, input: &RasterizerInput)
        requires
            old(self).well_formed(),
            forall|i: int|
                0 <= i < input.positions@.len() ==> vec3_bounded(#[trigger] input.positions@[i]),
        ensures
            final(self).well_formed(),
            final(self).width == old(self).width,
            final(self).height == old(self).height,
            final(self).framebuffer == old(self).framebuffer,
            final(self).screen_positions@.len() == input.positions@.len(),
            forall|i: int|
                0 <= i < input.positions@.len() ==> #[trigger] final(self).screen_positions@[i]
                    == screen_pos_spec(
                    input.positions@[i],
                    old(self).width as int,
                    old(self).height as int,
                ),
    {
        let n = input.positions.len();
        let mut screen: Vec<IVec2> = Vec::new();
        let mut i: usize = 0;
        while i < n
            invariant
                i <= n,
                n == input.positions@.len(),
                screen@.len() == i,
                self == old(self),
                forall|j: int|
                    0 <= j < input.positions@.len() ==> vec3_bounded(
                        #[trigger] input.positions@[j],
                    ),
                forall|j: int|
                    0 <= j < i ==> #[trigger] screen@[j] == screen_pos_spec(
                        input.positions@[j],
                        old(self).width as int,
                        old(self).height as int,
                    ),
            decreases n - i,
        {
            screen.push(norm_to_image_coords(&input.positions[i], self.width, self.height));
            i = i + 1;
        }
        self.screen_positions = screen;
    }

    /// Clears the framebuffer and rasterizes every triangle of the input in
    /// order (one or two trailing vertices beyond the last whole triangle
    /// are ignored); refused when no texture is bound, with the framebuffer
    /// left untouched.
    pub fn rasterize(&mut self, input: &RasterizerInput) -> (r: Result<(), RenderError>)
        requires
            old(self).well_formed(),
            input.well_formed(),
            old(self).screen_positions@.len() == input.positions@.len(),
        ensures
            final(self).well_formed(),
            final(self).width == old(self).width,
            final(self).height == old(self).height,
            final(self).screen_positions@ == old(self).screen_positions@,
            r is Err <==> input.textures@.len() == 0,
            r is Err ==> r == Err::<(), RenderError>(RenderError::MissingTexture) && *final(self)
                == *old(self),
            r is Ok ==> ({
                let w = old(self).width as int;
                let h = old(self).height as int;
                let after = raster_after(
                    cleared_pixels(old(self).framebuffer.pixels@.len()),
                    cleared_depth(old(self).framebuffer.depth@.len()),
                    w,
                    h,
                    old(self).screen_positions@,
                    input.positions@,
                    input.normals@,
                    input.uv_coords@,
                    input.uniforms.sun_light_dir,
                    input.uniforms.gamma,
                    input.textures@[0],
                    input.positions@.len() as int / 3,
                );
                final(self).framebuffer.pixels@ == after.0 && final(self).framebuffer.depth@
                    == after.1
            }),
    {
        if input.textures.len() == 0 {
            return Err(RenderError::MissingTexture);
        }
        let ghost w = self.width as int;
        let ghost h = self.height as int;
        self.framebuffer.clear();
        proof {
            assert(self.framebuffer.pixels@ =~= cleared_pixels(
                old(self).framebuffer.pixels@.len(),
            ));
            assert(self.framebuffer.depth@ =~= cleared_depth(old(self).framebuffer.depth@.len()));
        }
        let ghost p0 = self.framebuffer.pixels@;
        let ghost d0 = self.framebuffer.depth@;
        let n = self.screen_positions.len();
        let ntri = n / 3;
        let mut k: usize = 0;
        while k < ntri
            invariant
                k <= ntri,
                ntri == n / 3,
                n == input.positions@.len(),
                n == self.screen_positions@.len(),
                input.well_formed(),
                input.textures@.len() > 0,
                self.screen_positions@ == old(self).screen_positions@,
                self.width == old(self).width,
                self.height == old(self).height,
                self.framebuffer.well_formed(),
                self.framebuffer.width == old(self).width,
                self.framebuffer.height == old(self).height,
                w == old(self).width as int,
                h == old(self).height as int,
                p0 == cleared_pixels(old(self).framebuffer.pixels@.len()),
                d0 == cleared_depth(old(self).framebuffer.depth@.len()),
                self.framebuffer.pixels@ == raster_after(
                    p0,
                    d0,
                    w,
                    h,
                    self.screen_positions@,
                    input.positions@,
                    input.normals@,
                    input.uv_coords@,
                    input.uniforms.sun_light_dir,
                    input.uniforms.gamma,
                    input.textures@[0],
                    k as int,
                ).0,
                self.framebuffer.depth@ == raster_after(
                    p0,
                    d0,
                    w,
                    h,
                    self.screen_positions@,
                    input.positions@,
                    input.normals@,
                    input.uv_coords@,
                    input.uniforms.sun_light_dir,
                    input.uniforms.gamma,
                    input.textures@[0],
                    k as int,
                ).1,
            decreases ntri - k,
        {
            proof {
                assert(3 * k + 2 < n) by (nonlinear_arith)
                    requires
                        k < ntri,
                        ntri == n / 3,
                        n == 3 * (n / 3) + n % 3,
                        0 <= n % 3 < 3,
                ;
            }
            let t = TriVerts {
                p1: self.screen_positions[3 * k],
                p2: self.screen_positions[3 * k + 1],
                p3: self.screen_positions[3 * k + 2],
                z1: input.positions[3 * k].z,
                z2: input.positions[3 * k + 1].z,
                z3: input.positions[3 * k + 2].z,
                n1: input.normals[3 * k],
                n2: input.normals[3 * k + 1],
                n3: input.normals[3 * k + 2],
                t1: input.uv_coords[3 * k],
                t2: input.uv_coords[3 * k + 1],
                t3: input.uv_coords[3 * k + 2],
            };
            proof {
                assert(t == tri_at(self.screen_positions@, input.positions@, input.normals@, input.uv_coords@, k as int));
                assert(tri_bounded(t));
            }
            rasterize_triangle(
                &mut self.framebuffer,
                &t,
                &input.uniforms.sun_light_dir,
                input.uniforms.gamma,
                &input.textures[0],
            );
            k = k + 1;
        }
        proof {
            assert(input.positions@.len() as int / 3 == ntri as int);
        }
        Ok(())
    }

    /// Runs the stage: screen mapping, then rasterization.
    pub fn run(&mut self, input: &RasterizerInput) -> (r: Result<(), RenderError>)
        requires
            old(self).well_formed(),
            input.well_formed(),
        ensures
            final(self).well_formed(),
            final(self).width == old(self).width,
            final(self).height == old(self).height,
            final(self).screen_positions@.len() == input.positions@.len(),
            forall|i: int|
                0 <= i < input.positions@.len() ==> #[trigger] final(self).screen_positions@[i]
                    == screen_pos_spec(
                    input.positions@[i],
                    old(self).width as int,
                    old(self).height as int,
                ),
            r is Err <==> input.textures@.len() == 0,
            r is Err ==> r == Err::<(), RenderError>(RenderError::MissingTexture)
                && final(self).framebuffer == old(self).framebuffer,
            r is Ok ==> ({
                let w = old(self).width as int;
                let h = old(self).height as int;
                let screen = Seq::new(
                    input.positions@.len(),
                    |i: int| screen_pos_spec(input.positions@[i], w, h),
                );
                let after = raster_after(
                    cleared_pixels(old(self).framebuffer.pixels@.len()),
                    cleared_depth(old(self).framebuffer.depth@.len()),
                    w,
                    h,
                    screen,
                    input.positions@,
                    input.normals@,
                    input.uv_coords@,
                    input.uniforms.sun_light_dir,
                    input.uniforms.gamma,
                    input.textures@[0],
                    input.positions@.len() as int / 3,
                );
                final(self).framebuffer.pixels@ == after.0 && final(self).framebuffer.depth@
                    == after.1
            }),
    {
        self.screen_mapping(input);
        let r = self.rasterize(input);
        proof {
            let w = old(self).width as int;
            let h = old(self).height as int;
            let screen = Seq::new(
                input.positions@.len(),
                |i: int| screen_pos_spec(input.positions@[i], w, h),
            );
            assert(self.screen_positions@ =~= screen);
        }
        r
    }
}

/// Whether the triangle's fragment at `pt` lies in the clamped bounding
/// box, passes the inside-test, and is nearer than the depth `d`.
pub open spec fn covers(pt: IVec2, t: TriVerts, w: int, h: int, d: int) -> bool {
    &&& in_bbox(pt, t, w, h)
    &&& inside_spec(pt, t.p1, t.p2, t.p3)
    &&& tri_depth_at(pt, t) < d
}

/// Depth-test order independence: rasterizing two triangles whose fragment
/// depths differ wherever both could shade a pixel leaves, in either order,
/// the same colour and depth at that pixel; where both pass the depth test
/// against the initial buffer, the nearer triangle's shaded colour wins.
pub proof fn lemma_depth_order_independence(
    p0: Seq<u8>,
    d0: Seq<i64>,
    w: int,
    h: int,
    ta: TriVerts,
    tb: TriVerts,
    light: Vec3,
    gamma: u32,
    tex: Texture,
    pt: IVec2,
)
    requires
        0 < w,
        0 < h,
        d0.len() == w * h,
        p0.len() == w * h * 4,
        0 <= pt.x < w,
        0 <= pt.y < h,
        in_bbox(pt, ta, w, h) && inside_spec(pt, ta.p1, ta.p2, ta.p3) && in_bbox(pt, tb, w, h)
            && inside_spec(pt, tb.p1, tb.p2, tb.p3) ==> tri_depth_at(pt, ta) != tri_depth_at(
            pt,
            tb,
        ),
    ensures
        ({
            let ip = pt.y * w + pt.x;
            let d_a = depth_after_tri(d0, w, h, ta);
            let p_a = pixels_after_tri(p0, d0, w, h, ta, light, gamma, tex);
            let d_ab = depth_after_tri(d_a, w, h, tb);
            let p_ab = pixels_after_tri(p_a, d_a, w, h, tb, light, gamma, tex);
            let d_b = depth_after_tri(d0, w, h, tb);
            let p_b = pixels_after_tri(p0, d0, w, h, tb, light, gamma, tex);
            let d_ba = depth_after_tri(d_b, w, h, ta);
            let p_ba = pixels_after_tri(p_b, d_b, w, h, ta, light, gamma, tex);
            &&& d_ab[ip] == d_ba[ip]
            &&& forall|k: int|
                0 <= k < 4 ==> #[trigger] p_ab[ip * 4 + k] == p_ba[ip * 4 + k]
            &&& (covers(pt, ta, w, h, d0[ip] as int) && covers(pt, tb, w, h, d0[ip] as int) && tri_depth_at(
                pt,
                ta,
            ) < tri_depth_at(pt, tb)) ==> {
                let c = tri_color_at(pt, ta, light, gamma, tex);
                &&& d_ab[ip] == tri_depth_at(pt, ta)
                &&& d_ba[ip] == tri_depth_at(pt, ta)
                &&& p_ab[ip * 4] == byte_of_fx(c.x as int) as u8
                &&& p_ab[ip * 4 + 1] == byte_of_fx(c.y as int) as u8
                &&& p_ab[ip * 4 + 2] == byte_of_fx(c.z as int) as u8
                &&& p_ab[ip * 4 + 3] == byte_of_fx(FX_ONE as int) as u8
                &&& p_ba[ip * 4] == byte_of_fx(c.x as int) as u8
                &&& p_ba[ip * 4 + 1] == byte_of_fx(c.y as int) as u8
                &&& p_ba[ip * 4 + 2] == byte_of_fx(c.z as int) as u8
                &&& p_ba[ip * 4 + 3] == byte_of_fx(FX_ONE as int) as u8
            }
        }),
{
    let ip = pt.y * w + pt.x;
    lemma_row_major(w, pt.x as int, pt.y as int);
    assert(pt_of_index(ip, w) == pt);
    assert(0 <= ip && ip < w * h) by (nonlinear_arith)
        requires
            0 <= pt.x as int && (pt.x as int) < w,
            0 <= pt.y as int && (pt.y as int) < h,
            ip == pt.y as int * w + pt.x as int,
    ;
    assert(ip * 4 + 3 < w * h * 4) by (nonlinear_arith)
        requires
            0 <= ip && ip < w * h,
    ;
    let d_a = depth_after_tri(d0, w, h, ta);
    let d_b = depth_after_tri(d0, w, h, tb);
    assert(d_a.len() == d0.len() && d_b.len() == d0.len());
    assert forall|k: int| 0 <= k < 4 implies pt_of_index(#[trigger] (ip * 4 + k) / 4, w) == pt
        && (ip * 4 + k) % 4 == k by {
        lemma_chan_index(ip, k);
    }
}

} // verus!
