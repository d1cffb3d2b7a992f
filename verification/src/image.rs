//! A plain RGBA image with line and triangle drawing.
//!
//! The image shares the framebuffer's pixel discipline: colours are handed
//! in as fixed-point RGBA in `[0, 1]` and stored as bytes
//! (`round(channel * 255)`); negative coordinates are ignored, coordinates
//! beyond the upper edges must be avoided by the caller.

use vstd::prelude::*;
use crate::RenderError;
use crate::framebuffer::byte_of_fx;
use crate::framebuffer::color_in_range;
use crate::framebuffer::fx_of_byte;
use crate::framebuffer::lemma_lerp_between;
use crate::framebuffer::lerp_y;
use crate::framebuffer::line_paints;
use crate::framebuffer::pix_base;
use crate::framebuffer::pixels_after_line;
use crate::framebuffer::pixels_after_set;
use crate::math::IVec2;
use crate::math::Vec2;
use crate::math::Vec3;
use crate::math::Vec4;
use crate::rasterizer::TriVerts;
use crate::rasterizer::bbox_max_x;
use crate::rasterizer::cross_den;
use crate::rasterizer::in_bbox;
use crate::rasterizer::inside_spec;
use crate::rasterizer::is_inside_triangle;

verus! {

/// The three screen positions as a triangle record (the attributes that
/// only the shading pipeline reads are zero).
pub open spec fn tri_of_points(p1: IVec2, p2: IVec2, p3: IVec2) -> TriVerts {
    TriVerts {
        p1,
        p2,
        p3,
        z1: 0,
        z2: 0,
        z3: 0,
        n1: Vec3 { x: 0, y: 0, z: 0 },
        n2: Vec3 { x: 0, y: 0, z: 0 },
        n3: Vec3 { x: 0, y: 0, z: 0 },
        t1: Vec2 { x: 0, y: 0 },
        t2: Vec2 { x: 0, y: 0 },
        t3: Vec2 { x: 0, y: 0 },
    }
}

/// Whether filling the triangle paints the pixel: it lies in the
/// triangle's bounding box clamped to the image and passes the barycentric
/// inside-test.
pub open spec fn fill_paints(
    p1: IVec2,
    p2: IVec2,
    p3: IVec2,
    w: int,
    h: int,
    px: int,
    py: int,
) -> bool {
    let pt = IVec2 { x: px as i32, y: py as i32 };
    in_bbox(pt, tri_of_points(p1, p2, p3), w, h) && inside_spec(pt, p1, p2, p3)
}

/// The pixel buffer after filling the triangle: painted pixels hold the
/// colour's bytes, all others are untouched.
pub open spec fn pixels_after_fill(
    p: Seq<u8>,
    w: int,
    h: int,
    p1: IVec2,
    p2: IVec2,
    p3: IVec2,
    value: Vec4,
) -> Seq<u8> {
    Seq::new(
        p.len(),
        |i: int|
            {
                let pix = i / 4;
                if fill_paints(p1, p2, p3, w, h, pix % w, pix / w) {
                    if i % 4 == 0 {
                        byte_of_fx(value.x as int) as u8
                    } else if i % 4 == 1 {
                        byte_of_fx(value.y as int) as u8
                    } else if i % 4 == 2 {
                        byte_of_fx(value.z as int) as u8
                    } else {
                        byte_of_fx(value.w as int) as u8
                    }
                } else {
                    p[i]
                }
            },
    )
}

/// A row-major RGBA byte image.
pub struct Image {
    pub pixels: Vec<u8>,
    pub width: i32,
    pub height: i32,
    pub channels: i32,
}

impl Image {
    /// The buffer matches the dimensions, and the index arithmetic on it
    /// stays within `i32`.
    pub open spec fn well_formed(&self) -> bool {
        &&& 0 < self.width
        &&& 0 < self.height
        &&& self.channels == 4
        &&& self.width * self.height * 4 <= i32::MAX
        &&& self.pixels@.len() == self.width * self.height * 4
    }

    /// Allocates a zeroed image of the given dimensions; non-positive
    /// dimensions are refused.
    pub fn new(width: i32, height: i32) -> (r: Result<Image, RenderError>)
        requires
            width * height * 4 <= i32::MAX,
        ensures
            (width <= 0 || height <= 0) <==> r is Err,
            r is Err ==> r == Err::<Image, RenderError>(RenderError::InvalidDimensions),
            r is Ok ==> ({
                let im = r->Ok_0;
                &&& im.well_formed()
                &&& im.width == width
                &&& im.height == height
                &&& forall|i: int| 0 <= i < im.pixels@.len() ==> im.pixels@[i] == 0
            }),
    {
        if width <= 0 || height <= 0 {
            return Err(RenderError::InvalidDimensions);
        }
        proof {
            assert(0 < width * height && width * height * 4 == (width * height) * 4)
                by (nonlinear_arith)
                requires
                    0 < width,
                    0 < height,
            ;
        }
        let n: usize = (width * height) as usize;
        let mut pixels: Vec<u8> = Vec::new();
        let mut i: usize = 0;
        while i < n * 4
            invariant
                pixels@.len() == i,
                i <= n * 4,
                n * 4 <= i32::MAX,
                forall|j: int| 0 <= j < i ==> pixels@[j] == 0,
            decreases n * 4 - i,
        {
            pixels.push(0);
            i = i + 1;
        }
        Ok(Image { pixels, width, height, channels: 4 })
    }

    /// Writes a colour (fixed-point RGBA in `[0, 1]`) at `(x, y)`, as the
    /// bytes `round(channel * 255)`; negative coordinates are ignored.
    pub fn set(&mut self, x: i32, y: i32, value: Vec4)
        requires
            old(self).well_formed(),
            color_in_range(value),
            x >= 0 && y >= 0 ==> x < old(self).width && y < old(self).height,
        ensures
            final(self).well_formed(),
            final(self).width == old(self).width,
            final(self).height == old(self).height,
            final(self).pixels@ == pixels_after_set(
                old(self).pixels@,
                old(self).width as int,
                x as int,
                y as int,
                value,
            ),
    {
        if x < 0 || y < 0 {
            return ;
        }
        proof {
            crate::framebuffer::lemma_grid_index(
                self.width as int,
                self.height as int,
                x as int,
                y as int,
            );
        }
        let base: usize = ((y * self.width + x) * 4) as usize;
        self.pixels[base] = ((value.x + 128) / 256) as u8;
        self.pixels[base + 1] = ((value.y + 128) / 256) as u8;
        self.pixels[base + 2] = ((value.z + 128) / 256) as u8;
        self.pixels[base + 3] = ((value.w + 128) / 256) as u8;
    }

    /// Reads back the colour at `(x, y)` as fixed-point RGBA (each stored
    /// byte divided by 255).
    pub fn get(&self, x: i32, y: i32) -> (r: Vec4)
        requires
            self.well_formed(),
            0 <= x < self.width,
            0 <= y < self.height,
        ensures
            r.x == fx_of_byte(self.pixels@[pix_base(self.width as int, x as int, y as int)] as int),
            r.y == fx_of_byte(
                self.pixels@[pix_base(self.width as int, x as int, y as int) + 1] as int,
            ),
            r.z == fx_of_byte(
                self.pixels@[pix_base(self.width as int, x as int, y as int) + 2] as int,
            ),
            r.w == fx_of_byte(
                self.pixels@[pix_base(self.width as int, x as int, y as int) + 3] as int,
            ),
            color_in_range(r),
    {
        proof {
            crate::framebuffer::lemma_grid_index(
                self.width as int,
                self.height as int,
                x as int,
                y as int,
            );
        }
        let base: usize = ((y * self.width + x) * 4) as usize;
        Vec4 {
            x: 256 * (self.pixels[base] as i64),
            y: 256 * (self.pixels[base + 1] as i64),
            z: 256 * (self.pixels[base + 2] as i64),
            w: 256 * (self.pixels[base + 3] as i64),
        }
    }

    /// Draws a straight line from `from` to `to` (exclusive of `to` along
    /// the major axis), stepping one pixel per major-axis column and
    /// interpolating the other coordinate.
    #[verifier::loop_isolation(false)]
    #[verifier::rlimit(60)]
    pub fn line(&mut self, from: IVec2, to: IVec2, color: Vec4)
        requires
            old(self).well_formed(),
            color_in_range(color),
            0 <= from.x < old(self).width,
            0 <= from.y < old(self).height,
            0 <= to.x < old(self).width,
            0 <= to.y < old(self).height,
        ensures
            final(self).well_formed(),
            final(self).width == old(self).width,
            final(self).height == old(self).height,
            final(self).pixels@ == pixels_after_line(
                old(self).pixels@,
                old(self).width as int,
                from,
                to,
                color,
            ),
    {
        let ghost w = old(self).width as int;
        let ghost px0 = old(self).pixels@;
        let dxa = if from.x >= to.x { from.x - to.x } else { to.x - from.x };
        let dya = if from.y >= to.y { from.y - to.y } else { to.y - from.y };
        let steep = dxa < dya;
        let (mut x0, mut y0, mut x1, mut y1) = if steep {
            (from.y, from.x, to.y, to.x)
        } else {
            (from.x, from.y, to.x, to.y)
        };
        if x0 > x1 {
            let tx = x0;
            x0 = x1;
            x1 = tx;
            let ty = y0;
            y0 = y1;
            y1 = ty;
        }
        let mut x = x0;
        while x < x1
            invariant
                x0 <= x,
                x <= x1 || x == x0,
                self.well_formed(),
                self.width == old(self).width,
                self.height == old(self).height,
                self.pixels@.len() == px0.len(),
                forall|i: int|
                    0 <= i < px0.len() ==> #[trigger] self.pixels@[i] == (if line_paints(
                        from,
                        to,
                        (i / 4) % w,
                        (i / 4) / w,
                    ) && (if steep {
                        (i / 4) / w
                    } else {
                        (i / 4) % w
                    }) < x {
                        pixels_after_line(px0, w, from, to, color)[i]
                    } else {
                        px0[i]
                    }),
            decreases x1 - x,
        {
            proof {
                crate::fixed::lemma_mul_bounds(
                    y1 as int - y0 as int,
                    x as int - x0 as int,
                    0x1_0000_0000,
                    0x1_0000_0000,
                );
                lemma_lerp_between(x0 as int, y0 as int, x1 as int, y1 as int, x as int);
            }
            let q = crate::fixed::trunc_div_i128(
                ((y1 as i128) - (y0 as i128)) * ((x as i128) - (x0 as i128)),
                (x1 as i128) - (x0 as i128),
            );
            let yv: i32 = (y0 as i64 + q as i64) as i32;
            proof {
                assert(yv == lerp_y(x0 as int, y0 as int, x1 as int, y1 as int, x as int));
            }
            let (px, py) = if steep {
                (yv, x)
            } else {
                (x, yv)
            };
            let ghost pix = py as int * w + px as int;
            proof {
                crate::framebuffer::lemma_grid_index(
                    w,
                    old(self).height as int,
                    px as int,
                    py as int,
                );
                vstd::arithmetic::div_mod::lemma_fundamental_div_mod_converse_div(
                    py as int * w + px as int,
                    w,
                    py as int,
                    px as int,
                );
                vstd::arithmetic::div_mod::lemma_fundamental_div_mod_converse_mod(
                    py as int * w + px as int,
                    w,
                    py as int,
                    px as int,
                );
                assert(line_paints(from, to, px as int, py as int));
            }
            let ghost pix_before = self.pixels@;
            self.set(px, py, color);
            proof {
                let after = pixels_after_line(px0, w, from, to, color);
                assert forall|i: int| 0 <= i < px0.len() implies #[trigger] self.pixels@[i] == (
                if line_paints(from, to, (i / 4) % w, (i / 4) / w) && (if steep {
                    (i / 4) / w
                } else {
                    (i / 4) % w
                }) < x + 1 {
                    after[i]
                } else {
                    px0[i]
                }) by {
                    let base = pix * 4;
                    if base <= i < base + 4 {
                        vstd::arithmetic::div_mod::lemma_fundamental_div_mod_converse_div(
                            i,
                            4,
                            pix,
                            i - base,
                        );
                        vstd::arithmetic::div_mod::lemma_fundamental_div_mod_converse_mod(
                            i,
                            4,
                            pix,
                            i - base,
                        );
                    } else {
                        assert(self.pixels@[i] == pix_before[i]);
                        if (i / 4) % w == px as int && (i / 4) / w == py as int {
                            vstd::arithmetic::div_mod::lemma_fundamental_div_mod(i, 4);
                            vstd::arithmetic::div_mod::lemma_mod_division_less_than_divisor(i, 4);
                            vstd::arithmetic::div_mod::lemma_fundamental_div_mod(i / 4, w);
                            vstd::arithmetic::div_mod::lemma_mod_division_less_than_divisor(
                                i / 4,
                                w,
                            );
                            assert(i / 4 == pix) by (nonlinear_arith)
                                requires
                                    i / 4 == w * ((i / 4) / w) + (i / 4) % w,
                                    (i / 4) % w == px as int,
                                    (i / 4) / w == py as int,
                                    pix == py as int * w + px as int,
                            ;
                            assert(base <= i < base + 4);
                        }
                    }
                }
            }
            x = x + 1;
        }
        proof {
            let after = pixels_after_line(px0, w, from, to, color);
            assert forall|i: int| 0 <= i < px0.len() implies self.pixels@[i] == after[i] by {
                if line_paints(from, to, (i / 4) % w, (i / 4) / w) {
                    assert((if steep {
                        (i / 4) / w
                    } else {
                        (i / 4) % w
                    }) < x);
                }
            }
            assert(self.pixels@ =~= after);
        }
    }

    /// Draws the triangle's outline: a line along each of its three edges.
    pub fn triangle(&mut self, p1: IVec2, p2: IVec2, p3: IVec2, color: Vec4)
        requires
            old(self).well_formed(),
            color_in_range(color),
            0 <= p1.x < old(self).width,
            0 <= p1.y < old(self).height,
            0 <= p2.x < old(self).width,
            0 <= p2.y < old(self).height,
            0 <= p3.x < old(self).width,
            0 <= p3.y < old(self).height,
        ensures
            final(self).well_formed(),
            final(self).width == old(self).width,
            final(self).height == old(self).height,
            final(self).pixels@ == pixels_after_line(
                pixels_after_line(
                    pixels_after_line(
                        old(self).pixels@,
                        old(self).width as int,
                        p1,
                        p2,
                        color,
                    ),
                    old(self).width as int,
                    p2,
                    p3,
                    color,
                ),
                old(self).width as int,
                p3,
                p1,
                color,
            ),
    {
        self.line(p1, p2, color);
        self.line(p2, p3, color);
        self.line(p3, p1, color);
    }

    /// Fills the triangle: scans its clamped bounding box and paints every
    /// pixel that passes the barycentric inside-test. A degenerate
    /// (colinear) triangle paints nothing anywhere.
    #[verifier::loop_isolation(false)]
    #[verifier::rlimit(60)]
    pub fn fill_triangle(&mut self, p1: IVec2, p2: IVec2, p3: IVec2, color: Vec4)
        requires
            old(self).well_formed(),
            color_in_range(color),
        ensures
            final(self).well_formed(),
            final(self).width == old(self).width,
            final(self).height == old(self).height,
            final(self).pixels@ == pixels_after_fill(
                old(self).pixels@,
                old(self).width as int,
                old(self).height as int,
                p1,
                p2,
                p3,
                color,
            ),
            cross_den(p1, p2, p3) == 0 ==> final(self).pixels@ == old(self).pixels@,
    {
        let ghost w = old(self).width as int;
        let ghost h = old(self).height as int;
        let ghost px0 = old(self).pixels@;
        let ghost t = tri_of_points(p1, p2, p3);
        let min_x: i32 = {
            let m = if p1.x < p2.x { p1.x } else { p2.x };
            let m = if m < p3.x { m } else { p3.x };
            if m > 0 { m } else { 0 }
        };
        let max_x: i32 = {
            let m = if p1.x > p2.x { p1.x } else { p2.x };
            let m = if m > p3.x { m } else { p3.x };
            if m < self.width { m } else { self.width }
        };
        let min_y: i32 = {
            let m = if p1.y < p2.y { p1.y } else { p2.y };
            let m = if m < p3.y { m } else { p3.y };
            if m > 0 { m } else { 0 }
        };
        let max_y: i32 = {
            let m = if p1.y > p2.y { p1.y } else { p2.y };
            let m = if m > p3.y { m } else { p3.y };
            if m < self.height { m } else { self.height }
        };
        let mut x: i32 = min_x;
        while x < max_x
            invariant
                min_x <= x,
                x <= max_x || x == min_x,
                self.well_formed(),
                self.width == old(self).width,
                self.height == old(self).height,
                self.pixels@.len() == px0.len(),
                forall|i: int|
                    0 <= i < px0.len() ==> #[trigger] self.pixels@[i] == (if fill_paints(
                        p1,
                        p2,
                        p3,
                        w,
                        h,
                        (i / 4) % w,
                        (i / 4) / w,
                    ) && (i / 4) % w < x {
                        pixels_after_fill(px0, w, h, p1, p2, p3, color)[i]
                    } else {
                        px0[i]
                    }),
            decreases max_x - x,
        {
            let mut y: i32 = min_y;
            while y < max_y
                invariant
                    min_x <= x < max_x,
                    min_y <= y,
                    y <= max_y || y == min_y,
                    self.well_formed(),
                    self.width == old(self).width,
                    self.height == old(self).height,
                    self.pixels@.len() == px0.len(),
                    forall|i: int|
                        0 <= i < px0.len() ==> #[trigger] self.pixels@[i] == (if fill_paints(
                            p1,
                            p2,
                            p3,
                            w,
                            h,
                            (i / 4) % w,
                            (i / 4) / w,
                        ) && ((i / 4) % w < x || ((i / 4) % w == x && (i / 4) / w < y)) {
                            pixels_after_fill(px0, w, h, p1, p2, p3, color)[i]
                        } else {
                            px0[i]
                        }),
                decreases max_y - y,
            {
                let pt = IVec2 { x, y };
                let ghost pix = y as int * w + x as int;
                proof {
                    vstd::arithmetic::div_mod::lemma_fundamental_div_mod_converse_div(
                        pix,
                        w,
                        y as int,
                        x as int,
                    );
                    vstd::arithmetic::div_mod::lemma_fundamental_div_mod_converse_mod(
                        pix,
                        w,
                        y as int,
                        x as int,
                    );
                }
                if is_inside_triangle(pt, p1, p2, p3) {
                    proof {
                        crate::framebuffer::lemma_grid_index(w, h, x as int, y as int);
                    }
                    let ghost pix_before = self.pixels@;
                    self.set(x, y, color);
                    proof {
                        assert(fill_paints(p1, p2, p3, w, h, x as int, y as int));
                        let after = pixels_after_fill(px0, w, h, p1, p2, p3, color);
                        assert forall|i: int| 0 <= i < px0.len() implies #[trigger] self.pixels@[i]
                            == (if fill_paints(p1, p2, p3, w, h, (i / 4) % w, (i / 4) / w) && ((i
                            / 4) % w < x || ((i / 4) % w == x && (i / 4) / w < y + 1)) {
                            after[i]
                        } else {
                            px0[i]
                        }) by {
                            let base = pix * 4;
                            if base <= i < base + 4 {
                                vstd::arithmetic::div_mod::lemma_fundamental_div_mod_converse_div(
                                    i,
                                    4,
                                    pix,
                                    i - base,
                                );
                                vstd::arithmetic::div_mod::lemma_fundamental_div_mod_converse_mod(
                                    i,
                                    4,
                                    pix,
                                    i - base,
                                );
                            } else {
                                assert(self.pixels@[i] == pix_before[i]);
                                if (i / 4) % w == x as int && (i / 4) / w == y as int {
                                    vstd::arithmetic::div_mod::lemma_fundamental_div_mod(i, 4);
                                    vstd::arithmetic::div_mod::lemma_mod_division_less_than_divisor(
                                        i,
                                        4,
                                    );
                                    vstd::arithmetic::div_mod::lemma_fundamental_div_mod(i / 4, w);
                                    vstd::arithmetic::div_mod::lemma_mod_division_less_than_divisor(
                                        i / 4,
                                        w,
                                    );
                                    assert(i / 4 == pix) by (nonlinear_arith)
                                        requires
                                            i / 4 == w * ((i / 4) / w) + (i / 4) % w,
                                            (i / 4) % w == x as int,
                                            (i / 4) / w == y as int,
                                            pix == y as int * w + x as int,
                                    ;
                                    assert(base <= i < base + 4);
                                }
                            }
                        }
                    }
                } else {
                    proof {
                        assert(!fill_paints(p1, p2, p3, w, h, x as int, y as int));
                    }
                }
                y = y + 1;
            }
            x = x + 1;
        }
        proof {
            let after = pixels_after_fill(px0, w, h, p1, p2, p3, color);
            assert forall|i: int| 0 <= i < px0.len() implies self.pixels@[i] == after[i] by {
                if fill_paints(p1, p2, p3, w, h, (i / 4) % w, (i / 4) / w) {
                    assert((i / 4) % w < bbox_max_x(t, w));
                }
            }
            assert(self.pixels@ =~= after);
            if cross_den(p1, p2, p3) == 0 {
                assert forall|i: int| 0 <= i < px0.len() implies after[i] == px0[i] by {
                    assert(!inside_spec(
                        IVec2 { x: ((i / 4) % w) as i32, y: ((i / 4) / w) as i32 },
                        p1,
                        p2,
                        p3,
                    ));
                }
                assert(after =~= px0);
            }
        }
    }

    /// Hands out the raw row-major RGBA byte buffer for an external encoder
    /// or presenter; the dimensions are the public `width` and `height`.
    pub fn export(&self) -> (r: &Vec<u8>)
        ensures
            r@ == self.pixels@,
    {
        &self.pixels
    }
}

} // verus!
