//! The colour + depth framebuffer the rasterizer writes into.
//!
//! Colours are handed in as fixed-point RGBA in `[0, 1]` per channel and
//! stored as bytes (`round(channel * 255)`); depths are fixed-point values
//! where `FX_ONE` is the farthest plane. Writes at negative coordinates are
//! silently ignored; coordinates beyond the upper edges must be avoided by
//! the caller (the rasterizer's bounding boxes are clamped to the buffer).

use vstd::prelude::*;
use crate::RenderError;
use crate::fixed::FX_ONE;
use crate::math::IVec2;
use crate::math::Vec4;

verus! {

/// A byte channel from a fixed-point channel in `[0, 1]`:
/// `round(c * 255)`, which on the `255 * 256` grid is exactly
/// `(c + 128) / 256`.
pub open spec fn byte_of_fx(c: int) -> int {
    (c + 128) / 256
}

/// A fixed-point channel from a stored byte: `b / 255` as a fixed-point
/// value, which on the `255 * 256` grid is exactly `256 * b`.
pub open spec fn fx_of_byte(b: int) -> int {
    256 * b
}

/// The index of pixel `(x, y)`'s first channel in a row-major RGBA buffer.
pub open spec fn pix_base(width: int, x: int, y: int) -> int {
    (y * width + x) * 4
}

/// The colour buffer after writing `value` at `(x, y)`: unchanged when a
/// coordinate is negative, else the pixel's four bytes are replaced.
pub open spec fn pixels_after_set(p: Seq<u8>, width: int, x: int, y: int, value: Vec4) -> Seq<
    u8,
> {
    if x < 0 || y < 0 {
        p
    } else {
        let base = pix_base(width, x, y);
        p.update(base, byte_of_fx(value.x as int) as u8).update(
            base + 1,
            byte_of_fx(value.y as int) as u8,
        ).update(base + 2, byte_of_fx(value.z as int) as u8).update(
            base + 3,
            byte_of_fx(value.w as int) as u8,
        )
    }
}

/// The depth buffer after writing `value` at `(x, y)`: unchanged when a
/// coordinate is negative, else the pixel's depth cell is replaced.
pub open spec fn depth_after_set(d: Seq<i64>, width: int, x: int, y: int, value: i64) -> Seq<
    i64,
> {
    if x < 0 || y < 0 {
        d
    } else {
        d.update(y * width + x, value)
    }
}

/// Every channel of the colour lies in the fixed-point interval `[0, 1]`.
pub open spec fn color_in_range(value: Vec4) -> bool {
    &&& 0 <= value.x <= FX_ONE
    &&& 0 <= value.y <= FX_ONE
    &&& 0 <= value.z <= FX_ONE
    &&& 0 <= value.w <= FX_ONE
}


/// The magnitude of a value.
pub open spec fn iabs(a: int) -> int {
    if a >= 0 {
        a
    } else {
        -a
    }
}

/// The interpolated coordinate of the line through `(x0, y0)` and
/// `(x1, y1)` at column `x`, truncated toward zero.
pub open spec fn lerp_y(x0: int, y0: int, x1: int, y1: int, x: int) -> int
    recommends
        x0 < x1,
{
    y0 + crate::fixed::trunc_div((y1 - y0) * (x - x0), x1 - x0)
}

/// Whether the line from `from` to `to` paints the pixel `(px, py)`: the
/// line is walked along its major axis from the lesser coordinate
/// (exclusive of the far endpoint), one pixel per step, the minor
/// coordinate interpolated.
pub open spec fn line_paints(from: IVec2, to: IVec2, px: int, py: int) -> bool {
    let steep = iabs(from.x - to.x) < iabs(from.y - to.y);
    if steep {
        let a = if from.y <= to.y { from } else { to };
        let b = if from.y <= to.y { to } else { from };
        a.y <= py < b.y && px == lerp_y(a.y as int, a.x as int, b.y as int, b.x as int, py)
    } else {
        let a = if from.x <= to.x { from } else { to };
        let b = if from.x <= to.x { to } else { from };
        a.x <= px < b.x && py == lerp_y(a.x as int, a.y as int, b.x as int, b.y as int, px)
    }
}

/// The colour buffer after drawing the line: painted pixels hold the
/// colour's bytes, all others are untouched.
pub open spec fn pixels_after_line(
    p: Seq<u8>,
    width: int,
    from: IVec2,
    to: IVec2,
    value: Vec4,
) -> Seq<u8> {
    Seq::new(
        p.len(),
        |i: int|
            {
                let pix = i / 4;
                if line_paints(from, to, pix % width, pix / width) {
                    if i % 4 == 0 {
                        byte_of_fx(value.x as int) as u8
                    } else if i % 4 == 1 {
                        byte_of_fx(value.y as int) as u8
                    } else if i % 4 == 2 {
                        byte_of_fx(value.z as int) as u8
                    } else {
                        byte_of_fx(value.w as int) as u8
                    }
                } else {
                    p[i]
                }
            },
    )
}

/// The interpolated coordinate lies between the endpoints' coordinates.
pub proof fn lemma_lerp_between(x0: int, y0: int, x1: int, y1: int, x: int)
    requires
        x0 <= x < x1,
    ensures
        y0 <= y1 ==> y0 <= lerp_y(x0, y0, x1, y1, x) <= y1,
        y1 <= y0 ==> y1 <= lerp_y(x0, y0, x1, y1, x) <= y0,
{
    let dy = y1 - y0;
    let dx = x1 - x0;
    let k = x - x0;
    let ady = iabs(dy);
    vstd::arithmetic::div_mod::lemma_div_pos_is_pos(ady * k, dx);
    assert(ady * k <= ady * dx) by (nonlinear_arith)
        requires
            0 <= k <= dx,
            0 <= ady,
    ;
    vstd::arithmetic::div_mod::lemma_div_is_ordered(ady * k, ady * dx, dx);
    vstd::arithmetic::div_mod::lemma_div_multiples_vanish(ady, dx);
    assert(0 <= ady * k);
    assert((ady * k) / dx <= ady);
    if dy >= 0 {
        assert(crate::fixed::trunc_div(dy * k, dx) == (ady * k) / dx);
    } else {
        assert(dy * k == -(ady * k)) by (nonlinear_arith)
            requires
                ady == -dy,
        ;
        if ady * k > 0 {
            assert(crate::fixed::trunc_div(dy * k, dx) == -((ady * k) / dx));
        } else {
            assert(ady * k == 0);
            assert(crate::fixed::trunc_div(dy * k, dx) == (ady * k) / dx);
        }
    }
}

/// A pixel position's cells lie inside the buffers.
pub proof fn lemma_grid_index(width: int, height: int, x: int, y: int)
    requires
        0 < width,
        0 < height,
        0 <= x < width,
        0 <= y < height,
    ensures
        0 <= y * width + x,
        y * width + x < width * height,
        0 <= pix_base(width, x, y),
        pix_base(width, x, y) + 3 < width * height * 4,
        y * (width * 4) + x * 4 == pix_base(width, x, y),
        0 <= y * (width * 4),
{
    assert(0 <= y * width + x && y * width + x < width * height && y * (width * 4) + x * 4 == (y
        * width + x) * 4 && 0 <= y * (width * 4)) by (nonlinear_arith)
        requires
            0 < width,
            0 < height,
            0 <= x < width,
            0 <= y < height,
    ;
    assert((y * width + x) * 4 < (width * height) * 4 && (width * height) * 4 == width * height
        * 4) by (nonlinear_arith)
        requires
            y * width + x < width * height,
    ;
}

/// A row-major colour buffer (4 bytes per pixel) and a depth buffer, with
/// their shared dimensions.
pub struct Framebuffer {
    pub pixels: Vec<u8>,
    pub depth: Vec<i64>,
    pub width: i32,
    pub height: i32,
    pub channels: i32,
}

impl Framebuffer {
    /// The buffers match the dimensions, and the index arithmetic on them
    /// stays within `i32`.
    pub open spec fn well_formed(&self) -> bool {
        &&& 0 < self.width
        &&& 0 < self.height
        &&& self.channels == 4
        &&& self.width * self.height * 4 <= i32::MAX
        &&& self.pixels@.len() == self.width * self.height * 4
        &&& self.depth@.len() == self.width * self.height
    }

    /// Allocates a buffer of the given dimensions, colour zeroed and depth
    /// at the far plane; non-positive dimensions are refused.
    pub fn new(width: i32, height: i32) -> (r: Result<Framebuffer, RenderError>)
        requires
            width * height * 4 <= i32::MAX,
        ensures
            (width <= 0 || height <= 0) <==> r is Err,
            r is Err ==> r == Err::<Framebuffer, RenderError>(RenderError::InvalidDimensions),
            r is Ok ==> ({
                let fb = r->Ok_0;
                &&& fb.well_formed()
                &&& fb.width == width
                &&& fb.height == height
                &&& forall|i: int| 0 <= i < fb.pixels@.len() ==> fb.pixels@[i] == 0
                &&& forall|i: int| 0 <= i < fb.depth@.len() ==> fb.depth@[i] == FX_ONE
            }),
    {
        if width <= 0 || height <= 0 {
            return Err(RenderError::InvalidDimensions);
        }
        proof {
            assert(0 < width * height && width * height * 4 == (width * height) * 4)
                by (nonlinear_arith)
                requires
                    0 < width,
                    0 < height,
            ;
        }
        let n: usize = (width * height) as usize;
        let mut pixels: Vec<u8> = Vec::new();
        let mut i: usize = 0;
        while i < n * 4
            invariant
                pixels@.len() == i,
                i <= n * 4,
                n * 4 <= i32::MAX,
                forall|j: int| 0 <= j < i ==> pixels@[j] == 0,
            decreases n * 4 - i,
        {
            pixels.push(0);
            i = i + 1;
        }
        let mut depth: Vec<i64> = Vec::new();
        let mut i: usize = 0;
        while i < n
            invariant
                depth@.len() == i,
                i <= n,
                forall|j: int| 0 <= j < i ==> depth@[j] == FX_ONE,
            decreases n - i,
        {
            depth.push(FX_ONE);
            i = i + 1;
        }
        Ok(Framebuffer { pixels, depth, width, height, channels: 4 })
    }

    /// Resets every pixel to transparent black and every depth to the far
    /// plane; called once at the start of each frame.
    pub fn clear(&mut self)
        requires
            old(self).well_formed(),
        ensures
            final(self).well_formed(),
            final(self).width == old(self).width,
            final(self).height == old(self).height,
            final(self).pixels@.len() == old(self).pixels@.len(),
            final(self).depth@.len() == old(self).depth@.len(),
            forall|i: int| 0 <= i < final(self).pixels@.len() ==> final(self).pixels@[i] == 0,
            forall|i: int| 0 <= i < final(self).depth@.len() ==> final(self).depth@[i] == FX_ONE,
    {
        let np: usize = self.pixels.len();
        let mut i: usize = 0;
        while i < np
            invariant
                self.pixels@.len() == np,
                i <= np,
                self.depth@ == old(self).depth@,
                self.width == old(self).width,
                self.height == old(self).height,
                self.channels == old(self).channels,
                forall|j: int| 0 <= j < i ==> self.pixels@[j] == 0,
            decreases np - i,
        {
            self.pixels[i] = 0;
            i = i + 1;
        }
        let nd: usize = self.depth.len();
        let mut i: usize = 0;
        while i < nd
            invariant
                self.depth@.len() == nd,
                i <= nd,
                self.pixels@.len() == np,
                self.width == old(self).width,
                self.height == old(self).height,
                self.channels == old(self).channels,
                forall|j: int| 0 <= j < np ==> self.pixels@[j] == 0,
                forall|j: int| 0 <= j < i ==> self.depth@[j] == FX_ONE,
            decreases nd - i,
        {
            self.depth[i] = FX_ONE;
            i = i + 1;
        }
    }

    /// Writes a colour (fixed-point RGBA in `[0, 1]`) at `(x, y)`, as the
    /// bytes `round(channel * 255)`; negative coordinates are ignored.
    pub fn set(&mut self, x: i32, y: i32, value: Vec4)
        requires
            old(self).well_formed(),
            color_in_range(value),
            x >= 0 && y >= 0 ==> x < old(self).width && y < old(self).height,
        ensures
            final(self).well_formed(),
            final(self).width == old(self).width,
            final(self).height == old(self).height,
            final(self).depth@ == old(self).depth@,
            final(self).pixels@ == pixels_after_set(
                old(self).pixels@,
                old(self).width as int,
                x as int,
                y as int,
                value,
            ),
    {
        if x < 0 || y < 0 {
            return ;
        }
        proof {
            lemma_grid_index(self.width as int, self.height as int, x as int, y as int);
        }
        let base: usize = ((y * self.width + x) * 4) as usize;
        self.pixels[base] = ((value.x + 128) / 256) as u8;
        self.pixels[base + 1] = ((value.y + 128) / 256) as u8;
        self.pixels[base + 2] = ((value.z + 128) / 256) as u8;
        self.pixels[base + 3] = ((value.w + 128) / 256) as u8;
    }

    /// Reads back the colour at `(x, y)` as fixed-point RGBA (each stored
    /// byte divided by 255).
    pub fn get(&self, x: i32, y: i32) -> (r: Vec4)
        requires
            self.well_formed(),
            0 <= x < self.width,
            0 <= y < self.height,
        ensures
            r.x == fx_of_byte(self.pixels@[pix_base(self.width as int, x as int, y as int)] as int),
            r.y == fx_of_byte(
                self.pixels@[pix_base(self.width as int, x as int, y as int) + 1] as int,
            ),
            r.z == fx_of_byte(
                self.pixels@[pix_base(self.width as int, x as int, y as int) + 2] as int,
            ),
            r.w == fx_of_byte(
                self.pixels@[pix_base(self.width as int, x as int, y as int) + 3] as int,
            ),
            color_in_range(r),
    {
        proof {
            lemma_grid_index(self.width as int, self.height as int, x as int, y as int);
        }
        let base: usize = ((y * self.width + x) * 4) as usize;
        Vec4 {
            x: 256 * (self.pixels[base] as i64),
            y: 256 * (self.pixels[base + 1] as i64),
            z: 256 * (self.pixels[base + 2] as i64),
            w: 256 * (self.pixels[base + 3] as i64),
        }
    }

    /// Writes a depth value at `(x, y)`; negative coordinates are ignored.
    pub fn set_depth(&mut self, x: i32, y: i32, value: i64)
        requires
            old(self).well_formed(),
            x >= 0 && y >= 0 ==> x < old(self).width && y < old(self).height,
        ensures
            final(self).well_formed(),
            final(self).width == old(self).width,
            final(self).height == old(self).height,
            final(self).pixels@ == old(self).pixels@,
            final(self).depth@ == depth_after_set(
                old(self).depth@,
                old(self).width as int,
                x as int,
                y as int,
                value,
            ),
    {
        if x < 0 || y < 0 {
            return ;
        }
        proof {
            lemma_grid_index(self.width as int, self.height as int, x as int, y as int);
        }
        let idx: usize = (y * self.width + x) as usize;
        self.depth[idx] = value;
    }

    /// Reads the depth value at `(x, y)`.
    pub fn get_depth(&self, x: i32, y: i32) -> (r: i64)
        requires
            self.well_formed(),
            0 <= x < self.width,
            0 <= y < self.height,
        ensures
            r == self.depth@[y * self.width + x],
    {
        proof {
            lemma_grid_index(self.width as int, self.height as int, x as int, y as int);
        }
        let idx: usize = (y * self.width + x) as usize;
        self.depth[idx]
    }


    /// Draws a straight line from `from` to `to` (exclusive of `to` along
    /// the major axis), stepping one pixel per major-axis column and
    /// interpolating the other coordinate.
    #[verifier::loop_isolation(false)]
    #[verifier::rlimit(60)]
    pub fn line(&mut self, from: IVec2, to: IVec2, color: Vec4)
        requires
            old(self).well_formed(),
            color_in_range(color),
            0 <= from.x < old(self).width,
            0 <= from.y < old(self).height,
            0 <= to.x < old(self).width,
            0 <= to.y < old(self).height,
        ensures
            final(self).well_formed(),
            final(self).width == old(self).width,
            final(self).height == old(self).height,
            final(self).depth@ == old(self).depth@,
            final(self).pixels@ == pixels_after_line(
                old(self).pixels@,
                old(self).width as int,
                from,
                to,
                color,
            ),
    {
        let ghost w = old(self).width as int;
        let ghost px0 = old(self).pixels@;
        let dxa = if from.x >= to.x { from.x - to.x } else { to.x - from.x };
        let dya = if from.y >= to.y { from.y - to.y } else { to.y - from.y };
        let steep = dxa < dya;
        let (mut x0, mut y0, mut x1, mut y1) = if steep {
            (from.y, from.x, to.y, to.x)
        } else {
            (from.x, from.y, to.x, to.y)
        };
        if x0 > x1 {
            let tx = x0;
            x0 = x1;
            x1 = tx;
            let ty = y0;
            y0 = y1;
            y1 = ty;
        }
        let mut x = x0;
        while x < x1
            invariant
                x0 <= x,
                x <= x1 || x == x0,
                self.well_formed(),
                self.width == old(self).width,
                self.height == old(self).height,
                self.depth@ == old(self).depth@,
                self.pixels@.len() == px0.len(),
                forall|i: int|
                    0 <= i < px0.len() ==> #[trigger] self.pixels@[i] == (if line_paints(
                        from,
                        to,
                        (i / 4) % w,
                        (i / 4) / w,
                    ) && (if steep {
                        (i / 4) / w
                    } else {
                        (i / 4) % w
                    }) < x {
                        pixels_after_line(px0, w, from, to, color)[i]
                    } else {
                        px0[i]
                    }),
            decreases x1 - x,
        {
            proof {
                crate::fixed::lemma_mul_bounds(
                    y1 as int - y0 as int,
                    x as int - x0 as int,
                    0x1_0000_0000,
                    0x1_0000_0000,
                );
                lemma_lerp_between(x0 as int, y0 as int, x1 as int, y1 as int, x as int);
            }
            let q = crate::fixed::trunc_div_i128(
                ((y1 as i128) - (y0 as i128)) * ((x as i128) - (x0 as i128)),
                (x1 as i128) - (x0 as i128),
            );
            let yv: i32 = (y0 as i64 + q as i64) as i32;
            proof {
                assert(yv == lerp_y(x0 as int, y0 as int, x1 as int, y1 as int, x as int));
            }
            let (px, py) = if steep {
                (yv, x)
            } else {
                (x, yv)
            };
            let ghost pix = py as int * w + px as int;
            proof {
                lemma_grid_index(w, old(self).height as int, px as int, py as int);
                vstd::arithmetic::div_mod::lemma_fundamental_div_mod_converse_div(
                    py as int * w + px as int,
                    w,
                    py as int,
                    px as int,
                );
                vstd::arithmetic::div_mod::lemma_fundamental_div_mod_converse_mod(
                    py as int * w + px as int,
                    w,
                    py as int,
                    px as int,
                );
                assert(line_paints(from, to, px as int, py as int));
            }
            let ghost pix_before = self.pixels@;
            self.set(px, py, color);
            proof {
                let after = pixels_after_line(px0, w, from, to, color);
                assert forall|i: int| 0 <= i < px0.len() implies #[trigger] self.pixels@[i] == (
                if line_paints(from, to, (i / 4) % w, (i / 4) / w) && (if steep {
                    (i / 4) / w
                } else {
                    (i / 4) % w
                }) < x + 1 {
                    after[i]
                } else {
                    px0[i]
                }) by {
                    let base = pix * 4;
                    if base <= i < base + 4 {
                        vstd::arithmetic::div_mod::lemma_fundamental_div_mod_converse_div(
                            i,
                            4,
                            pix,
                            i - base,
                        );
                        vstd::arithmetic::div_mod::lemma_fundamental_div_mod_converse_mod(
                            i,
                            4,
                            pix,
                            i - base,
                        );
                    } else {
                        assert(self.pixels@[i] == pix_before[i]);
                        if (i / 4) % w == px as int && (i / 4) / w == py as int {
                            vstd::arithmetic::div_mod::lemma_fundamental_div_mod(i, 4);
                            vstd::arithmetic::div_mod::lemma_mod_division_less_than_divisor(i, 4);
                            vstd::arithmetic::div_mod::lemma_fundamental_div_mod(i / 4, w);
                            vstd::arithmetic::div_mod::lemma_mod_division_less_than_divisor(
                                i / 4,
                                w,
                            );
                            assert(i / 4 == pix) by (nonlinear_arith)
                                requires
                                    i / 4 == w * ((i / 4) / w) + (i / 4) % w,
                                    (i / 4) % w == px as int,
                                    (i / 4) / w == py as int,
                                    pix == py as int * w + px as int,
                            ;
                            assert(base <= i < base + 4);
                        }
                    }
                }
            }
            x = x + 1;
        }
        proof {
            let after = pixels_after_line(px0, w, from, to, color);
            assert forall|i: int| 0 <= i < px0.len() implies self.pixels@[i] == after[i] by {
                if line_paints(from, to, (i / 4) % w, (i / 4) / w) {
                    assert((if steep {
                        (i / 4) / w
                    } else {
                        (i / 4) % w
                    }) < x);
                }
            }
            assert(self.pixels@ =~= after);
        }
    }

    /// Hands out the raw row-major RGBA byte buffer for an external encoder
    /// or presenter; the dimensions are the public `width` and `height`.
    pub fn export(&self) -> (r: &Vec<u8>)
        ensures
            r@ == self.pixels@,
    {
        &self.pixels
    }
}

/// Round trip through a stored pixel: writing a colour channel and reading
/// it back yields a value within one byte step (1/255, which is 256
/// fixed-point units) of the written value; the error is in fact at most
/// half a step.
pub proof fn lemma_pixel_round_trip(c: int)
    requires
        0 <= c <= FX_ONE,
    ensures
        0 <= fx_of_byte(byte_of_fx(c)) <= FX_ONE,
        -128 <= fx_of_byte(byte_of_fx(c)) - c <= 128,
{
    vstd::arithmetic::div_mod::lemma_fundamental_div_mod(c + 128, 256);
    vstd::arithmetic::div_mod::lemma_mod_division_less_than_divisor(c + 128, 256);
    vstd::arithmetic::div_mod::lemma_div_pos_is_pos(c + 128, 256);
    vstd::arithmetic::div_mod::lemma_div_is_ordered(c + 128, FX_ONE + 128, 256);
    assert((FX_ONE + 128) / 256 == 255);
}

} // verus!
