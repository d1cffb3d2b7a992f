use rasterizer::RenderError;
use rasterizer::fixed::{fx_clamp, fx_mul, fx_root, FX_HALF, FX_ONE};
use rasterizer::framebuffer::Framebuffer;
use rasterizer::geometry::{Geometry, GeometryInput};
use rasterizer::image::Image;
use rasterizer::math::{IVec2, Mat4, Vec2, Vec3, Vec4};
use rasterizer::pipeline::{Pipeline, Uniforms};
use rasterizer::rasterizer::{
    is_inside_triangle, norm_to_image_coords, rasterize_triangle, shade, Rasterizer,
    RasterizerInput, TriVerts,
};
use rasterizer::texture::Texture;

fn identity() -> Mat4 {
    Mat4 {
        r0: Vec4 { x: FX_ONE, y: 0, z: 0, w: 0 },
        r1: Vec4 { x: 0, y: FX_ONE, z: 0, w: 0 },
        r2: Vec4 { x: 0, y: 0, z: FX_ONE, w: 0 },
        r3: Vec4 { x: 0, y: 0, z: 0, w: FX_ONE },
    }
}

fn white_texture() -> Texture {
    Texture::new(1, 1, vec![255, 255, 255, 255]).unwrap()
}

fn flat_tri(p1: (i32, i32), p2: (i32, i32), p3: (i32, i32), z: i64, nz: i64) -> TriVerts {
    TriVerts {
        p1: IVec2 { x: p1.0, y: p1.1 },
        p2: IVec2 { x: p2.0, y: p2.1 },
        p3: IVec2 { x: p3.0, y: p3.1 },
        z1: z,
        z2: z,
        z3: z,
        n1: Vec3 { x: 0, y: 0, z: nz },
        n2: Vec3 { x: 0, y: 0, z: nz },
        n3: Vec3 { x: 0, y: 0, z: nz },
        t1: Vec2 { x: 0, y: 0 },
        t2: Vec2 { x: 0, y: 0 },
        t3: Vec2 { x: 0, y: 0 },
    }
}

#[test]
fn clear_resets_every_pixel_and_depth() {
    let mut fb = Framebuffer::new(4, 3).unwrap();
    fb.set(2, 1, Vec4 { x: FX_ONE, y: FX_HALF, z: 0, w: FX_ONE });
    fb.set_depth(2, 1, 17);
    fb.clear();
    for y in 0..3 {
        for x in 0..4 {
            let c = fb.get(x, y);
            assert_eq!(c, Vec4 { x: 0, y: 0, z: 0, w: 0 });
            assert_eq!(fb.get_depth(x, y), FX_ONE);
        }
    }
    assert!(fb.export().iter().all(|b| *b == 0));
}

#[test]
fn new_framebuffer_starts_cleared() {
    let fb = Framebuffer::new(5, 2).unwrap();
    for y in 0..2 {
        for x in 0..5 {
            assert_eq!(fb.get(x, y), Vec4 { x: 0, y: 0, z: 0, w: 0 });
            assert_eq!(fb.get_depth(x, y), FX_ONE);
        }
    }
}

#[test]
fn pixel_round_trip_within_one_byte_step() {
    let mut fb = Framebuffer::new(4, 4).unwrap();
    let c = Vec4 { x: FX_HALF, y: 16320, z: FX_ONE, w: 0 };
    fb.set(2, 1, c);
    let r = fb.get(2, 1);
    // exact expected values on the 255 * 256 grid
    assert_eq!(r.x, 32768);
    assert_eq!(r.y, 16384);
    assert_eq!(r.z, FX_ONE);
    assert_eq!(r.w, 0);
    for (got, want) in [(r.x, c.x), (r.y, c.y), (r.z, c.z), (r.w, c.w)] {
        assert!((got - want).abs() <= 256);
    }
}

#[test]
fn set_ignores_negative_coordinates() {
    let mut fb = Framebuffer::new(3, 3).unwrap();
    fb.set(-1, 1, Vec4 { x: FX_ONE, y: FX_ONE, z: FX_ONE, w: FX_ONE });
    fb.set(1, -1, Vec4 { x: FX_ONE, y: FX_ONE, z: FX_ONE, w: FX_ONE });
    fb.set_depth(-1, 1, 0);
    assert!(fb.export().iter().all(|b| *b == 0));
    assert_eq!(fb.get_depth(1, 1), FX_ONE);
}

#[test]
fn inside_test_on_right_triangle() {
    let p1 = IVec2 { x: 0, y: 0 };
    let p2 = IVec2 { x: 10, y: 0 };
    let p3 = IVec2 { x: 0, y: 10 };
    assert!(is_inside_triangle(IVec2 { x: 1, y: 1 }, p1, p2, p3));
    assert!(!is_inside_triangle(IVec2 { x: 9, y: 9 }, p1, p2, p3));
    // edges are inclusive
    assert!(is_inside_triangle(IVec2 { x: 0, y: 0 }, p1, p2, p3));
    assert!(is_inside_triangle(IVec2 { x: 5, y: 5 }, p1, p2, p3));
}

#[test]
fn rasterized_triangle_writes_inside_not_outside() {
    let mut fb = Framebuffer::new(12, 12).unwrap();
    let t = flat_tri((0, 0), (10, 0), (0, 10), 0, FX_ONE);
    let light = Vec3 { x: 0, y: 0, z: -FX_ONE };
    rasterize_triangle(&mut fb, &t, &light, 1, &white_texture());
    // (1, 1) is inside: depth written (z = 0 maps to one half)
    assert_eq!(fb.get_depth(1, 1), FX_HALF);
    // (9, 9) is outside: untouched
    assert_eq!(fb.get_depth(9, 9), FX_ONE);
    assert_eq!(fb.get(9, 9), Vec4 { x: 0, y: 0, z: 0, w: 0 });
}

#[test]
fn bounding_box_is_clamped_to_the_buffer() {
    // vertices hang off every edge; the scan stays inside the buffer and
    // pixels at negative coordinates are never touched (nothing panics)
    let mut fb = Framebuffer::new(8, 8).unwrap();
    let t = flat_tri((-4, -4), (12, -4), (-4, 12), 0, FX_ONE);
    let light = Vec3 { x: 0, y: 0, z: -FX_ONE };
    rasterize_triangle(&mut fb, &t, &light, 1, &white_texture());
    assert_eq!(fb.get_depth(0, 0), FX_HALF);
}

#[test]
fn depth_test_order_independence() {
    let light = Vec3 { x: 0, y: 0, z: -FX_ONE };
    let tex = white_texture();
    // near is lit (normal towards the light), far is unlit
    let near = flat_tri((0, 0), (10, 0), (0, 10), FX_HALF, FX_ONE);
    let far = flat_tri((0, 0), (10, 0), (0, 10), 0, -FX_ONE);

    let mut fb_a = Framebuffer::new(12, 12).unwrap();
    rasterize_triangle(&mut fb_a, &near, &light, 1, &tex);
    rasterize_triangle(&mut fb_a, &far, &light, 1, &tex);

    let mut fb_b = Framebuffer::new(12, 12).unwrap();
    rasterize_triangle(&mut fb_b, &far, &light, 1, &tex);
    rasterize_triangle(&mut fb_b, &near, &light, 1, &tex);

    assert_eq!(fb_a.export(), fb_b.export());
    for y in 0..12 {
        for x in 0..12 {
            assert_eq!(fb_a.get_depth(x, y), fb_b.get_depth(x, y));
        }
    }
    // the nearer (lit, white) triangle wins at an overlapping pixel
    assert_eq!(fb_a.get_depth(1, 1), FX_HALF - FX_HALF / 2);
    assert_eq!(fb_a.get(1, 1), Vec4 { x: FX_ONE, y: FX_ONE, z: FX_ONE, w: FX_ONE });
}

#[test]
fn degenerate_triangle_writes_nothing() {
    let mut fb = Framebuffer::new(12, 12).unwrap();
    let t = flat_tri((0, 0), (5, 5), (10, 10), 0, FX_ONE);
    let light = Vec3 { x: 0, y: 0, z: -FX_ONE };
    rasterize_triangle(&mut fb, &t, &light, 1, &white_texture());
    assert!(fb.export().iter().all(|b| *b == 0));
    for y in 0..12 {
        for x in 0..12 {
            assert_eq!(fb.get_depth(x, y), FX_ONE);
        }
    }
}

#[test]
fn gamma_one_is_identity_and_higher_gamma_brightens() {
    // the fourth root of one quarter: 0.25 -> 0.5 exactly on this grid
    assert_eq!(fx_root(16320, 2), FX_HALF);
    assert_eq!(fx_root(FX_ONE, 3), FX_ONE);
    assert_eq!(fx_root(0, 4), 0);
    for x in [0i64, 1, 100, 6528, 16320, FX_HALF, FX_ONE - 1, FX_ONE] {
        assert_eq!(fx_root(x, 1), x);
        for g in 2..=6u32 {
            assert!(fx_root(x, g) >= x);
        }
    }
}

#[test]
fn shade_full_diffuse_on_white_texture() {
    let tex = white_texture();
    let normal = Vec3 { x: 0, y: 0, z: FX_ONE };
    let uv = Vec2 { x: 0, y: 0 };
    let light = Vec3 { x: 0, y: 0, z: -FX_ONE };
    // ambient + full diffuse saturates at one per channel, gamma one
    let c = shade(&normal, &uv, &light, 1, &tex);
    assert_eq!(c, Vec3 { x: FX_ONE, y: FX_ONE, z: FX_ONE });
    // facing away: ambient only (one tenth)
    let back = shade(&Vec3 { x: 0, y: 0, z: -FX_ONE }, &uv, &light, 1, &tex);
    assert_eq!(back, Vec3 { x: 6528, y: 6528, z: 6528 });
    // gamma above one never darkens
    let g2 = shade(&Vec3 { x: 0, y: 0, z: -FX_ONE }, &uv, &light, 2, &tex);
    assert!(g2.x >= back.x && g2.y >= back.y && g2.z >= back.z);
}

#[test]
fn screen_mapping_anchor_points() {
    let center = norm_to_image_coords(&Vec3 { x: 0, y: 0, z: 0 }, 100, 50);
    assert_eq!((center.x, center.y), (50, 25));
    let corner = norm_to_image_coords(&Vec3 { x: -FX_HALF, y: FX_HALF, z: 0 }, 100, 50);
    assert_eq!((corner.x, corner.y), (0, 0));
    // odd dimensions: truncated halves
    let odd = norm_to_image_coords(&Vec3 { x: 0, y: 0, z: 0 }, 7, 9);
    assert_eq!((odd.x, odd.y), (3, 4));
    // y is flipped: NDC up is towards row zero
    let up = norm_to_image_coords(&Vec3 { x: 0, y: 16320, z: 0 }, 100, 100);
    assert_eq!((up.x, up.y), (50, 25));
}

#[test]
fn texture_sampling_clamps_and_flips() {
    // two rows: stored top row red, bottom row blue
    let data = vec![255, 0, 0, 255, 0, 0, 255, 255];
    let tex = Texture::new(1, 2, data).unwrap();
    // uv (0, 0) is the bottom-left: the blue (stored-last) row
    let bottom = tex.sample(&Vec2 { x: 0, y: 0 });
    assert_eq!(bottom, Vec3 { x: 0, y: 0, z: FX_ONE });
    // uv (0, 1) clamps to the top row
    let top = tex.sample(&Vec2 { x: 0, y: FX_ONE });
    assert_eq!(top, Vec3 { x: FX_ONE, y: 0, z: 0 });
    // far outside [0, 1] still clamps to the edges
    let below = tex.sample(&Vec2 { x: -FX_ONE, y: -3 * FX_ONE });
    assert_eq!(below, bottom);
}

#[test]
fn error_invalid_dimensions() {
    assert_eq!(Framebuffer::new(0, 5).err().unwrap(), RenderError::InvalidDimensions);
    assert_eq!(Framebuffer::new(5, -1).err().unwrap(), RenderError::InvalidDimensions);
    assert_eq!(Image::new(-3, 2).err().unwrap(), RenderError::InvalidDimensions);
    assert_eq!(Pipeline::new(0, 0).err().unwrap(), RenderError::InvalidDimensions);
    assert_eq!(Texture::new(2, 2, vec![0; 4]).err().unwrap(), RenderError::InvalidDimensions);
}

#[test]
fn error_attribute_length_mismatch() {
    let uniforms = Uniforms {
        time: 0,
        sun_light_dir: Vec3 { x: 0, y: 0, z: -FX_ONE },
        model_mat: identity(),
        view_mat: identity(),
        gamma: 1,
    };
    let input = GeometryInput {
        positions: vec![Vec3 { x: 0, y: 0, z: 0 }],
        normals: vec![],
        uv_coords: vec![Vec2 { x: 0, y: 0 }],
        uniforms,
    };
    let mut geometry = Geometry {};
    assert_eq!(geometry.run(input).err().unwrap(), RenderError::AttributeLengthMismatch);
}

#[test]
fn error_missing_texture() {
    let uniforms = Uniforms {
        time: 0,
        sun_light_dir: Vec3 { x: 0, y: 0, z: -FX_ONE },
        model_mat: identity(),
        view_mat: identity(),
        gamma: 1,
    };
    let mut r = Rasterizer::new(8, 8).unwrap();
    let input = RasterizerInput {
        positions: vec![],
        normals: vec![],
        uv_coords: vec![],
        uniforms,
        textures: vec![],
    };
    assert_eq!(r.run(&input).err().unwrap(), RenderError::MissingTexture);
}

#[test]
fn image_line_steps_along_the_major_axis() {
    let mut im = Image::new(6, 6).unwrap();
    let white = Vec4 { x: FX_ONE, y: FX_ONE, z: FX_ONE, w: FX_ONE };
    im.line(IVec2 { x: 0, y: 2 }, IVec2 { x: 4, y: 2 }, white);
    for x in 0..4 {
        assert_eq!(im.get(x, 2).x, FX_ONE);
    }
    // the far endpoint is exclusive
    assert_eq!(im.get(4, 2).x, 0);
    assert_eq!(im.get(0, 1).x, 0);
}

#[test]
fn image_fill_triangle_paints_inside_only() {
    let mut im = Image::new(12, 12).unwrap();
    let red = Vec4 { x: FX_ONE, y: 0, z: 0, w: FX_ONE };
    im.fill_triangle(
        IVec2 { x: 0, y: 0 },
        IVec2 { x: 10, y: 0 },
        IVec2 { x: 0, y: 10 },
        red,
    );
    assert_eq!(im.get(1, 1), Vec4 { x: FX_ONE, y: 0, z: 0, w: FX_ONE });
    assert_eq!(im.get(9, 9), Vec4 { x: 0, y: 0, z: 0, w: 0 });
}

#[test]
fn image_fill_degenerate_triangle_paints_nothing() {
    let mut im = Image::new(12, 12).unwrap();
    let red = Vec4 { x: FX_ONE, y: 0, z: 0, w: FX_ONE };
    im.fill_triangle(
        IVec2 { x: 0, y: 0 },
        IVec2 { x: 5, y: 5 },
        IVec2 { x: 10, y: 10 },
        red,
    );
    assert!(im.export().iter().all(|b| *b == 0));
}

#[test]
fn pipeline_matches_manual_stage_composition() {
    let uniforms = Uniforms {
        time: 0,
        sun_light_dir: Vec3 { x: 0, y: 0, z: -FX_ONE },
        model_mat: identity(),
        view_mat: identity(),
        gamma: 2,
    };
    let positions = vec![
        Vec3 { x: -FX_HALF, y: FX_HALF, z: -FX_ONE },
        Vec3 { x: FX_HALF, y: FX_HALF, z: -FX_ONE },
        Vec3 { x: -FX_HALF, y: -FX_HALF, z: -FX_ONE },
    ];
    let normals = vec![Vec3 { x: 0, y: 0, z: FX_ONE }; 3];
    let uvs = vec![Vec2 { x: 0, y: 0 }; 3];

    let mut pipeline = Pipeline::new(16, 16).unwrap();
    pipeline
        .run(&positions, &normals, &uvs, vec![white_texture()], uniforms)
        .unwrap();

    // the same frame by hand: geometry, screen mapping, rasterize
    let mut geometry = Geometry {};
    let out = geometry
        .run(GeometryInput {
            positions: positions.clone(),
            normals: normals.clone(),
            uv_coords: uvs.clone(),
            uniforms,
        })
        .unwrap();
    let mut r = Rasterizer::new(16, 16).unwrap();
    let input = RasterizerInput {
        positions: out.positions,
        normals: out.normals,
        uv_coords: out.uv_coords,
        uniforms,
        textures: vec![white_texture()],
    };
    r.run(&input).unwrap();

    assert_eq!(pipeline.rasterizer.framebuffer.export(), r.framebuffer.export());
    // something was drawn
    assert!(pipeline.rasterizer.framebuffer.export().iter().any(|b| *b != 0));
}

#[test]
fn fx_helpers_match_their_formulas() {
    assert_eq!(fx_mul(FX_HALF, FX_HALF), 16320);
    assert_eq!(fx_mul(FX_ONE, -FX_HALF), -FX_HALF);
    assert_eq!(fx_clamp(7, 0, 5), 5);
    assert_eq!(fx_clamp(-7, 0, 5), 0);
    assert_eq!(fx_clamp(3, 0, 5), 3);
}

#[test]
fn vertex_shader_exact_values_through_fixed_projection() {
    let uniforms = Uniforms {
        time: 0,
        sun_light_dir: Vec3 { x: 0, y: 0, z: -FX_ONE },
        model_mat: identity(),
        view_mat: identity(),
        gamma: 1,
    };
    let p = Vec3 { x: FX_ONE, y: 0, z: -FX_ONE };
    let mut geometry = Geometry {};
    let out = geometry
        .run(GeometryInput {
            positions: vec![p],
            normals: vec![Vec3 { x: 0, y: 0, z: FX_ONE }],
            uv_coords: vec![Vec2 { x: 0, y: 0 }],
            uniforms,
        })
        .unwrap();
    // with identity model and view, the clip position is the projection
    // applied to (1, 0, -1, 1); its w is one, so the NDC values are the
    // projection rows themselves:
    //   x: 1 / (aspect * tan(fovy / 2)) = 36720 on this grid
    //   z: far / (near - far) * -1 + -(far * near) / (far - near) = 72532
    assert_eq!(out.positions[0], Vec3 { x: 36720, y: 0, z: 72532 });
    // the world-space fragment position of an identity model is the vertex
    assert_eq!(out.frag_pos[0], p);
    // normals and texture coordinates pass through unchanged
    assert_eq!(out.normals[0], Vec3 { x: 0, y: 0, z: FX_ONE });
    assert_eq!(out.uv_coords[0], Vec2 { x: 0, y: 0 });
}

#[test]
fn image_line_steep_walks_the_y_axis() {
    let mut im = Image::new(6, 6).unwrap();
    let white = Vec4 { x: FX_ONE, y: FX_ONE, z: FX_ONE, w: FX_ONE };
    im.line(IVec2 { x: 0, y: 0 }, IVec2 { x: 2, y: 5 }, white);
    // one pixel per row, x interpolated as 2 * y / 5 truncated
    for (x, y) in [(0, 0), (0, 1), (0, 2), (1, 3), (1, 4)] {
        assert_eq!(im.get(x, y).x, FX_ONE, "pixel ({x}, {y})");
    }
    // the far endpoint is exclusive
    assert_eq!(im.get(2, 5).x, 0);
}

#[test]
fn image_triangle_draws_the_outline() {
    let mut im = Image::new(8, 8).unwrap();
    let white = Vec4 { x: FX_ONE, y: FX_ONE, z: FX_ONE, w: FX_ONE };
    im.triangle(
        IVec2 { x: 0, y: 0 },
        IVec2 { x: 6, y: 0 },
        IVec2 { x: 0, y: 6 },
        white,
    );
    // points along each edge
    assert_eq!(im.get(3, 0).x, FX_ONE);
    assert_eq!(im.get(0, 3).x, FX_ONE);
    assert_eq!(im.get(3, 3).x, FX_ONE);
    // the interior stays empty
    assert_eq!(im.get(1, 1).x, 0);
}
