//! End-to-end tests of the fixed-point rendering pipeline.

use softrender::camera::Camera;
use softrender::fixed::{clamp01, cos_bau, isqrt, lerp, mod_turn, mul_fp, sin_bau, sqrt_fp};
use softrender::framebuffer::{Rgba, SoftwareRenderer, DEPTH_ONE};
use softrender::mesh::ObjMesh;
use softrender::raster::{edge_function, ScreenV, TriParams};
use softrender::shade::{shade_planet, PlanetShaderKind};
use softrender::skybox::Skybox;
use softrender::texture::TextureCPU;
use softrender::vec3::{v3, Vec3Fx};

const ONE: i64 = 65536;

fn rgba(r: u8, g: u8, b: u8, a: u8) -> Rgba {
    Rgba { r, g, b, a }
}

fn pixel(fb: &SoftwareRenderer, x: usize, y: usize) -> (u8, u8, u8, u8) {
    let i = (y * fb.width + x) * 4;
    (fb.color[i], fb.color[i + 1], fb.color[i + 2], fb.color[i + 3])
}

fn solid_tex(w: usize, h: usize, r: u8, g: u8, b: u8) -> TextureCPU {
    let mut data = Vec::new();
    for _ in 0..w * h {
        data.push(r);
        data.push(g);
        data.push(b);
    }
    TextureCPU::new(w, h, data)
}

#[test]
fn fixed_point_basics() {
    assert_eq!(mul_fp(ONE, ONE), ONE);
    assert_eq!(mul_fp(3 * ONE, 2 * ONE), 6 * ONE);
    assert_eq!(mul_fp(-3 * ONE, 2 * ONE), -6 * ONE);
    assert_eq!(clamp01(-5), 0);
    assert_eq!(clamp01(ONE + 7), ONE);
    assert_eq!(clamp01(1234), 1234);
    assert_eq!(lerp(0, ONE, 32768), 32768);
    assert_eq!(lerp(ONE, ONE, 12345), ONE);
    assert_eq!(isqrt(0), 0);
    assert_eq!(isqrt(144), 12);
    assert_eq!(isqrt(145), 12);
    assert_eq!(sqrt_fp(ONE), ONE);
    assert_eq!(mod_turn(-1), 262143);
    assert_eq!(mod_turn(262144 + 5), 5);
}

#[test]
fn sine_exact_values() {
    assert_eq!(sin_bau(0), 0);
    assert_eq!(sin_bau(65536), ONE);
    assert_eq!(sin_bau(131072), 0);
    assert_eq!(sin_bau(196608), -ONE);
    assert_eq!(cos_bau(0), ONE);
    assert_eq!(cos_bau(131072), -ONE);
    // A quarter-wave interior value stays close to the real sine.
    let s = sin_bau(32768) as f64 / 65536.0; // 45 degrees
    assert!((s - 0.70710678).abs() < 0.01);
}

#[test]
fn mesh_drops_out_of_range_faces() {
    let verts = vec![v3(0, 0, 0), v3(ONE, 0, 0), v3(0, ONE, 0)];
    let faces = vec![(0usize, 1usize, 2usize), (0usize, 1usize, 5usize), (7usize, 1usize, 2usize)];
    let (mesh, dropped) = ObjMesh::from_parts(verts, faces);
    assert_eq!(dropped, 2);
    assert_eq!(mesh.indices.len(), 1);
    assert_eq!(mesh.indices[0], (0, 1, 2));
    // Every retained triangle's indices are below the vertex count.
    for t in &mesh.indices {
        assert!(t.0 < mesh.vertices.len());
        assert!(t.1 < mesh.vertices.len());
        assert!(t.2 < mesh.vertices.len());
    }
}

#[test]
fn clear_sets_every_pixel_and_depth() {
    let mut fb = SoftwareRenderer::new(16, 8);
    fb.clear(rgba(10, 20, 30, 40));
    for p in 0..16 * 8 {
        assert_eq!(fb.color[4 * p], 10);
        assert_eq!(fb.color[4 * p + 1], 20);
        assert_eq!(fb.color[4 * p + 2], 30);
        assert_eq!(fb.color[4 * p + 3], 40);
        assert_eq!(fb.depth[p], DEPTH_ONE);
    }
}

#[test]
fn put_pixel_depth_test() {
    let mut fb = SoftwareRenderer::new(4, 4);
    fb.clear(rgba(0, 0, 0, 255));
    fb.put_pixel(1, 1, 30000, rgba(9, 9, 9, 255));
    assert_eq!(pixel(&fb, 1, 1), (9, 9, 9, 255));
    assert_eq!(fb.depth[5], 30000);
    // A farther write loses.
    fb.put_pixel(1, 1, 40000, rgba(7, 7, 7, 255));
    assert_eq!(pixel(&fb, 1, 1), (9, 9, 9, 255));
    // A nearer write wins.
    fb.put_pixel(1, 1, 20000, rgba(5, 5, 5, 255));
    assert_eq!(pixel(&fb, 1, 1), (5, 5, 5, 255));
    // Out-of-frame writes are a no-op.
    fb.put_pixel(-1, 0, 0, rgba(1, 1, 1, 255));
    fb.put_pixel(0, 4, 0, rgba(1, 1, 1, 255));
    assert_eq!(pixel(&fb, 0, 0), (0, 0, 0, 255));
}

#[test]
fn additive_blend_saturates() {
    let mut fb = SoftwareRenderer::new(2, 2);
    fb.clear(rgba(200, 100, 0, 255));
    fb.add_blend_pixel(0, 0, rgba(100, 100, 100, 0));
    assert_eq!(pixel(&fb, 0, 0), (255, 200, 100, 255));
    // Depth untouched, other pixels untouched.
    assert_eq!(fb.depth[0], DEPTH_ONE);
    assert_eq!(pixel(&fb, 1, 0), (200, 100, 0, 255));
}

#[test]
fn blit_nearest_resamples() {
    let mut fb = SoftwareRenderer::new(2, 2);
    fb.clear(rgba(0, 0, 0, 255));
    fb.put_pixel_bg(0, 0, rgba(1, 0, 0, 255));
    fb.put_pixel_bg(1, 0, rgba(2, 0, 0, 255));
    fb.put_pixel_bg(0, 1, rgba(3, 0, 0, 255));
    fb.put_pixel_bg(1, 1, rgba(4, 0, 0, 255));
    let out = fb.blit_to(4, 4);
    assert_eq!(out.len(), 4 * 4 * 4);
    // Destination (0,0) and (1,1) sample source (0,0); (2,2) samples (1,1).
    assert_eq!(out[0], 1);
    assert_eq!(out[(1 * 4 + 1) * 4], 1);
    assert_eq!(out[(2 * 4 + 2) * 4], 4);
    assert_eq!(out[(3 * 4 + 3) * 4], 4);
    // Identity blit reproduces the buffer.
    let same = fb.blit_to(2, 2);
    assert_eq!(same, fb.color);
}

#[test]
fn edge_function_signs() {
    // (0,0) -> (4,0): the two sides of the segment get opposite signs.
    assert!(edge_function(0, 0, 4 * ONE, 0, 2 * ONE, ONE) < 0);
    assert!(edge_function(0, 0, 4 * ONE, 0, 2 * ONE, -ONE) > 0);
    assert_eq!(edge_function(0, 0, 4 * ONE, 0, 2 * ONE, 0), 0);
}

fn white_tri(z: i64, base: Rgba) -> TriParams {
    TriParams {
        s0: ScreenV { x: 10 * ONE, y: 10 * ONE, z },
        s1: ScreenV { x: 50 * ONE, y: 10 * ONE, z },
        s2: ScreenV { x: 30 * ONE, y: 50 * ONE, z },
        w0: v3(0, 0, 0),
        w1: v3(ONE, 0, 0),
        w2: v3(0, ONE, 0),
        normal: v3(0, 0, ONE),
        base,
        kind: PlanetShaderKind::Default,
        light: v3(0, 0, -ONE),
    }
}

#[test]
fn raster_triangle_scenario() {
    // 64x64 buffer cleared to black; one triangle with screen vertices
    // (10,10), (50,10), (30,50), uniform depth 0.5, white base, Default
    // kind, Lambert term forced to 1 by an exactly opposed normal/light.
    let mut fb = SoftwareRenderer::new(64, 64);
    fb.clear(rgba(0, 0, 0, 255));
    fb.raster_triangle_shaded(white_tri(ONE / 2, rgba(255, 255, 255, 255)));
    // Interior pixel at full intensity: diffuse = 0.3 + 0.7 * 1 = 1.
    assert_eq!(pixel(&fb, 30, 20), (255, 255, 255, 255));
    assert_eq!(fb.depth[20 * 64 + 30], ONE / 2);
    // A pixel outside the triangle stays black at far depth.
    assert_eq!(pixel(&fb, 5, 5), (0, 0, 0, 255));
    assert_eq!(fb.depth[5 * 64 + 5], DEPTH_ONE);
}

#[test]
fn depth_order_commutes() {
    // Triangle A at depth 0.2 (red) and B at depth 0.8 (blue) over the
    // same pixels: either draw order leaves A's color.
    let a = white_tri(13107, rgba(255, 0, 0, 255));
    let b = white_tri(52429, rgba(0, 0, 255, 255));
    let mut fb1 = SoftwareRenderer::new(64, 64);
    fb1.clear(rgba(0, 0, 0, 255));
    fb1.raster_triangle_shaded(a);
    fb1.raster_triangle_shaded(b);
    let mut fb2 = SoftwareRenderer::new(64, 64);
    fb2.clear(rgba(0, 0, 0, 255));
    fb2.raster_triangle_shaded(b);
    fb2.raster_triangle_shaded(a);
    assert_eq!(pixel(&fb1, 30, 20), (255, 0, 0, 255));
    assert_eq!(pixel(&fb2, 30, 20), (255, 0, 0, 255));
    assert_eq!(fb1.color, fb2.color);
    assert_eq!(fb1.depth, fb2.depth);
}

#[test]
fn degenerate_triangle_is_skipped() {
    let mut fb = SoftwareRenderer::new(16, 16);
    fb.clear(rgba(0, 0, 0, 255));
    let mut t = white_tri(ONE / 2, rgba(255, 255, 255, 255));
    t.s1 = t.s0;
    t.s2 = t.s0;
    let before = fb.color.clone();
    fb.raster_triangle_shaded(t);
    assert_eq!(fb.color, before);
}

#[test]
fn shade_default_full_lambert_is_base() {
    let c = shade_planet(
        PlanetShaderKind::Default,
        rgba(255, 255, 255, 255),
        v3(0, 0, 0),
        ONE,
    );
    assert_eq!((c.r, c.g, c.b, c.a), (255, 255, 255, 255));
    // Zero Lambert leaves the 0.3 ambient floor.
    let d = shade_planet(
        PlanetShaderKind::Default,
        rgba(255, 255, 255, 255),
        v3(0, 0, 0),
        0,
    );
    assert_eq!(d.a, 255);
    assert!(d.r >= 75 && d.r <= 77);
}

#[test]
fn shade_channels_always_clamped() {
    let kinds = [
        PlanetShaderKind::Sun,
        PlanetShaderKind::Earth,
        PlanetShaderKind::SuperEarth,
        PlanetShaderKind::Volcanic,
        PlanetShaderKind::Ice,
        PlanetShaderKind::Gas,
        PlanetShaderKind::Default,
    ];
    for (i, k) in kinds.iter().enumerate() {
        let wp = v3(3 * ONE + i as i64 * 1234, -2 * ONE, 5 * ONE);
        let c = shade_planet(*k, rgba(200, 180, 80, 255), wp, ONE / 3);
        assert_eq!(c.a, 255);
    }
}

#[test]
fn skybox_axis_faces() {
    let sky = Skybox::from_faces(
        solid_tex(1, 1, 1, 0, 0),  // negative x
        solid_tex(1, 1, 2, 0, 0),  // positive x
        solid_tex(1, 1, 3, 0, 0),  // negative y
        solid_tex(1, 1, 4, 0, 0),  // positive y
        solid_tex(1, 1, 5, 0, 0),  // negative z
        solid_tex(1, 1, 6, 0, 0),  // positive z
    );
    let chan = |d: Vec3Fx| sky.sample(d).x;
    assert_eq!(chan(v3(ONE, 0, 0)), 2 * ONE / 255);
    assert_eq!(chan(v3(-ONE, 0, 0)), 1 * ONE / 255);
    assert_eq!(chan(v3(0, ONE, 0)), 4 * ONE / 255);
    assert_eq!(chan(v3(0, -ONE, 0)), 3 * ONE / 255);
    assert_eq!(chan(v3(0, 0, ONE)), 6 * ONE / 255);
    assert_eq!(chan(v3(0, 0, -ONE)), 5 * ONE / 255);
}

#[test]
fn skybox_axis_hits_face_center() {
    // A 3x3 face whose center texel is distinct: the canonical +X
    // direction maps to UV (0.5, 0.5), the center texel.
    let mut data = vec![0u8; 27];
    data[(1 * 3 + 1) * 3] = 42;
    let px = TextureCPU::new(3, 3, data);
    let other = solid_tex(1, 1, 0, 0, 0);
    let sky = Skybox::from_faces(
        solid_tex(1, 1, 0, 0, 0),
        px,
        solid_tex(1, 1, 0, 0, 0),
        other,
        solid_tex(1, 1, 0, 0, 0),
        solid_tex(1, 1, 0, 0, 0),
    );
    let c = sky.sample(v3(ONE, 0, 0));
    assert_eq!(c.x, 42 * ONE / 255);
}

#[test]
fn texture_nearest_sampling() {
    let mut data = vec![0u8; 2 * 2 * 3];
    data[0] = 10; // (0,0)
    data[3] = 20; // (1,0)
    data[6] = 30; // (0,1)
    data[9] = 40; // (1,1)
    let t = TextureCPU::new(2, 2, data);
    assert_eq!(t.sample(0, 0).x, 10 * ONE / 255);
    assert_eq!(t.sample(ONE, 0).x, 20 * ONE / 255);
    assert_eq!(t.sample(0, ONE).x, 30 * ONE / 255);
    assert_eq!(t.sample(ONE, ONE).x, 40 * ONE / 255);
}

#[test]
fn camera_orbit_roundtrip_close() {
    // fromLookAt then syncPositionFromOrbit reproduces the position to
    // within the fixed-point trigonometry's quantization.
    let pos = v3(10 * ONE, 8 * ONE, 35 * ONE);
    let target = v3(0, 0, 0);
    let mut cam = Camera::new(pos, target);
    cam.update_pos_from_orbit();
    let tol = ONE / 2;
    assert!((cam.pos.x - pos.x).abs() < tol, "x was {}", cam.pos.x);
    assert!((cam.pos.y - pos.y).abs() < tol, "y was {}", cam.pos.y);
    assert!((cam.pos.z - pos.z).abs() < tol, "z was {}", cam.pos.z);
}

#[test]
fn camera_orbit_distance() {
    let cam = Camera::new(v3(3 * ONE, 0, 4 * ONE), v3(0, 0, 0));
    assert_eq!(cam.distance, 5 * ONE);
    // Degenerate zero offset is floored at the epsilon.
    let cam2 = Camera::new(v3(0, 0, 0), v3(0, 0, 0));
    assert_eq!(cam2.distance, 66);
}

fn centered_camera() -> Camera {
    Camera::new(v3(0, 0, 0), v3(0, 0, -10 * ONE))
}

#[test]
fn world_to_screen_center() {
    let fb = SoftwareRenderer::new(64, 64);
    let cam = centered_camera();
    let p = fb.world_to_screen(v3(0, 0, -10 * ONE), &cam).unwrap();
    assert_eq!(p.0, 32 * ONE);
    assert_eq!(p.1, 32 * ONE);
    // A point behind the camera is rejected.
    assert!(fb.world_to_screen(v3(0, 0, 10 * ONE), &cam).is_none());
    // A point far off to the side still projects (only w and NDC depth
    // reject); its screen coordinate lands far beyond the frame.
    let off = fb.world_to_screen(v3(1000 * ONE, 0, -10 * ONE), &cam).unwrap();
    assert!(off.0 > 64 * ONE, "off-frame x was {}", off.0);
}

#[test]
fn texture_from_rgba_drops_alpha() {
    let rgba_data = vec![1u8, 2, 3, 4, 5, 6, 7, 8, 9, 10, 11, 12, 13, 14, 15, 16];
    let t = TextureCPU::from_rgba(2, 2, &rgba_data);
    assert_eq!(t.data, vec![1, 2, 3, 5, 6, 7, 9, 10, 11, 13, 14, 15]);
}

#[test]
fn sun_glow_zero_scale_uses_radius_floor() {
    // With a zero scale the probe coincides with the center, the measured
    // radius is zero, and the 8-pixel floor applies: the center still
    // receives the full tint.
    let mut fb = SoftwareRenderer::new(64, 64);
    fb.clear(rgba(0, 0, 0, 255));
    let cam = centered_camera();
    fb.draw_sun_glow(v3(0, 0, -10 * ONE), 0, &cam);
    assert_eq!(pixel(&fb, 32, 32), (255, 200, 120, 255));
    assert_eq!(pixel(&fb, 32 + 8, 32), (0, 0, 0, 255));
}

#[test]
fn sun_glow_center_full_and_edge_zero() {
    // Glow centered on screen (32,32): the center pixel receives the full
    // additive tint; at or beyond the radius the contribution is zero.
    let mut fb = SoftwareRenderer::new(64, 64);
    fb.clear(rgba(0, 0, 0, 255));
    let cam = centered_camera();
    fb.draw_sun_glow(v3(0, 0, -10 * ONE), ONE, &cam);
    assert_eq!(pixel(&fb, 32, 32), (255, 200, 120, 255));
    // Depth untouched everywhere.
    assert_eq!(fb.depth[32 * 64 + 32], DEPTH_ONE);
    // The probe offset projects about 3 pixels away, so the radius is the
    // 8-pixel floor: at 8 pixels and beyond nothing is added.
    assert_eq!(pixel(&fb, 32 + 8, 32), (0, 0, 0, 255));
    assert_eq!(pixel(&fb, 0, 0), (0, 0, 0, 255));
}

#[test]
fn orbit_visible_over_background() {
    // Orbit segments are drawn at the far sentinel as overlay writes:
    // they show over the untouched background and leave the depth buffer
    // at the far sentinel everywhere.
    let mut fb = SoftwareRenderer::new(64, 64);
    fb.clear(rgba(0, 0, 0, 255));
    let cam = centered_camera();
    fb.draw_orbit(3 * ONE, &cam, rgba(200, 200, 200, 200));
    let mut painted = 0;
    for p in 0..64 * 64 {
        assert_eq!(fb.depth[p], DEPTH_ONE);
        if fb.color[4 * p] != 0 {
            painted += 1;
            assert_eq!(fb.color[4 * p], 200);
        }
    }
    assert!(painted > 0, "the orbit painted nothing");
}

#[test]
fn orbit_loses_to_geometry() {
    // A pixel already holding real geometry (depth < 1.0) keeps its
    // color when an orbit line crosses it.
    let mut fb = SoftwareRenderer::new(64, 64);
    fb.clear(rgba(0, 0, 0, 255));
    fb.raster_triangle_shaded(white_tri(ONE / 2, rgba(255, 0, 0, 255)));
    let before = fb.color.clone();
    let cam = centered_camera();
    fb.draw_orbit(3 * ONE, &cam, rgba(200, 200, 200, 200));
    // The triangle's interior is untouched by the overlay pass.
    assert_eq!(pixel(&fb, 30, 20), (255, 0, 0, 255));
    for p in 0..64 * 64 {
        if fb.depth[p] < DEPTH_ONE {
            assert_eq!(fb.color[4 * p], before[4 * p]);
        }
    }
}

#[test]
fn overlay_line_paints_background_only() {
    let mut fb = SoftwareRenderer::new(16, 16);
    fb.clear(rgba(0, 0, 0, 255));
    // Give one pixel on the path real geometry.
    fb.put_pixel(8, 8, 30000, rgba(9, 9, 9, 255));
    fb.draw_line_2d(2 * ONE, 8 * ONE, 13 * ONE, 8 * ONE, rgba(7, 7, 7, 200));
    // Background pixels along the line take the overlay color at the far
    // sentinel; the geometry pixel keeps its color and depth.
    assert_eq!(pixel(&fb, 2, 8), (7, 7, 7, 200));
    assert_eq!(fb.depth[8 * 16 + 2], DEPTH_ONE);
    assert_eq!(pixel(&fb, 13, 8), (7, 7, 7, 200));
    assert_eq!(pixel(&fb, 8, 8), (9, 9, 9, 255));
    assert_eq!(fb.depth[8 * 16 + 8], 30000);
}

#[test]
fn depth_line_writes_and_interpolates() {
    let mut fb = SoftwareRenderer::new(16, 16);
    fb.clear(rgba(0, 0, 0, 255));
    fb.draw_line_between_with_depth(
        2 * ONE,
        8 * ONE,
        0,
        13 * ONE,
        8 * ONE,
        ONE / 2,
        rgba(9, 9, 9, 255),
    );
    // Endpoints written with their depths.
    assert_eq!(pixel(&fb, 2, 8), (9, 9, 9, 255));
    assert_eq!(fb.depth[8 * 16 + 2], 0);
    assert_eq!(pixel(&fb, 13, 8), (9, 9, 9, 255));
    assert_eq!(fb.depth[8 * 16 + 13], ONE / 2);
    // Depth only ever decreases.
    for p in 0..16 * 16 {
        assert!(fb.depth[p] <= DEPTH_ONE);
    }
}

#[test]
fn ring_respects_depth_monotonicity() {
    let mut fb = SoftwareRenderer::new(32, 32);
    fb.clear(rgba(0, 0, 0, 255));
    let cam = centered_camera();
    fb.draw_ring(v3(0, 0, -10 * ONE), ONE, 2 * ONE, &cam, rgba(5, 5, 5, 255));
    let mut painted = 0;
    for p in 0..32 * 32 {
        assert!(fb.depth[p] <= DEPTH_ONE);
        if fb.depth[p] < DEPTH_ONE {
            painted += 1;
            assert_eq!(fb.color[4 * p], 5);
        }
    }
    assert!(painted > 0);
}

#[test]
fn skybox_pass_paints_every_pixel() {
    let mut fb = SoftwareRenderer::new(8, 8);
    fb.clear(rgba(0, 0, 0, 255));
    let cam = centered_camera();
    let sky = Skybox::from_faces(
        solid_tex(1, 1, 9, 8, 7),
        solid_tex(1, 1, 9, 8, 7),
        solid_tex(1, 1, 9, 8, 7),
        solid_tex(1, 1, 9, 8, 7),
        solid_tex(1, 1, 9, 8, 7),
        solid_tex(1, 1, 9, 8, 7),
    );
    fb.draw_skybox(&cam, &sky);
    // A byte channel widened to fixed point and quantized back loses at
    // most one step to truncation.
    let expect = |c: u8| ((c as i64 * ONE / 255) * 255 / ONE) as u8;
    for p in 0..8 * 8 {
        assert_eq!(fb.color[4 * p], expect(9));
        assert_eq!(fb.color[4 * p + 1], expect(8));
        assert_eq!(fb.color[4 * p + 2], expect(7));
        assert_eq!(fb.color[4 * p + 3], 255);
        // Background writes ignore and leave the depth buffer.
        assert_eq!(fb.depth[p], DEPTH_ONE);
    }
}

#[test]
fn draw_mesh_renders_facing_triangle() {
    // One triangle facing the camera, centered ahead of it.
    let verts = vec![
        v3(-2 * ONE, -2 * ONE, 0),
        v3(2 * ONE, -2 * ONE, 0),
        v3(0, 2 * ONE, 0),
    ];
    let faces = vec![(0usize, 1usize, 2usize)];
    let (mesh, dropped) = ObjMesh::from_parts(verts, faces);
    assert_eq!(dropped, 0);
    let mut fb = SoftwareRenderer::new(64, 64);
    fb.clear(rgba(0, 0, 0, 255));
    let cam = centered_camera();
    fb.draw_mesh_shaded(
        &mesh,
        v3(0, 0, -10 * ONE),
        ONE,
        rgba(255, 255, 255, 255),
        &cam,
        PlanetShaderKind::Default,
        v3(0, 0, -ONE),
    );
    // The screen center is covered and shaded with the Default rule; the
    // triangle's normal faces +Z, the light shines toward -Z, so the
    // Lambert term is full and the center pixel is the base color.
    let c = pixel(&fb, 32, 32);
    assert_eq!(c, (255, 255, 255, 255));
    assert!(fb.depth[32 * 64 + 32] < DEPTH_ONE);
    // A corner pixel stays background.
    assert_eq!(pixel(&fb, 0, 0), (0, 0, 0, 255));
}

#[test]
fn draw_mesh_rotated_half_turn_flips_normal() {
    // The same triangle rotated half a turn about Y faces away from the
    // light, leaving only the ambient floor of the Default rule.
    let verts = vec![
        v3(-2 * ONE, -2 * ONE, 0),
        v3(2 * ONE, -2 * ONE, 0),
        v3(0, 2 * ONE, 0),
    ];
    let faces = vec![(0usize, 1usize, 2usize)];
    let (mesh, _) = ObjMesh::from_parts(verts, faces);
    let mut fb = SoftwareRenderer::new(64, 64);
    fb.clear(rgba(0, 0, 0, 255));
    let cam = centered_camera();
    fb.draw_mesh_shaded_rot(
        &mesh,
        v3(0, 0, -10 * ONE),
        ONE,
        131072, // half a turn in binary angle units
        rgba(255, 255, 255, 255),
        &cam,
        PlanetShaderKind::Default,
        v3(0, 0, -ONE),
    );
    let (r, _, _, a) = pixel(&fb, 32, 32);
    assert_eq!(a, 255);
    assert!(r >= 75 && r <= 77, "ambient-lit channel was {}", r);
}

#[test]
fn shade_sun_center_exact() {
    // At the origin the radial gradient is at its start: full red,
    // 0.9 green, 0.3 blue, under full self-glow.
    let c = shade_planet(PlanetShaderKind::Sun, rgba(0, 0, 0, 255), v3(0, 0, 0), ONE);
    assert_eq!(c.r, 255);
    assert_eq!(c.g, (58982 * 255 / ONE) as u8);
    assert_eq!(c.b, (19661 * 255 / ONE) as u8);
    assert_eq!(c.a, 255);
}

#[test]
fn camera_yaw_quarter_turn() {
    // An offset along +Z is a quarter turn of yaw (binary angle units)
    // and near-zero pitch.
    let cam = Camera::new(v3(0, 0, 5 * ONE), v3(0, 0, 0));
    assert_eq!(cam.yaw, 65536);
    assert!(cam.pitch.abs() <= 4, "pitch was {}", cam.pitch);
    // An offset along -X is half a turn.
    let cam2 = Camera::new(v3(-5 * ONE, 0, 0), v3(0, 0, 0));
    assert!((cam2.yaw - 131072).abs() <= 4, "yaw was {}", cam2.yaw);
}

#[test]
fn sun_glow_wide_radius_scenario() {
    // A larger probe offset gives a halo radius of about 20 pixels: the
    // center pixel receives the full additive tint, nearby pixels some
    // contribution, and pixels past the radius none at all.
    let mut fb = SoftwareRenderer::new(64, 64);
    fb.clear(rgba(0, 0, 0, 255));
    let cam = centered_camera();
    fb.draw_sun_glow(v3(0, 0, -10 * ONE), (6.415f32 * 65536.0) as i64, &cam);
    assert_eq!(pixel(&fb, 32, 32), (255, 200, 120, 255));
    let near = pixel(&fb, 33, 32);
    assert!(near.0 > 200, "near-center contribution was {:?}", near);
    assert_eq!(pixel(&fb, 32 + 25, 32), (0, 0, 0, 255));
    assert_eq!(pixel(&fb, 32, 32 - 25), (0, 0, 0, 255));
}
