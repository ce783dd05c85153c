//! Laws relating several pipeline operations, proved from the functions'
//! own contracts.

use vstd::prelude::*;
use crate::draw::{glow_pix_done, spec_glow_add, spec_glow_dist};
use crate::framebuffer::{blend_rgba, rgba_at, sat_add, Rgba, SoftwareRenderer, DEPTH_ONE};
use crate::raster::{color_at, covers, depth_at, pix_done, TriParams};
use crate::skybox::{spec_face, spec_face_uv, CubeFace};
use crate::vec3::{lemma_isqrt_unique, Vec3Fx};

verus! {

/// Depth ordering is commutative for non-equal depths: at a pixel both
/// triangles cover, starting from a cleared depth entry, drawing `ta`
/// then `tb` and drawing `tb` then `ta` leave the same color and depth —
/// those of the strictly nearer triangle.
///
/// The four `pix_done` hypotheses are the rasterizer's postcondition for
/// the two draws of each order: `fb0 -> a1 -> a2` draws `ta` first,
/// `fb0 -> b1 -> b2` draws `tb` first.
pub proof fn lemma_depth_order_commutes(
    fb0: SoftwareRenderer,
    a1: SoftwareRenderer,
    a2: SoftwareRenderer,
    b1: SoftwareRenderer,
    b2: SoftwareRenderer,
    ta: TriParams,
    tb: TriParams,
    px: int,
    py: int,
)
    requires
        fb0.wf(),
        a1.width == fb0.width && a1.height == fb0.height,
        a2.width == fb0.width && a2.height == fb0.height,
        b1.width == fb0.width && b1.height == fb0.height,
        b2.width == fb0.width && b2.height == fb0.height,
        a1.depth@.len() == fb0.depth@.len() && b1.depth@.len() == fb0.depth@.len(),
        fb0.in_frame(px, py),
        fb0.depth@[fb0.idx(px, py)] == DEPTH_ONE,
        pix_done(fb0, a1, ta, px, py),
        pix_done(a1, a2, tb, px, py),
        pix_done(fb0, b1, tb, px, py),
        pix_done(b1, b2, ta, px, py),
        covers(ta, fb0.width as int, fb0.height as int, px, py),
        covers(tb, fb0.width as int, fb0.height as int, px, py),
        0 <= depth_at(ta, px, py),
        depth_at(ta, px, py) < depth_at(tb, px, py),
        depth_at(tb, px, py) < DEPTH_ONE,
    ensures
        rgba_at(a2.color@, fb0.idx(px, py)) == color_at(ta, px, py),
        rgba_at(b2.color@, fb0.idx(px, py)) == color_at(ta, px, py),
        a2.depth@[fb0.idx(px, py)] == depth_at(ta, px, py),
        b2.depth@[fb0.idx(px, py)] == depth_at(ta, px, py),
{
    let i = fb0.idx(px, py);
    assert(a1.depth@[i] == depth_at(ta, px, py));
    assert(rgba_at(a1.color@, i) == color_at(ta, px, py));
    assert(a2.depth@[i] == a1.depth@[i]);
    assert(b1.depth@[i] == depth_at(tb, px, py));
    assert(b2.depth@[i] == depth_at(ta, px, py));
    assert(rgba_at(b2.color@, i) == color_at(ta, px, py));
}

/// The halo's additive contribution is full strength at the center pixel
/// and exactly zero at and beyond the radius: at the center the color is
/// the saturating add of the full warm tint; at or past the radius the
/// color is unchanged.  Follows from the per-pixel relation that
/// `draw_sun_glow` establishes at every frame pixel.
pub proof fn lemma_glow_center_and_edge(
    pre: SoftwareRenderer,
    cur: SoftwareRenderer,
    gcx: int,
    gcy: int,
    radius: int,
    px: int,
    py: int,
)
    requires
        pre.wf(),
        pre.in_frame(px, py),
        1 <= radius,
        glow_pix_done(pre, cur, gcx, gcy, radius, px, py),
    ensures
        px == gcx && py == gcy ==> rgba_at(cur.color@, pre.idx(px, py)) == rgba_at(
            blend_rgba(pre.color@, 4 * pre.idx(px, py), Rgba { r: 255, g: 200, b: 120, a: 120 }),
            pre.idx(px, py),
        ),
        spec_glow_dist(gcx, gcy, px, py) >= radius ==> rgba_at(cur.color@, pre.idx(px, py))
            == rgba_at(pre.color@, pre.idx(px, py)),
{
    let i = pre.idx(px, py);
    crate::framebuffer::lemma_idx_in_range(pre.width as int, pre.height as int, px, py);
    vstd::arithmetic::mul::lemma_mul_by_zero_is_zero(0x1_0000_0000);
    vstd::arithmetic::div_mod::lemma_div_of0(65536);
    vstd::arithmetic::div_mod::lemma_div_multiples_vanish(65536, 65536);
    vstd::arithmetic::div_mod::lemma_div_multiples_vanish(255, 65536);
    vstd::arithmetic::div_mod::lemma_div_multiples_vanish(200, 65536);
    vstd::arithmetic::div_mod::lemma_div_multiples_vanish(120, 65536);
    if px == gcx && py == gcy {
        assert(spec_glow_dist(gcx, gcy, px, py) == 0) by {
            assert(((px - gcx) * (px - gcx) + (py - gcy) * (py - gcy)) * 0x1_0000_0000 == 0)
                by (nonlinear_arith)
                requires
                    px == gcx,
                    py == gcy,
            ;
            assert(0int * 0 <= 0 < (0int + 1) * (0int + 1)) by (nonlinear_arith);
            lemma_isqrt_unique(0, 0);
        }
        assert(spec_glow_add(0, radius) == (Rgba { r: 255, g: 200, b: 120, a: 120 })) by {
            vstd::arithmetic::mul::lemma_mul_by_zero_is_zero(65536);
            vstd::arithmetic::div_mod::lemma_div_of0(radius);
            assert(65536int * 65536 <= 65536int * 65536 < (65536int + 1) * (65536int + 1))
                by (nonlinear_arith);
            lemma_isqrt_unique(65536int * 65536, 65536);
        }
    }
    if spec_glow_dist(gcx, gcy, px, py) >= radius {
        if spec_glow_dist(gcx, gcy, px, py) == radius {
            let add = spec_glow_add(radius, radius);
            assert(add == (Rgba { r: 0, g: 0, b: 0, a: 0 })) by {
                vstd::arithmetic::div_mod::lemma_div_multiples_vanish(65536, radius);
                vstd::arithmetic::mul::lemma_mul_by_zero_is_zero(
                    crate::vec3::spec_isqrt(0int * 65536),
                );
                vstd::arithmetic::mul::lemma_mul_by_zero_is_zero(255);
                vstd::arithmetic::mul::lemma_mul_by_zero_is_zero(200);
                vstd::arithmetic::mul::lemma_mul_by_zero_is_zero(120);
            }
            let blended = blend_rgba(pre.color@, 4 * i, add);
            assert(blended[4 * i] == sat_add(pre.color@[4 * i] as int, 0) as u8);
            assert(blended[4 * i + 1] == sat_add(pre.color@[4 * i + 1] as int, 0) as u8);
            assert(blended[4 * i + 2] == sat_add(pre.color@[4 * i + 2] as int, 0) as u8);
            assert(blended[4 * i + 3] == sat_add(pre.color@[4 * i + 3] as int, 0) as u8);
            assert(rgba_at(blended, i) == rgba_at(pre.color@, i));
        }
    }
}

/// Skybox axis selection: each of the six canonical unit directions
/// selects the correspondingly named cube face, and its intersection
/// point maps exactly to the center of the face, UV (0.5, 0.5).
pub proof fn lemma_skybox_axes()
    ensures
        spec_face(Vec3Fx { x: 65536, y: 0, z: 0 }) == CubeFace::PosX,
        spec_face(Vec3Fx { x: -65536i64, y: 0, z: 0 }) == CubeFace::NegX,
        spec_face(Vec3Fx { x: 0, y: 65536, z: 0 }) == CubeFace::PosY,
        spec_face(Vec3Fx { x: 0, y: -65536i64, z: 0 }) == CubeFace::NegY,
        spec_face(Vec3Fx { x: 0, y: 0, z: 65536 }) == CubeFace::PosZ,
        spec_face(Vec3Fx { x: 0, y: 0, z: -65536i64 }) == CubeFace::NegZ,
        spec_face_uv(Vec3Fx { x: 65536, y: 0, z: 0 }) == (32768int, 32768int),
        spec_face_uv(Vec3Fx { x: -65536i64, y: 0, z: 0 }) == (32768int, 32768int),
        spec_face_uv(Vec3Fx { x: 0, y: 65536, z: 0 }) == (32768int, 32768int),
        spec_face_uv(Vec3Fx { x: 0, y: -65536i64, z: 0 }) == (32768int, 32768int),
        spec_face_uv(Vec3Fx { x: 0, y: 0, z: 65536 }) == (32768int, 32768int),
        spec_face_uv(Vec3Fx { x: 0, y: 0, z: -65536i64 }) == (32768int, 32768int),
{
    vstd::arithmetic::div_mod::lemma_div_of0(65536);
    assert(crate::fixed::tdiv(0int, 65536) == 0);
    assert(crate::fixed::tdiv(0int * 65536, 65536) == 0) by {
        vstd::arithmetic::mul::lemma_mul_by_zero_is_zero(65536);
    }
    assert((0int + 65536) / 2 == 32768);
}

} // verus!
