//! The projection stage: model-view-projection transform, numeric
//! degeneracy and per-vertex near/far rejection, perspective divide, and
//! screen mapping to fixed-point pixel coordinates with a normalized
//! depth.

use vstd::prelude::*;
use crate::camera::{spec_world_up, Camera, FAR_PLANE, NEAR_PLANE};
use crate::fixed::{abs_int, spec_sin, tdiv};
use crate::framebuffer::SoftwareRenderer;
use crate::mat4::{
    mat_bounded, mat_mul, spec_look_at, spec_mat_mul, spec_perspective, Mat4Fx,
};
use crate::raster::{ScreenV, SCREEN_LIMIT};
use crate::vec3::{vec_bounded, Vec3Fx};

verus! {

/// A mapped screen coordinate clamped into the overflow-safe band
/// `[-SCREEN_LIMIT, SCREEN_LIMIT]` the rasterizer accepts.  The clamp only
/// moves points several frame-widths off screen, where the bounding-box
/// clamp confines every write to the frame anyway.
pub open spec fn spec_clamp_screen(v: int) -> int {
    if v < -(SCREEN_LIMIT as int) {
        -(SCREEN_LIMIT as int)
    } else if v > SCREEN_LIMIT as int {
        SCREEN_LIMIT as int
    } else {
        v
    }
}

/// One row of the clip-space transform: the fixed-point dot product of a
/// matrix row with `(v, 1)`.
pub open spec fn spec_clip_row(
    m0: int,
    m1: int,
    m2: int,
    m3: int,
    v: Vec3Fx,
) -> int {
    crate::fixed::spec_mul_fp(m0, v.x as int) + crate::fixed::spec_mul_fp(m1, v.y as int)
        + crate::fixed::spec_mul_fp(m2, v.z as int) + m3
}

/// Where a local vertex lands on a `w` by `h` frame under the transform
/// `m`: `None` only if the clip-space `w` is zero (numerically
/// degenerate) or the NDC depth leaves `[-1, 1]` (per-vertex near/far
/// rejection — not polygon clipping); otherwise the screen position in
/// 16.16 fixed point (NDC x mapped to `[0, w]`, NDC y flipped into
/// `[0, h]`, both clamped into the rasterizer's overflow-safe band) and
/// the depth `(z + 1) / 2` in `[0, 1]`.
pub open spec fn spec_project(w: int, h: int, v: Vec3Fx, m: Mat4Fx) -> Option<ScreenV> {
    let cx = spec_clip_row(m.m00 as int, m.m01 as int, m.m02 as int, m.m03 as int, v);
    let cy = spec_clip_row(m.m10 as int, m.m11 as int, m.m12 as int, m.m13 as int, v);
    let cz = spec_clip_row(m.m20 as int, m.m21 as int, m.m22 as int, m.m23 as int, v);
    let cw = spec_clip_row(m.m30 as int, m.m31 as int, m.m32 as int, m.m33 as int, v);
    if cw == 0 {
        Option::None
    } else {
        let nx = tdiv(cx * 65536, cw);
        let ny = tdiv(cy * 65536, cw);
        let nz = tdiv(cz * 65536, cw);
        if nz < -65536 || nz > 65536 {
            Option::None
        } else {
            Option::Some(
                ScreenV {
                    x: spec_clamp_screen(tdiv((nx + 65536) * w, 2)) as i64,
                    y: spec_clamp_screen(tdiv((65536 - ny) * h, 2)) as i64,
                    z: (tdiv(nz, 2) + 32768) as i64,
                },
            )
        }
    }
}

/// The view-projection matrix of a camera: perspective times look-at.
pub open spec fn spec_view_proj(cam: Camera) -> Mat4Fx {
    spec_mat_mul(
        spec_perspective(cam.fov_y as int, cam.aspect as int, NEAR_PLANE as int, FAR_PLANE as int),
        spec_look_at(cam.pos, cam.target, spec_world_up()),
    )
}

/// The camera preconditions shared by every projecting draw call:
/// position and target within the scene range, field of view and aspect
/// ratio in the ranges the perspective matrix accepts.
pub open spec fn cam_wf(cam: Camera) -> bool {
    &&& vec_bounded(cam.pos, 0x3FFF_FFFF)
    &&& vec_bounded(cam.target, 0x3FFF_FFFF)
    &&& 0 < cam.fov_y < 131072
    &&& 256 <= spec_sin(cam.fov_y as int / 2) <= 65536
    &&& 32768 <= cam.aspect <= 0x7FFF_FFFF
}

impl SoftwareRenderer {
    /// Projects a local vertex through `m` to the screen, or rejects it.
    pub fn project_vertex(&self, v: Vec3Fx, m: &Mat4Fx) -> (r: Option<ScreenV>)
        requires
            self.wf(),
            mat_bounded(*m, 0x1000_0000_0000_0000),
            vec_bounded(v, 0x7FFF_FFFF),
        ensures
            r == spec_project(self.width as int, self.height as int, v, *m),
            r matches Option::Some(s) ==> abs_int(s.x as int) <= SCREEN_LIMIT as int && abs_int(
                s.y as int,
            ) <= SCREEN_LIMIT as int && 0 <= s.z <= 65536,
    {
        let cx = clip_row(m.m00, m.m01, m.m02, m.m03, v);
        let cy = clip_row(m.m10, m.m11, m.m12, m.m13, v);
        let cz = clip_row(m.m20, m.m21, m.m22, m.m23, v);
        let cw = clip_row(m.m30, m.m31, m.m32, m.m33, v);
        if cw == 0 {
            return Option::None;
        }
        let nx = wide_div_65536(cx, cw);
        let ny = wide_div_65536(cy, cw);
        let nz = wide_div_65536(cz, cw);
        if nz < -65536 || nz > 65536 {
            return Option::None;
        }
        proof {
            assert(abs_int(nx as int) <= 0x7FFF_FFFF_FFFF);
            assert(abs_int(ny as int) <= 0x7FFF_FFFF_FFFF);
            crate::vec3::lemma_mul_abs_bound(
                nx as int + 65536,
                self.width as int,
                0x8000_0000_FFFF,
                0x2000,
            );
            crate::vec3::lemma_mul_abs_bound(
                65536 - ny as int,
                self.height as int,
                0x8000_0000_FFFF,
                0x2000,
            );
            lemma_sat_map(
                tdiv(cx as int * 65536, cw as int),
                nx as int,
                self.width as int,
            );
            lemma_sat_map(
                -tdiv(cy as int * 65536, cw as int),
                -(ny as int),
                self.height as int,
            );
        }
        let sx = clamp_screen_fx(((nx as i128) + 65536) * (self.width as i128) / 2);
        let sy = clamp_screen_fx((65536 - (ny as i128)) * (self.height as i128) / 2);
        proof {
            crate::raster::lemma_tdiv_mag(nz as int, 2, 32768);
        }
        let sz = nz / 2 + 32768;
        Option::Some(ScreenV { x: sx, y: sy, z: sz })
    }

    /// Projects a world point through the camera's view and projection
    /// (identity model transform) to screen x and y.
    pub fn project_point(&self, world: Vec3Fx, cam: &Camera) -> (r: Option<(i64, i64)>)
        requires
            self.wf(),
            cam_wf(*cam),
            vec_bounded(world, 0x7FFF_FFFF),
        ensures
            ({
                let p = spec_project(self.width as int, self.height as int, world, spec_view_proj(*cam));
                match r {
                    Option::Some(q) => p matches Option::Some(s) && q.0 == s.x && q.1 == s.y
                        && abs_int(q.0 as int) <= SCREEN_LIMIT as int && abs_int(q.1 as int)
                        <= SCREEN_LIMIT as int,
                    Option::None => p is None,
                }
            }),
    {
        let view = cam.view_matrix();
        let proj = cam.proj_matrix();
        let vp = mat_mul(proj, view, Ghost(0x200_0000int), Ghost(0x2_0000_0000int));
        match self.project_vertex(world, &vp) {
            Option::Some(s) => Option::Some((s.x, s.y)),
            Option::None => Option::None,
        }
    }

    /// Screen coordinates of a world point under the camera, for overlay
    /// drawing outside the renderer.
    pub fn world_to_screen(&self, world: Vec3Fx, cam: &Camera) -> (r: Option<(i64, i64)>)
        requires
            self.wf(),
            cam_wf(*cam),
            vec_bounded(world, 0x7FFF_FFFF),
        ensures
            ({
                let p = spec_project(self.width as int, self.height as int, world, spec_view_proj(*cam));
                match r {
                    Option::Some(q) => p matches Option::Some(s) && q.0 == s.x && q.1 == s.y,
                    Option::None => p is None,
                }
            }),
    {
        self.project_point(world, cam)
    }
}

/// One clip row in wide arithmetic.
fn clip_row(m0: i64, m1: i64, m2: i64, m3: i64, v: Vec3Fx) -> (r: i128)
    requires
        abs_int(m0 as int) <= 0x1000_0000_0000_0000,
        abs_int(m1 as int) <= 0x1000_0000_0000_0000,
        abs_int(m2 as int) <= 0x1000_0000_0000_0000,
        abs_int(m3 as int) <= 0x1000_0000_0000_0000,
        vec_bounded(v, 0x7FFF_FFFF),
    ensures
        r == spec_clip_row(m0 as int, m1 as int, m2 as int, m3 as int, v),
        abs_int(r as int) <= 0x4000_0000_0000_0000_0000_0000,
{
    proof {
        crate::fixed::lemma_mul_fp_le(m0 as int, v.x as int, 0x1000_0000_0000_0000, 0x7FFF_FFFF);
        crate::fixed::lemma_mul_fp_le(m1 as int, v.y as int, 0x1000_0000_0000_0000, 0x7FFF_FFFF);
        crate::fixed::lemma_mul_fp_le(m2 as int, v.z as int, 0x1000_0000_0000_0000, 0x7FFF_FFFF);
    }
    let t0 = ((m0 as i128) * (v.x as i128)) / 65536;
    let t1 = ((m1 as i128) * (v.y as i128)) / 65536;
    let t2 = ((m2 as i128) * (v.z as i128)) / 65536;
    t0 + t1 + t2 + (m3 as i128)
}

/// Clamps a wide screen coordinate into the rasterizer's band.
fn clamp_screen_fx(v: i128) -> (r: i64)
    ensures
        r as int == spec_clamp_screen(v as int),
{
    if v < -0x3000_0000 {
        -0x3000_0000
    } else if v > 0x3000_0000 {
        0x3000_0000
    } else {
        v as i64
    }
}

/// Mapping a saturated NDC coordinate to the screen and clamping gives
/// the same result as mapping the exact one: the saturation threshold
/// lies far beyond the clamp band.
proof fn lemma_sat_map(n0: int, nsat: int, dim: int)
    requires
        1 <= dim <= 8192,
        abs_int(n0) <= 0x7FFF_FFFF_FFFF ==> nsat == n0,
        abs_int(n0) > 0x7FFF_FFFF_FFFF ==> abs_int(nsat) == 0x7FFF_FFFF_FFFF && (n0 > 0 ==> nsat
            > 0) && (n0 < 0 ==> nsat < 0),
    ensures
        spec_clamp_screen(tdiv((nsat + 65536) * dim, 2)) == spec_clamp_screen(
            tdiv((n0 + 65536) * dim, 2),
        ),
{
    if abs_int(n0) <= 0x7FFF_FFFF_FFFF {
    } else if n0 > 0 {
        lemma_map_high(nsat, dim);
        lemma_map_high(n0, dim);
    } else {
        lemma_map_low(nsat, dim);
        lemma_map_low(n0, dim);
    }
}

/// A coordinate at or beyond the positive saturation threshold maps and
/// clamps to the band's upper end.
proof fn lemma_map_high(n: int, dim: int)
    requires
        1 <= dim,
        n >= 0x7FFF_FFFF_FFFF,
    ensures
        spec_clamp_screen(tdiv((n + 65536) * dim, 2)) == SCREEN_LIMIT as int,
{
    let a = (n + 65536) * dim;
    assert(a >= 0x7FFF_FFFF_FFFF) by (nonlinear_arith)
        requires
            n >= 0x7FFF_FFFF_FFFF,
            dim >= 1,
            a == (n + 65536) * dim,
    ;
    vstd::arithmetic::div_mod::lemma_div_pos_is_pos(a, 2);
    vstd::arithmetic::div_mod::lemma_div_is_ordered(0x7FFF_FFFF_FFFF, a, 2);
    assert(0x7FFF_FFFF_FFFFint / 2 == 0x3FFF_FFFF_FFFF) by {
        vstd::arithmetic::div_mod::lemma_fundamental_div_mod_converse(
            0x7FFF_FFFF_FFFF,
            2,
            0x3FFF_FFFF_FFFF,
            1,
        );
    }
}

/// A coordinate at or beyond the negative saturation threshold maps and
/// clamps to the band's lower end.
proof fn lemma_map_low(n: int, dim: int)
    requires
        1 <= dim,
        n <= -0x7FFF_FFFF_FFFF,
    ensures
        spec_clamp_screen(tdiv((n + 65536) * dim, 2)) == -(SCREEN_LIMIT as int),
{
    let a = (n + 65536) * dim;
    assert(a <= -0x7FFF_FFFE_FFFF) by (nonlinear_arith)
        requires
            n <= -0x7FFF_FFFF_FFFF,
            dim >= 1,
            a == (n + 65536) * dim,
    ;
    vstd::arithmetic::div_mod::lemma_div_pos_is_pos(-a, 2);
    vstd::arithmetic::div_mod::lemma_div_is_ordered(0x7FFF_FFFE_FFFF, -a, 2);
    assert(0x7FFF_FFFE_FFFFint / 2 == 0x3FFF_FFFF_7FFF) by {
        vstd::arithmetic::div_mod::lemma_fundamental_div_mod_converse(
            0x7FFF_FFFE_FFFF,
            2,
            0x3FFF_FFFF_7FFF,
            1,
        );
    }
}

/// The NDC coordinate `c * 65536 / w` in wide arithmetic, saturated far
/// outside the screen-mapping clamp so an absurd quotient clamps the same
/// way the exact one would.
fn wide_div_65536(c: i128, w: i128) -> (r: i64)
    requires
        w != 0,
        abs_int(c as int) <= 0x4000_0000_0000_0000_0000_0000,
        abs_int(w as int) <= 0x4000_0000_0000_0000_0000_0000,
    ensures
        ({
            let q = tdiv(c as int * 65536, w as int);
            if abs_int(q) <= 0x7FFF_FFFF_FFFF {
                r == q
            } else {
                abs_int(r as int) == 0x7FFF_FFFF_FFFF && (q > 0 ==> r > 0) && (q < 0 ==> r < 0)
            }
        }),
{
    proof {
        crate::fixed::lemma_tdiv_div_bound(c as int * 65536, w as int);
    }
    let q: i128 = (c * 65536) / w;
    if q > 0x7FFF_FFFF_FFFF {
        0x7FFF_FFFF_FFFF
    } else if q < -0x7FFF_FFFF_FFFF {
        -0x7FFF_FFFF_FFFF
    } else {
        q as i64
    }
}

} // verus!
