//! The camera: a position/target pair and an equivalent orbit form (yaw,
//! pitch, distance around the target), with the view and projection
//! matrices and the orthonormal basis the renderer uses.
//!
//! Angles are binary angle units.  The two representations are kept
//! equivalent by `set_orbit_from_pos` (decompose the offset) and
//! `update_pos_from_orbit` (spherical to Cartesian, y-up).

use vstd::prelude::*;
use crate::fixed::{
    abs_int, asin_bracket, asin_fp, div_fp, isqrt, mul_g, spec_cos, spec_div_fp, spec_mul_fp,
    spec_sin,
};
use crate::mat4::{look_at, mat_bounded, perspective, spec_look_at, spec_perspective, Mat4Fx};
use crate::vec3::{
    lemma_component_le_root, lemma_isqrt_unique, lemma_unit_ratio, spec_cross, spec_isqrt,
    spec_len, spec_normalize, vec_bounded, v3, Vec3Fx,
};
use crate::fixed::lemma_mul_fp_le;

verus! {

/// The world up direction: +Y, unit length.
pub open spec fn spec_world_up() -> Vec3Fx {
    Vec3Fx { x: 0, y: 65536, z: 0 }
}

/// The near plane of the projection (0.1).
pub const NEAR_PLANE: i64 = 6554;

/// The far plane of the projection (2000.0, covering the scene's scale).
pub const FAR_PLANE: i64 = 131072000;

/// The camera.  `pos`/`target` and (`yaw`, `pitch`, `distance` around
/// `target`) are two equivalent representations; exactly one is
/// authoritative per update and the other derived on demand.
pub struct Camera {
    pub pos: Vec3Fx,
    pub target: Vec3Fx,
    pub fov_y: i64,
    pub aspect: i64,
    pub yaw: i64,
    pub pitch: i64,
    pub distance: i64,
}

/// The orbit distance derived from an offset: its length floored at a
/// small epsilon so later divisions cannot hit zero.
pub open spec fn spec_orbit_distance(off: Vec3Fx) -> int {
    let l = spec_len(off);
    if l < 66 {
        66
    } else {
        l
    }
}

/// `r` is the quantized four-quadrant arctangent of `z / x`: in each
/// quadrant it differs from a bracketed arcsine of `|z| / hypotenuse` by
/// the quadrant's half-turn reflection.
pub open spec fn spec_atan2_ok(r: int, z: int, x: int) -> bool {
    if x == 0 && z == 0 {
        r == 0
    } else {
        let h = spec_isqrt(x * x + z * z);
        let ratio = spec_div_fp(abs_int(z), h);
        if x >= 0 && z >= 0 {
            0 <= r <= 65536 && asin_bracket(r, ratio)
        } else if x < 0 && z >= 0 {
            65536 <= r <= 131072 && asin_bracket(131072 - r, ratio)
        } else if x < 0 && z < 0 {
            -131072 <= r <= -65536 && asin_bracket(r + 131072, ratio)
        } else {
            -65536 <= r <= 0 && asin_bracket(-r, ratio)
        }
    }
}

/// The quantized four-quadrant arctangent of `z / x` in binary angle
/// units, by arcsine of `|z|` over the hypotenuse and quadrant
/// reflection.
pub fn atan2_fp(z: i64, x: i64) -> (r: i64)
    requires
        abs_int(z as int) <= 0x7FFF_FFFF,
        abs_int(x as int) <= 0x7FFF_FFFF,
    ensures
        spec_atan2_ok(r as int, z as int, x as int),
        -131072 <= r <= 131072,
{
    if x == 0 && z == 0 {
        return 0;
    }
    let az: i64 = if z < 0 {
        -z
    } else {
        z
    };
    proof {
        crate::vec3::lemma_square_nonneg(x as int);
        crate::vec3::lemma_square_nonneg(z as int);
        crate::vec3::lemma_mul_abs_bound(x as int, x as int, 0x7FFF_FFFF, 0x7FFF_FFFF);
        crate::vec3::lemma_mul_abs_bound(z as int, z as int, 0x7FFF_FFFF, 0x7FFF_FFFF);
    }
    let n: u128 = ((x as i128) * (x as i128) + (z as i128) * (z as i128)) as u128;
    let h64 = isqrt(n);
    proof {
        lemma_isqrt_unique(n as int, h64 as int);
        assert(h64 as int * h64 as int <= n as int);
        assert(n as int >= 1) by (nonlinear_arith)
            requires
                !(x == 0 && z == 0),
                n as int == x as int * x as int + z as int * z as int,
        ;
        assert(h64 as int >= 1) by (nonlinear_arith)
            requires
                (h64 as int + 1) * (h64 as int + 1) > n as int,
                n as int >= 1,
                h64 as int >= 0,
        ;
        assert(h64 as int <= 0x1_0000_0000) by (nonlinear_arith)
            requires
                (h64 as int) * (h64 as int) <= n as int,
                n as int <= 2 * 0x7FFF_FFFFint * 0x7FFF_FFFF,
        ;
        assert(az as int * az as int == z as int * z as int) by (nonlinear_arith)
            requires
                az == abs_int(z as int),
        ;
        assert(0int * 0 == 0) by (nonlinear_arith);
        lemma_component_le_root(az as int, x as int, 0, h64 as int);
        lemma_unit_ratio(az as int, h64 as int);
    }
    let h = h64 as i64;
    let ratio = div_fp(az, h);
    let base = asin_fp(ratio);
    if x >= 0 && z >= 0 {
        base
    } else if x < 0 && z >= 0 {
        131072 - base
    } else if x < 0 {
        base - 131072
    } else {
        -base
    }
}

impl Camera {
    /// A camera looking from `pos` toward `target`, with the fixed
    /// vertical field of view (60 degrees) and aspect ratio (640 / 360)
    /// of this renderer, its orbit form initialized from the offset.
    pub fn new(pos: Vec3Fx, target: Vec3Fx) -> (c: Camera)
        requires
            vec_bounded(pos, 0x3FFF_FFFF),
            vec_bounded(target, 0x3FFF_FFFF),
        ensures
            c.pos == pos,
            c.target == target,
            c.fov_y == 43691,
            c.aspect == 116508,
            c.distance == spec_orbit_distance(
                Vec3Fx {
                    x: (pos.x - target.x) as i64,
                    y: (pos.y - target.y) as i64,
                    z: (pos.z - target.z) as i64,
                },
            ),
            -65536 <= c.pitch <= 65536,
            asin_bracket(
                c.pitch as int,
                spec_div_fp((pos.y - target.y) as int, c.distance as int),
            ),
            spec_atan2_ok(c.yaw as int, (pos.z - target.z) as int, (pos.x - target.x) as int),
    {
        let mut cam = Camera {
            pos,
            target,
            fov_y: 43691,
            aspect: 116508,
            yaw: 0,
            pitch: 0,
            distance: 655360,
        };
        cam.set_orbit_from_pos();
        cam
    }

    /// Re-derives yaw, pitch and distance from the current position and
    /// target: distance is the offset's length (floored at an epsilon),
    /// pitch the arcsine of the offset's normalized height, yaw the
    /// arctangent of its z over x.
    pub fn set_orbit_from_pos(&mut self)
        requires
            vec_bounded(old(self).pos, 0x3FFF_FFFF),
            vec_bounded(old(self).target, 0x3FFF_FFFF),
        ensures
            final(self).pos == old(self).pos,
            final(self).target == old(self).target,
            final(self).fov_y == old(self).fov_y,
            final(self).aspect == old(self).aspect,
            final(self).distance == spec_orbit_distance(
                Vec3Fx {
                    x: (old(self).pos.x - old(self).target.x) as i64,
                    y: (old(self).pos.y - old(self).target.y) as i64,
                    z: (old(self).pos.z - old(self).target.z) as i64,
                },
            ),
            66 <= final(self).distance,
            -65536 <= final(self).pitch <= 65536,
            asin_bracket(
                final(self).pitch as int,
                spec_div_fp(
                    (old(self).pos.y - old(self).target.y) as int,
                    final(self).distance as int,
                ),
            ),
            spec_atan2_ok(
                final(self).yaw as int,
                (old(self).pos.z - old(self).target.z) as int,
                (old(self).pos.x - old(self).target.x) as int,
            ),
    {
        let off = self.pos.sub(self.target);
        let len = off.length();
        let d = if len < 66 {
            66
        } else {
            len
        };
        proof {
            lemma_component_le_root(off.y as int, off.x as int, off.z as int, len as int);
            assert(abs_int(off.y as int) <= d as int);
            lemma_unit_ratio(off.y as int, d as int);
        }
        let ratio = div_fp(off.y, d);
        self.distance = d;
        self.pitch = asin_fp(ratio);
        self.yaw = atan2_fp(off.z, off.x);
    }

    /// Recomputes the position from the orbit form around the current
    /// target: spherical to Cartesian with a y-up convention.
    pub fn update_pos_from_orbit(&mut self)
        requires
            vec_bounded(old(self).target, 0x1FFF_FFFF),
            0 <= old(self).distance <= 0x1FFF_FFFF,
        ensures
            ({
                let d = old(self).distance as int;
                let cp = spec_cos(old(self).pitch as int);
                let cy = spec_cos(old(self).yaw as int);
                let sy = spec_sin(old(self).yaw as int);
                let sp = spec_sin(old(self).pitch as int);
                final(self).pos == Vec3Fx {
                    x: (old(self).target.x + spec_mul_fp(spec_mul_fp(d, cp), cy)) as i64,
                    y: (old(self).target.y + spec_mul_fp(d, sp)) as i64,
                    z: (old(self).target.z + spec_mul_fp(spec_mul_fp(d, cp), sy)) as i64,
                }
            }),
            vec_bounded(final(self).pos, 0x3FFF_FFFF),
            final(self).target == old(self).target,
            final(self).fov_y == old(self).fov_y,
            final(self).aspect == old(self).aspect,
            final(self).yaw == old(self).yaw,
            final(self).pitch == old(self).pitch,
            final(self).distance == old(self).distance,
    {
        let cp = crate::fixed::cos_bau(self.pitch);
        let cy = crate::fixed::cos_bau(self.yaw);
        let sy = crate::fixed::sin_bau(self.yaw);
        let sp = crate::fixed::sin_bau(self.pitch);
        let dcp = mul_g(self.distance, cp, Ghost(0x1FFF_FFFF), Ghost(65536));
        let x = mul_g(dcp, cy, Ghost(0x1FFF_FFFF), Ghost(65536));
        let y = mul_g(self.distance, sp, Ghost(0x1FFF_FFFF), Ghost(65536));
        let z = mul_g(dcp, sy, Ghost(0x1FFF_FFFF), Ghost(65536));
        self.pos = Vec3Fx {
            x: self.target.x + x,
            y: self.target.y + y,
            z: self.target.z + z,
        };
    }

    /// The unit direction from the position toward the target.
    pub fn forward(&self) -> (r: Vec3Fx)
        requires
            vec_bounded(self.pos, 0x3FFF_FFFF),
            vec_bounded(self.target, 0x3FFF_FFFF),
        ensures
            r == self.spec_forward(),
            vec_bounded(r, 65536),
    {
        self.target.sub(self.pos).normalize()
    }

    /// The camera's forward direction.
    pub open spec fn spec_forward(self) -> Vec3Fx {
        spec_normalize(
            Vec3Fx {
                x: (self.target.x - self.pos.x) as i64,
                y: (self.target.y - self.pos.y) as i64,
                z: (self.target.z - self.pos.z) as i64,
            },
        )
    }

    /// The camera's right direction: forward crossed with world up,
    /// normalized.  Degenerates to zero if forward is exactly parallel to
    /// world up (a documented edge case, not corrected).
    pub open spec fn spec_right(self) -> Vec3Fx {
        spec_normalize(spec_cross(self.spec_forward(), spec_world_up()))
    }

    /// The camera's up direction: right crossed with forward, normalized.
    pub open spec fn spec_up(self) -> Vec3Fx {
        spec_normalize(spec_cross(self.spec_right(), self.spec_forward()))
    }

    /// The unit right direction of the camera frame.
    pub fn right(&self) -> (r: Vec3Fx)
        requires
            vec_bounded(self.pos, 0x3FFF_FFFF),
            vec_bounded(self.target, 0x3FFF_FFFF),
        ensures
            r == self.spec_right(),
            vec_bounded(r, 65536),
    {
        let f = self.forward();
        let up = v3(0, 65536, 0);
        let c = f.cross(up);
        proof {
            lemma_cross_unit_bound(f, up);
        }
        c.normalize()
    }

    /// The unit up direction of the camera frame.
    pub fn up(&self) -> (r: Vec3Fx)
        requires
            vec_bounded(self.pos, 0x3FFF_FFFF),
            vec_bounded(self.target, 0x3FFF_FFFF),
        ensures
            r == self.spec_up(),
            vec_bounded(r, 65536),
    {
        let rv = self.right();
        let f = self.forward();
        let c = rv.cross(f);
        proof {
            lemma_cross_unit_bound(rv, f);
        }
        c.normalize()
    }

    /// The right-handed look-at view matrix from position, target and
    /// world up.
    pub fn view_matrix(&self) -> (r: Mat4Fx)
        requires
            vec_bounded(self.pos, 0x3FFF_FFFF),
            vec_bounded(self.target, 0x3FFF_FFFF),
        ensures
            r == spec_look_at(self.pos, self.target, spec_world_up()),
            mat_bounded(r, 0x2_0000_0000),
    {
        look_at(self.pos, self.target, v3(0, 65536, 0))
    }

    /// The right-handed perspective matrix from the camera's field of
    /// view and aspect ratio, with the renderer's fixed near and far
    /// planes.
    pub fn proj_matrix(&self) -> (r: Mat4Fx)
        requires
            0 < self.fov_y < 131072,
            256 <= spec_sin(self.fov_y as int / 2) <= 65536,
            32768 <= self.aspect <= 0x7FFF_FFFF,
        ensures
            r == spec_perspective(
                self.fov_y as int,
                self.aspect as int,
                NEAR_PLANE as int,
                FAR_PLANE as int,
            ),
            mat_bounded(r, 0x200_0000),
    {
        perspective(self.fov_y, self.aspect, NEAR_PLANE, FAR_PLANE)
    }
}

/// The cross product of two wide-bounded vectors stays within the range
/// the length computation accepts.
pub proof fn lemma_cross_unit_bound_wide(a: Vec3Fx, b: Vec3Fx)
    requires
        vec_bounded(a, 0x6000_0000),
        vec_bounded(b, 0x6000_0000),
    ensures
        vec_bounded(spec_cross(a, b), 0x7FFF_FFFF_FFFF),
{
    lemma_mul_fp_le(a.y as int, b.z as int, 0x6000_0000, 0x6000_0000);
    lemma_mul_fp_le(a.z as int, b.y as int, 0x6000_0000, 0x6000_0000);
    lemma_mul_fp_le(a.z as int, b.x as int, 0x6000_0000, 0x6000_0000);
    lemma_mul_fp_le(a.x as int, b.z as int, 0x6000_0000, 0x6000_0000);
    lemma_mul_fp_le(a.x as int, b.y as int, 0x6000_0000, 0x6000_0000);
    lemma_mul_fp_le(a.y as int, b.x as int, 0x6000_0000, 0x6000_0000);
}

/// The cross product of two unit-bounded vectors stays well inside the
/// vector range.
pub proof fn lemma_cross_unit_bound(a: Vec3Fx, b: Vec3Fx)
    requires
        vec_bounded(a, 65536),
        vec_bounded(b, 65536),
    ensures
        vec_bounded(spec_cross(a, b), 131072),
{
    lemma_mul_fp_le(a.y as int, b.z as int, 65536, 65536);
    lemma_mul_fp_le(a.z as int, b.y as int, 65536, 65536);
    lemma_mul_fp_le(a.z as int, b.x as int, 65536, 65536);
    lemma_mul_fp_le(a.x as int, b.z as int, 65536, 65536);
    lemma_mul_fp_le(a.x as int, b.y as int, 65536, 65536);
    lemma_mul_fp_le(a.y as int, b.x as int, 65536, 65536);
}

} // verus!
