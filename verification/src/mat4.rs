//! Row-major 4x4 fixed-point matrices: multiplication, the right-handed
//! look-at view matrix and the right-handed perspective projection with
//! normalized depth in `[-1, 1]`.

use vstd::prelude::*;
use crate::fixed::{
    abs_int, cos_bau, div_fp, lemma_mul_fp_le, mul_fp, sin_bau, spec_cos, spec_div_fp, spec_mul_fp,
    spec_sin, tdiv,
};
use crate::vec3::{spec_cross, spec_dot, spec_normalize, vec_bounded, Vec3Fx};

verus! {

/// A 4x4 matrix of 16.16 fixed-point entries, row-major: row `i`, column
/// `j` is `mij`, and a point is transformed as a column vector.
#[derive(Clone, Copy, Debug, PartialEq, Eq, Structural)]
pub struct Mat4Fx {
    pub m00: i64,
    pub m01: i64,
    pub m02: i64,
    pub m03: i64,
    pub m10: i64,
    pub m11: i64,
    pub m12: i64,
    pub m13: i64,
    pub m20: i64,
    pub m21: i64,
    pub m22: i64,
    pub m23: i64,
    pub m30: i64,
    pub m31: i64,
    pub m32: i64,
    pub m33: i64,
}

/// Magnitude bound on every entry.
pub open spec fn mat_bounded(m: Mat4Fx, b: int) -> bool {
    &&& abs_int(m.m00 as int) <= b && abs_int(m.m01 as int) <= b && abs_int(m.m02 as int) <= b
        && abs_int(m.m03 as int) <= b
    &&& abs_int(m.m10 as int) <= b && abs_int(m.m11 as int) <= b && abs_int(m.m12 as int) <= b
        && abs_int(m.m13 as int) <= b
    &&& abs_int(m.m20 as int) <= b && abs_int(m.m21 as int) <= b && abs_int(m.m22 as int) <= b
        && abs_int(m.m23 as int) <= b
    &&& abs_int(m.m30 as int) <= b && abs_int(m.m31 as int) <= b && abs_int(m.m32 as int) <= b
        && abs_int(m.m33 as int) <= b
}

/// One entry of a matrix product: the fixed-point dot product of a row
/// with a column.
pub open spec fn spec_ent4(
    a0: int,
    a1: int,
    a2: int,
    a3: int,
    b0: int,
    b1: int,
    b2: int,
    b3: int,
) -> int {
    spec_mul_fp(a0, b0) + spec_mul_fp(a1, b1) + spec_mul_fp(a2, b2) + spec_mul_fp(a3, b3)
}

/// Computes one product entry in wide arithmetic.
fn ent4(
    a0: i64,
    a1: i64,
    a2: i64,
    a3: i64,
    b0: i64,
    b1: i64,
    b2: i64,
    b3: i64,
    Ghost(ba): Ghost<int>,
    Ghost(bb): Ghost<int>,
) -> (r: i64)
    requires
        abs_int(a0 as int) <= ba && abs_int(a1 as int) <= ba && abs_int(a2 as int) <= ba && abs_int(
            a3 as int,
        ) <= ba,
        abs_int(b0 as int) <= bb && abs_int(b1 as int) <= bb && abs_int(b2 as int) <= bb && abs_int(
            b3 as int,
        ) <= bb,
        0 <= ba,
        0 <= bb,
        ba * bb <= 0x1000_0000_0000_0000_0000,
    ensures
        r == spec_ent4(
            a0 as int,
            a1 as int,
            a2 as int,
            a3 as int,
            b0 as int,
            b1 as int,
            b2 as int,
            b3 as int,
        ),
        abs_int(r as int) <= 4 * (ba * bb / 65536),
{
    proof {
        lemma_mul_fp_le(a0 as int, b0 as int, ba, bb);
        lemma_mul_fp_le(a1 as int, b1 as int, ba, bb);
        lemma_mul_fp_le(a2 as int, b2 as int, ba, bb);
        lemma_mul_fp_le(a3 as int, b3 as int, ba, bb);
        vstd::arithmetic::div_mod::lemma_div_pos_is_pos(ba * bb, 65536);
    }
    let t0 = ((a0 as i128) * (b0 as i128)) / 65536;
    let t1 = ((a1 as i128) * (b1 as i128)) / 65536;
    let t2 = ((a2 as i128) * (b2 as i128)) / 65536;
    let t3 = ((a3 as i128) * (b3 as i128)) / 65536;
    (t0 + t1 + t2 + t3) as i64
}

/// The fixed-point matrix product.
pub open spec fn spec_mat_mul(a: Mat4Fx, b: Mat4Fx) -> Mat4Fx {
    Mat4Fx {
        m00: spec_ent4(a.m00 as int, a.m01 as int, a.m02 as int, a.m03 as int, b.m00 as int, b.m10 as int, b.m20 as int, b.m30 as int) as i64,
        m01: spec_ent4(a.m00 as int, a.m01 as int, a.m02 as int, a.m03 as int, b.m01 as int, b.m11 as int, b.m21 as int, b.m31 as int) as i64,
        m02: spec_ent4(a.m00 as int, a.m01 as int, a.m02 as int, a.m03 as int, b.m02 as int, b.m12 as int, b.m22 as int, b.m32 as int) as i64,
        m03: spec_ent4(a.m00 as int, a.m01 as int, a.m02 as int, a.m03 as int, b.m03 as int, b.m13 as int, b.m23 as int, b.m33 as int) as i64,
        m10: spec_ent4(a.m10 as int, a.m11 as int, a.m12 as int, a.m13 as int, b.m00 as int, b.m10 as int, b.m20 as int, b.m30 as int) as i64,
        m11: spec_ent4(a.m10 as int, a.m11 as int, a.m12 as int, a.m13 as int, b.m01 as int, b.m11 as int, b.m21 as int, b.m31 as int) as i64,
        m12: spec_ent4(a.m10 as int, a.m11 as int, a.m12 as int, a.m13 as int, b.m02 as int, b.m12 as int, b.m22 as int, b.m32 as int) as i64,
        m13: spec_ent4(a.m10 as int, a.m11 as int, a.m12 as int, a.m13 as int, b.m03 as int, b.m13 as int, b.m23 as int, b.m33 as int) as i64,
        m20: spec_ent4(a.m20 as int, a.m21 as int, a.m22 as int, a.m23 as int, b.m00 as int, b.m10 as int, b.m20 as int, b.m30 as int) as i64,
        m21: spec_ent4(a.m20 as int, a.m21 as int, a.m22 as int, a.m23 as int, b.m01 as int, b.m11 as int, b.m21 as int, b.m31 as int) as i64,
        m22: spec_ent4(a.m20 as int, a.m21 as int, a.m22 as int, a.m23 as int, b.m02 as int, b.m12 as int, b.m22 as int, b.m32 as int) as i64,
        m23: spec_ent4(a.m20 as int, a.m21 as int, a.m22 as int, a.m23 as int, b.m03 as int, b.m13 as int, b.m23 as int, b.m33 as int) as i64,
        m30: spec_ent4(a.m30 as int, a.m31 as int, a.m32 as int, a.m33 as int, b.m00 as int, b.m10 as int, b.m20 as int, b.m30 as int) as i64,
        m31: spec_ent4(a.m30 as int, a.m31 as int, a.m32 as int, a.m33 as int, b.m01 as int, b.m11 as int, b.m21 as int, b.m31 as int) as i64,
        m32: spec_ent4(a.m30 as int, a.m31 as int, a.m32 as int, a.m33 as int, b.m02 as int, b.m12 as int, b.m22 as int, b.m32 as int) as i64,
        m33: spec_ent4(a.m30 as int, a.m31 as int, a.m32 as int, a.m33 as int, b.m03 as int, b.m13 as int, b.m23 as int, b.m33 as int) as i64,
    }
}

/// Multiplies two bounded fixed-point matrices.
pub fn mat_mul(a: Mat4Fx, b: Mat4Fx, Ghost(ba): Ghost<int>, Ghost(bb): Ghost<int>) -> (r: Mat4Fx)
    requires
        mat_bounded(a, ba),
        mat_bounded(b, bb),
        0 <= ba,
        0 <= bb,
        ba * bb <= 0x1000_0000_0000_0000_0000,
    ensures
        r == spec_mat_mul(a, b),
        mat_bounded(r, 4 * (ba * bb / 65536)),
{
    Mat4Fx {
        m00: ent4(a.m00, a.m01, a.m02, a.m03, b.m00, b.m10, b.m20, b.m30, Ghost(ba), Ghost(bb)),
        m01: ent4(a.m00, a.m01, a.m02, a.m03, b.m01, b.m11, b.m21, b.m31, Ghost(ba), Ghost(bb)),
        m02: ent4(a.m00, a.m01, a.m02, a.m03, b.m02, b.m12, b.m22, b.m32, Ghost(ba), Ghost(bb)),
        m03: ent4(a.m00, a.m01, a.m02, a.m03, b.m03, b.m13, b.m23, b.m33, Ghost(ba), Ghost(bb)),
        m10: ent4(a.m10, a.m11, a.m12, a.m13, b.m00, b.m10, b.m20, b.m30, Ghost(ba), Ghost(bb)),
        m11: ent4(a.m10, a.m11, a.m12, a.m13, b.m01, b.m11, b.m21, b.m31, Ghost(ba), Ghost(bb)),
        m12: ent4(a.m10, a.m11, a.m12, a.m13, b.m02, b.m12, b.m22, b.m32, Ghost(ba), Ghost(bb)),
        m13: ent4(a.m10, a.m11, a.m12, a.m13, b.m03, b.m13, b.m23, b.m33, Ghost(ba), Ghost(bb)),
        m20: ent4(a.m20, a.m21, a.m22, a.m23, b.m00, b.m10, b.m20, b.m30, Ghost(ba), Ghost(bb)),
        m21: ent4(a.m20, a.m21, a.m22, a.m23, b.m01, b.m11, b.m21, b.m31, Ghost(ba), Ghost(bb)),
        m22: ent4(a.m20, a.m21, a.m22, a.m23, b.m02, b.m12, b.m22, b.m32, Ghost(ba), Ghost(bb)),
        m23: ent4(a.m20, a.m21, a.m22, a.m23, b.m03, b.m13, b.m23, b.m33, Ghost(ba), Ghost(bb)),
        m30: ent4(a.m30, a.m31, a.m32, a.m33, b.m00, b.m10, b.m20, b.m30, Ghost(ba), Ghost(bb)),
        m31: ent4(a.m30, a.m31, a.m32, a.m33, b.m01, b.m11, b.m21, b.m31, Ghost(ba), Ghost(bb)),
        m32: ent4(a.m30, a.m31, a.m32, a.m33, b.m02, b.m12, b.m22, b.m32, Ghost(ba), Ghost(bb)),
        m33: ent4(a.m30, a.m31, a.m32, a.m33, b.m03, b.m13, b.m23, b.m33, Ghost(ba), Ghost(bb)),
    }
}

/// The largest camera position or scene coordinate the matrix builders
/// accept (16384.0, which covers the far plane's reach).
pub const POS_LIMIT: i64 = 0x4000_0000;

/// The right-handed look-at view matrix: rows are the right, orthonormal
/// up and negated forward axes, with translations that bring `eye` to the
/// origin.
pub open spec fn spec_look_at(eye: Vec3Fx, target: Vec3Fx, up: Vec3Fx) -> Mat4Fx {
    let f = spec_normalize(
        Vec3Fx {
            x: (target.x - eye.x) as i64,
            y: (target.y - eye.y) as i64,
            z: (target.z - eye.z) as i64,
        },
    );
    let s = spec_normalize(spec_cross(f, up));
    let u = spec_cross(s, f);
    Mat4Fx {
        m00: s.x,
        m01: s.y,
        m02: s.z,
        m03: (-spec_dot(s, eye)) as i64,
        m10: u.x,
        m11: u.y,
        m12: u.z,
        m13: (-spec_dot(u, eye)) as i64,
        m20: (-(f.x as int)) as i64,
        m21: (-(f.y as int)) as i64,
        m22: (-(f.z as int)) as i64,
        m23: spec_dot(f, eye) as i64,
        m30: 0,
        m31: 0,
        m32: 0,
        m33: 65536,
    }
}

/// Builds the right-handed look-at view matrix.
pub fn look_at(eye: Vec3Fx, target: Vec3Fx, up: Vec3Fx) -> (r: Mat4Fx)
    requires
        vec_bounded(eye, POS_LIMIT as int),
        vec_bounded(target, POS_LIMIT as int),
        vec_bounded(up, 65536),
    ensures
        r == spec_look_at(eye, target, up),
        mat_bounded(r, 0x2_0000_0000),
{
    let fv = target.sub(eye);
    let f = fv.normalize();
    let fxu = f.cross(up);
    proof {
        lemma_mul_fp_le(f.y as int, up.z as int, 65536, 65536);
        lemma_mul_fp_le(f.z as int, up.y as int, 65536, 65536);
        lemma_mul_fp_le(f.z as int, up.x as int, 65536, 65536);
        lemma_mul_fp_le(f.x as int, up.z as int, 65536, 65536);
        lemma_mul_fp_le(f.x as int, up.y as int, 65536, 65536);
        lemma_mul_fp_le(f.y as int, up.x as int, 65536, 65536);
    }
    let s = fxu.normalize();
    let u = s.cross(f);
    proof {
        lemma_mul_fp_le(s.y as int, f.z as int, 65536, 65536);
        lemma_mul_fp_le(s.z as int, f.y as int, 65536, 65536);
        lemma_mul_fp_le(s.z as int, f.x as int, 65536, 65536);
        lemma_mul_fp_le(s.x as int, f.z as int, 65536, 65536);
        lemma_mul_fp_le(s.x as int, f.y as int, 65536, 65536);
        lemma_mul_fp_le(s.y as int, f.x as int, 65536, 65536);
        assert(crate::vec3::vec_bounded(u, 131072));
        lemma_mul_fp_le(s.x as int, eye.x as int, 65536, POS_LIMIT as int);
        lemma_mul_fp_le(s.y as int, eye.y as int, 65536, POS_LIMIT as int);
        lemma_mul_fp_le(s.z as int, eye.z as int, 65536, POS_LIMIT as int);
        lemma_mul_fp_le(u.x as int, eye.x as int, 131072, POS_LIMIT as int);
        lemma_mul_fp_le(u.y as int, eye.y as int, 131072, POS_LIMIT as int);
        lemma_mul_fp_le(u.z as int, eye.z as int, 131072, POS_LIMIT as int);
        lemma_mul_fp_le(f.x as int, eye.x as int, 65536, POS_LIMIT as int);
        lemma_mul_fp_le(f.y as int, eye.y as int, 65536, POS_LIMIT as int);
        lemma_mul_fp_le(f.z as int, eye.z as int, 65536, POS_LIMIT as int);
    }
    let ds = s.dot(eye);
    let du = u.dot(eye);
    let df = f.dot(eye);
    Mat4Fx {
        m00: s.x,
        m01: s.y,
        m02: s.z,
        m03: -ds,
        m10: u.x,
        m11: u.y,
        m12: u.z,
        m13: -du,
        m20: -f.x,
        m21: -f.y,
        m22: -f.z,
        m23: df,
        m30: 0,
        m31: 0,
        m32: 0,
        m33: 65536,
    }
}

/// The right-handed perspective projection with vertical field of view
/// `fov_y` in binary angle units: after the perspective divide, depth
/// lands in `[-1, 1]` and on-screen points in `[-1, 1]` on both axes.
pub open spec fn spec_perspective(fov_y: int, aspect: int, near: int, far: int) -> Mat4Fx {
    let half = fov_y / 2;
    let f = spec_div_fp(spec_cos(half), spec_sin(half));
    Mat4Fx {
        m00: spec_div_fp(f, aspect) as i64,
        m01: 0,
        m02: 0,
        m03: 0,
        m10: 0,
        m11: f as i64,
        m12: 0,
        m13: 0,
        m20: 0,
        m21: 0,
        m22: (-tdiv((far + near) * 65536, far - near)) as i64,
        m23: (-tdiv(2 * spec_mul_fp(far, near) * 65536, far - near)) as i64,
        m30: 0,
        m31: 0,
        m32: -65536i64,
        m33: 0,
    }
}

/// Builds the right-handed perspective projection matrix.  The bounds on
/// the field of view, aspect ratio and planes keep every entry within a
/// small fixed-point range.
pub fn perspective(fov_y: i64, aspect: i64, near: i64, far: i64) -> (r: Mat4Fx)
    requires
        0 < fov_y < 131072,
        256 <= spec_sin(fov_y as int / 2) <= 65536,
        32768 <= aspect <= 0x7FFF_FFFF,
        0 < near <= 65536,
        2 * near <= far,
        far <= POS_LIMIT,
    ensures
        r == spec_perspective(fov_y as int, aspect as int, near as int, far as int),
        mat_bounded(r, 0x200_0000),
{
    let half = fov_y / 2;
    let c = cos_bau(half);
    let s = sin_bau(half);
    proof {
        assert(abs_int(c as int * 65536) <= s as int * 0x100_0000) by (nonlinear_arith)
            requires
                -65536 <= c <= 65536,
                256 <= s,
        ;
        crate::raster::lemma_tdiv_mag(c as int * 65536, s as int, 0x100_0000);
    }
    let f = div_fp(c, s);
    proof {
        assert(f == tdiv(c as int * 65536, s as int));
        assert(abs_int(f as int) <= 0x100_0000);
        assert(abs_int(f as int * 65536) <= aspect as int * 0x200_0000) by (nonlinear_arith)
            requires
                -0x100_0000 <= f <= 0x100_0000,
                32768 <= aspect,
        ;
        crate::raster::lemma_tdiv_mag(f as int * 65536, aspect as int, 0x200_0000);
    }
    let m00 = div_fp(f, aspect);
    proof {
        assert(abs_int((far + near) as int * 65536) <= (far - near) as int * 196608)
            by (nonlinear_arith)
            requires
                0 < near,
                2 * near <= far,
        ;
        crate::raster::lemma_tdiv_mag((far + near) as int * 65536, (far - near) as int, 196608);
    }
    let m22 = -(((far + near) * 65536) / (far - near));
    proof {
        assert(0 <= far as int * near as int) by (nonlinear_arith)
            requires
                far > 0,
                near > 0,
        ;
        lemma_mul_fp_le(far as int, near as int, POS_LIMIT as int, 65536);
        vstd::arithmetic::div_mod::lemma_div_pos_is_pos(far as int * near as int, 65536);
    }
    let nf = mul_fp(far, near);
    proof {
        assert(far as int * near as int <= far as int * 65536) by (nonlinear_arith)
            requires
                0 < far,
                0 < near <= 65536,
        ;
        vstd::arithmetic::div_mod::lemma_div_is_ordered(
            far as int * near as int,
            far as int * 65536,
            65536,
        );
        vstd::arithmetic::div_mod::lemma_div_multiples_vanish(far as int, 65536);
        assert(abs_int(2 * nf as int * 65536) <= (far - near) as int * 524288) by (nonlinear_arith)
            requires
                0 <= nf,
                nf <= far,
                0 < near <= 65536,
                2 * near <= far,
        ;
        crate::raster::lemma_tdiv_mag(2 * nf as int * 65536, (far - near) as int, 524288);
    }
    let m23 = -((2 * nf * 65536) / (far - near));
    Mat4Fx {
        m00,
        m01: 0,
        m02: 0,
        m03: 0,
        m10: 0,
        m11: f,
        m12: 0,
        m13: 0,
        m20: 0,
        m21: 0,
        m22,
        m23,
        m30: 0,
        m31: 0,
        m32: -65536i64,
        m33: 0,
    }
}

} // verus!
