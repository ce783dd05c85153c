//! Three-component vectors in 16.16 fixed point.

use vstd::prelude::*;
use crate::fixed::{
    abs_int, div_fp, isqrt, mul_fp, spec_div_fp, spec_mul_fp,
};

verus! {

/// A vector whose components are 16.16 fixed-point values.
#[derive(Clone, Copy, Debug, PartialEq, Eq, Structural)]
pub struct Vec3Fx {
    pub x: i64,
    pub y: i64,
    pub z: i64,
}

/// Magnitude bound on every component, used to discharge overflow
/// obligations in the vector operations.
pub open spec fn vec_bounded(v: Vec3Fx, b: int) -> bool {
    &&& abs_int(v.x as int) <= b
    &&& abs_int(v.y as int) <= b
    &&& abs_int(v.z as int) <= b
}

/// Component bound under which every vector operation below is free of
/// overflow (about 32768.0 in real terms).
pub const VEC_LIMIT: i64 = 0x7FFF_FFFF;

/// Builds a vector from its three fixed-point components.
pub fn v3(x: i64, y: i64, z: i64) -> (r: Vec3Fx)
    ensures
        r == (Vec3Fx { x, y, z }),
{
    Vec3Fx { x, y, z }
}

/// The fixed-point dot product of two vectors.
pub open spec fn spec_dot(a: Vec3Fx, b: Vec3Fx) -> int {
    spec_mul_fp(a.x as int, b.x as int) + spec_mul_fp(a.y as int, b.y as int) + spec_mul_fp(
        a.z as int,
        b.z as int,
    )
}

/// The fixed-point cross product of two vectors.
pub open spec fn spec_cross(a: Vec3Fx, b: Vec3Fx) -> Vec3Fx {
    Vec3Fx {
        x: (spec_mul_fp(a.y as int, b.z as int) - spec_mul_fp(a.z as int, b.y as int)) as i64,
        y: (spec_mul_fp(a.z as int, b.x as int) - spec_mul_fp(a.x as int, b.z as int)) as i64,
        z: (spec_mul_fp(a.x as int, b.y as int) - spec_mul_fp(a.y as int, b.x as int)) as i64,
    }
}

/// The greatest integer whose square does not exceed `n`.
pub open spec fn spec_isqrt(n: int) -> int {
    choose|r: int| r >= 0 && #[trigger] (r * r) <= n < (r + 1) * (r + 1)
}

/// Any witness of the integer-square-root property equals `spec_isqrt`.
pub proof fn lemma_isqrt_unique(n: int, r: int)
    requires
        r >= 0,
        r * r <= n < (r + 1) * (r + 1),
    ensures
        r == spec_isqrt(n),
{
    assert(exists|q: int| q >= 0 && #[trigger] (q * q) <= n < (q + 1) * (q + 1)) by {
        assert(r >= 0 && #[trigger] (r * r) <= n < (r + 1) * (r + 1));
    }
    let c = spec_isqrt(n);
    assert(c >= 0 && c * c <= n < (c + 1) * (c + 1));
    assert(c == r) by (nonlinear_arith)
        requires
            r >= 0,
            r * r <= n < (r + 1) * (r + 1),
            c >= 0,
            c * c <= n < (c + 1) * (c + 1),
    ;
}

/// The fixed-point length of a vector: the integer square root of the sum
/// of the squared raw components (which rescales to 16.16 exactly).
pub open spec fn spec_len(v: Vec3Fx) -> int {
    spec_isqrt(
        (v.x as int) * (v.x as int) + (v.y as int) * (v.y as int) + (v.z as int) * (v.z as int),
    )
}

/// A vector scaled to unit length, component-wise `c / len`; the zero
/// vector (whose direction is undefined) is returned unchanged.
pub open spec fn spec_normalize(v: Vec3Fx) -> Vec3Fx {
    let l = spec_len(v);
    if l == 0 {
        Vec3Fx { x: 0, y: 0, z: 0 }
    } else {
        Vec3Fx {
            x: spec_div_fp(v.x as int, l) as i64,
            y: spec_div_fp(v.y as int, l) as i64,
            z: spec_div_fp(v.z as int, l) as i64,
        }
    }
}

impl Vec3Fx {
    /// Component-wise sum.
    pub fn add(self, o: Vec3Fx) -> (r: Vec3Fx)
        requires
            vec_bounded(self, 0x3FFF_FFFF_FFFF_FFFF),
            vec_bounded(o, 0x3FFF_FFFF_FFFF_FFFF),
        ensures
            r.x == self.x + o.x,
            r.y == self.y + o.y,
            r.z == self.z + o.z,
    {
        Vec3Fx { x: self.x + o.x, y: self.y + o.y, z: self.z + o.z }
    }

    /// Component-wise difference.
    pub fn sub(self, o: Vec3Fx) -> (r: Vec3Fx)
        requires
            vec_bounded(self, 0x3FFF_FFFF_FFFF_FFFF),
            vec_bounded(o, 0x3FFF_FFFF_FFFF_FFFF),
        ensures
            r.x == self.x - o.x,
            r.y == self.y - o.y,
            r.z == self.z - o.z,
    {
        Vec3Fx { x: self.x - o.x, y: self.y - o.y, z: self.z - o.z }
    }

    /// Component-wise negation.
    pub fn neg(self) -> (r: Vec3Fx)
        requires
            vec_bounded(self, 0x3FFF_FFFF_FFFF_FFFF),
        ensures
            r.x == -self.x,
            r.y == -self.y,
            r.z == -self.z,
    {
        Vec3Fx { x: -self.x, y: -self.y, z: -self.z }
    }

    /// Every component multiplied by the fixed-point scalar `s`.
    pub fn scale(self, s: i64) -> (r: Vec3Fx)
        requires
            vec_bounded(self, VEC_LIMIT as int),
            abs_int(s as int) <= VEC_LIMIT as int,
        ensures
            r.x == spec_mul_fp(self.x as int, s as int),
            r.y == spec_mul_fp(self.y as int, s as int),
            r.z == spec_mul_fp(self.z as int, s as int),
    {
        proof {
            lemma_mul_abs_bound(self.x as int, s as int, VEC_LIMIT as int, VEC_LIMIT as int);
            lemma_mul_abs_bound(self.y as int, s as int, VEC_LIMIT as int, VEC_LIMIT as int);
            lemma_mul_abs_bound(self.z as int, s as int, VEC_LIMIT as int, VEC_LIMIT as int);
        }
        Vec3Fx { x: mul_fp(self.x, s), y: mul_fp(self.y, s), z: mul_fp(self.z, s) }
    }

    /// Fixed-point dot product.
    pub fn dot(self, o: Vec3Fx) -> (r: i64)
        requires
            vec_bounded(self, VEC_LIMIT as int),
            vec_bounded(o, VEC_LIMIT as int),
        ensures
            r == spec_dot(self, o),
    {
        proof {
            lemma_mul_abs_bound(self.x as int, o.x as int, VEC_LIMIT as int, VEC_LIMIT as int);
            lemma_mul_abs_bound(self.y as int, o.y as int, VEC_LIMIT as int, VEC_LIMIT as int);
            lemma_mul_abs_bound(self.z as int, o.z as int, VEC_LIMIT as int, VEC_LIMIT as int);
            crate::fixed::lemma_tdiv_bound((self.x as int) * (o.x as int), 65536);
            crate::fixed::lemma_tdiv_bound((self.y as int) * (o.y as int), 65536);
            crate::fixed::lemma_tdiv_bound((self.z as int) * (o.z as int), 65536);
        }
        mul_fp(self.x, o.x) + mul_fp(self.y, o.y) + mul_fp(self.z, o.z)
    }

    /// Fixed-point cross product.
    pub fn cross(self, o: Vec3Fx) -> (r: Vec3Fx)
        requires
            vec_bounded(self, VEC_LIMIT as int),
            vec_bounded(o, VEC_LIMIT as int),
        ensures
            r == spec_cross(self, o),
    {
        proof {
            lemma_mul_abs_bound(self.y as int, o.z as int, VEC_LIMIT as int, VEC_LIMIT as int);
            lemma_mul_abs_bound(self.z as int, o.y as int, VEC_LIMIT as int, VEC_LIMIT as int);
            lemma_mul_abs_bound(self.z as int, o.x as int, VEC_LIMIT as int, VEC_LIMIT as int);
            lemma_mul_abs_bound(self.x as int, o.z as int, VEC_LIMIT as int, VEC_LIMIT as int);
            lemma_mul_abs_bound(self.x as int, o.y as int, VEC_LIMIT as int, VEC_LIMIT as int);
            lemma_mul_abs_bound(self.y as int, o.x as int, VEC_LIMIT as int, VEC_LIMIT as int);
            crate::fixed::lemma_tdiv_bound((self.y as int) * (o.z as int), 65536);
            crate::fixed::lemma_tdiv_bound((self.z as int) * (o.y as int), 65536);
            crate::fixed::lemma_tdiv_bound((self.z as int) * (o.x as int), 65536);
            crate::fixed::lemma_tdiv_bound((self.x as int) * (o.z as int), 65536);
            crate::fixed::lemma_tdiv_bound((self.x as int) * (o.y as int), 65536);
            crate::fixed::lemma_tdiv_bound((self.y as int) * (o.x as int), 65536);
        }
        Vec3Fx {
            x: mul_fp(self.y, o.z) - mul_fp(self.z, o.y),
            y: mul_fp(self.z, o.x) - mul_fp(self.x, o.z),
            z: mul_fp(self.x, o.y) - mul_fp(self.y, o.x),
        }
    }

    /// Fixed-point length.
    pub fn length(self) -> (r: i64)
        requires
            vec_bounded(self, 0x7FFF_FFFF_FFFF),
        ensures
            r == spec_len(self),
            0 <= r <= 0x1_0000_0000_0000,
            vec_bounded(self, 0x7FFF_FFFF) ==> r <= 0x1_0000_0000,
            (r as int) * (r as int) <= (self.x as int) * (self.x as int) + (self.y as int)
                * (self.y as int) + (self.z as int) * (self.z as int) < (r as int + 1) * (r as int
                + 1),
    {
        proof {
            lemma_mul_abs_bound(
                self.x as int,
                self.x as int,
                0x7FFF_FFFF_FFFF,
                0x7FFF_FFFF_FFFF,
            );
            lemma_mul_abs_bound(
                self.y as int,
                self.y as int,
                0x7FFF_FFFF_FFFF,
                0x7FFF_FFFF_FFFF,
            );
            lemma_mul_abs_bound(
                self.z as int,
                self.z as int,
                0x7FFF_FFFF_FFFF,
                0x7FFF_FFFF_FFFF,
            );
            lemma_square_nonneg(self.x as int);
            lemma_square_nonneg(self.y as int);
            lemma_square_nonneg(self.z as int);
        }
        let xx = (self.x as i128) * (self.x as i128);
        let yy = (self.y as i128) * (self.y as i128);
        let zz = (self.z as i128) * (self.z as i128);
        let n = (xx + yy + zz) as u128;
        let r = isqrt(n);
        proof {
            lemma_isqrt_unique(n as int, r as int);
            assert(r as int <= 0x1_0000_0000_0000) by (nonlinear_arith)
                requires
                    (r as int) * (r as int) <= n as int,
                    n as int <= 3 * 0x7FFF_FFFF_FFFFint * 0x7FFF_FFFF_FFFF,
            ;
            if vec_bounded(self, 0x7FFF_FFFF) {
                lemma_mul_abs_bound(self.x as int, self.x as int, 0x7FFF_FFFF, 0x7FFF_FFFF);
                lemma_mul_abs_bound(self.y as int, self.y as int, 0x7FFF_FFFF, 0x7FFF_FFFF);
                lemma_mul_abs_bound(self.z as int, self.z as int, 0x7FFF_FFFF, 0x7FFF_FFFF);
                assert(r as int <= 0x1_0000_0000) by (nonlinear_arith)
                    requires
                        (r as int) * (r as int) <= n as int,
                        n as int <= 3 * 0x7FFF_FFFFint * 0x7FFF_FFFF,
                ;
            }
        }
        r as i64
    }

    /// The vector scaled to unit length; the zero vector stays zero.
    pub fn normalize(self) -> (r: Vec3Fx)
        requires
            vec_bounded(self, 0x7FFF_FFFF_FFFF),
        ensures
            r == spec_normalize(self),
            vec_bounded(r, 65536),
    {
        let l = self.length();
        if l == 0 {
            Vec3Fx { x: 0, y: 0, z: 0 }
        } else {
            proof {
                lemma_component_le_root(self.x as int, self.y as int, self.z as int, l as int);
                lemma_component_le_root(self.y as int, self.x as int, self.z as int, l as int);
                lemma_component_le_root(self.z as int, self.y as int, self.x as int, l as int);
                lemma_unit_ratio(self.x as int, l as int);
                lemma_unit_ratio(self.y as int, l as int);
                lemma_unit_ratio(self.z as int, l as int);
            }
            Vec3Fx { x: div_fp(self.x, l), y: div_fp(self.y, l), z: div_fp(self.z, l) }
        }
    }
}

/// A component whose square is below `(l + 1)^2` has magnitude at most `l`.
pub proof fn lemma_component_le_root(a: int, b: int, c: int, l: int)
    requires
        0 <= l,
        a * a + b * b + c * c < (l + 1) * (l + 1),
    ensures
        abs_int(a) <= l,
{
    assert(abs_int(a) <= l) by (nonlinear_arith)
        requires
            0 <= l,
            a * a + b * b + c * c < (l + 1) * (l + 1),
    ;
}

/// Dividing a component by a length at least as large keeps the ratio in
/// the fixed-point unit interval.
pub proof fn lemma_unit_ratio(a: int, l: int)
    requires
        1 <= l,
        abs_int(a) <= l,
    ensures
        abs_int(crate::fixed::spec_div_fp(a, l)) <= 65536,
{
    if a >= 0 {
        vstd::arithmetic::div_mod::lemma_div_pos_is_pos(a * 65536, l);
        assert(a * 65536 <= l * 65536) by (nonlinear_arith)
            requires
                a <= l,
        ;
        vstd::arithmetic::div_mod::lemma_div_is_ordered(a * 65536, l * 65536, l);
        vstd::arithmetic::div_mod::lemma_div_multiples_vanish(65536, l);
    } else {
        vstd::arithmetic::div_mod::lemma_div_pos_is_pos((-a) * 65536, l);
        assert((-a) * 65536 <= l * 65536) by (nonlinear_arith)
            requires
                -a <= l,
        ;
        vstd::arithmetic::div_mod::lemma_div_is_ordered((-a) * 65536, l * 65536, l);
        vstd::arithmetic::div_mod::lemma_div_multiples_vanish(65536, l);
        assert((-a) * 65536 == -(a * 65536));
    }
}

/// `|a| <= ba` and `|b| <= bb` bound the product by `ba * bb`.
pub proof fn lemma_mul_abs_bound(a: int, b: int, ba: int, bb: int)
    requires
        abs_int(a) <= ba,
        abs_int(b) <= bb,
    ensures
        -(ba * bb) <= a * b <= ba * bb,
{
    assert(-(ba * bb) <= a * b <= ba * bb) by (nonlinear_arith)
        requires
            -ba <= a <= ba,
            -bb <= b <= bb,
    ;
}

/// Squares are nonnegative.
pub proof fn lemma_square_nonneg(a: int)
    ensures
        a * a >= 0,
{
    assert(a * a >= 0) by (nonlinear_arith);
}

} // verus!
