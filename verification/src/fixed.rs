//! 16.16 fixed-point scalars, binary angles, and the integer square root.
//!
//! A fixed-point value stores `round(v * 65536)` for a real number `v`.
//! Angles are measured in binary angle units: 262144 units make one full
//! turn, so a quarter turn is exactly 65536 units and range reduction is
//! exact integer arithmetic.

use vstd::prelude::*;

verus! {

/// 1.0 in 16.16 fixed point.
pub const FP_ONE: i64 = 65536;

/// 0.5 in 16.16 fixed point.
pub const FP_HALF: i64 = 32768;

/// One full turn in binary angle units (4 * 65536).
pub const TURN: i64 = 262144;

/// Half a turn in binary angle units.
pub const HALF_TURN: i64 = 131072;

/// A quarter turn in binary angle units.
pub const QUARTER_TURN: i64 = 65536;

/// Division that rounds toward zero, the semantics of `/` on the signed
/// machine integers.  (The spec-level `/` is Euclidean.)
pub open spec fn tdiv(a: int, b: int) -> int {
    if a >= 0 {
        a / b
    } else {
        -((-a) / b)
    }
}

/// The product of two fixed-point values: `(a * b) / 65536`, rounded
/// toward zero.
pub open spec fn spec_mul_fp(a: int, b: int) -> int {
    tdiv(a * b, 65536)
}

/// The quotient of two fixed-point values: `(a * 65536) / b`, rounded
/// toward zero.
pub open spec fn spec_div_fp(a: int, b: int) -> int {
    tdiv(a * 65536, b)
}

/// Truncating division shrinks the magnitude: `|a / b| <= |a|` for `b > 0`.
pub proof fn lemma_tdiv_bound(a: int, b: int)
    requires
        b >= 1,
    ensures
        -abs_int(a) <= tdiv(a, b) <= abs_int(a),
        a >= 0 ==> 0 <= tdiv(a, b) <= a,
        a < 0 ==> a <= tdiv(a, b) <= 0,
{
    if a >= 0 {
        vstd::arithmetic::div_mod::lemma_div_nonincreasing(a, b);
        vstd::arithmetic::div_mod::lemma_div_pos_is_pos(a, b);
    } else {
        vstd::arithmetic::div_mod::lemma_div_nonincreasing(-a, b);
        vstd::arithmetic::div_mod::lemma_div_pos_is_pos(-a, b);
    }
}

/// The absolute value, at spec level.
pub open spec fn abs_int(a: int) -> int {
    if a >= 0 {
        a
    } else {
        -a
    }
}

/// Fixed-point multiplication.
pub fn mul_fp(a: i64, b: i64) -> (r: i64)
    requires
        i64::MIN <= a * b <= i64::MAX,
    ensures
        r == spec_mul_fp(a as int, b as int),
{
    proof {
        lemma_tdiv_bound(a * b, 65536);
    }
    (a * b) / 65536
}

/// Fixed-point division; `b` must not be zero.
pub fn div_fp(a: i64, b: i64) -> (r: i64)
    requires
        b != 0,
        i64::MIN <= a * 65536 <= i64::MAX,
        i64::MIN < a * 65536,
    ensures
        r == spec_div_fp(a as int, b as int),
{
    proof {
        lemma_tdiv_div_bound(a * 65536, b as int);
    }
    (a * 65536) / b
}

/// Truncating division by any nonzero divisor shrinks the magnitude.
pub proof fn lemma_tdiv_div_bound(a: int, b: int)
    requires
        b != 0,
    ensures
        abs_int(tdiv(a, b)) <= abs_int(a),
{
    if b >= 1 {
        lemma_tdiv_bound(a, b);
    } else {
        if a >= 0 {
            lemma_div_neg_denom(a, b);
        } else {
            lemma_div_neg_denom(-a, b);
        }
    }
}

/// For `a >= 0` and `b <= -1`, the Euclidean quotient lies in `[-a, 0]`.
proof fn lemma_div_neg_denom(a: int, b: int)
    requires
        a >= 0,
        b <= -1,
    ensures
        -a <= a / b <= 0,
{
    vstd::arithmetic::div_mod::lemma_fundamental_div_mod(a, b);
    let q = a / b;
    let r = a % b;
    assert(a == b * q + r);
    assert(0 <= r < -b);
    assert(-a <= q <= 0) by (nonlinear_arith)
        requires
            a == b * q + r,
            0 <= r,
            r < -b,
            b <= -1,
            a >= 0,
    ;
}

/// Floor division by 65536: drops the fractional bits of a fixed-point
/// value, rounding toward negative infinity.  (Spec-level `/` by a positive
/// divisor is exactly floor division.)
pub fn floor_fp(a: i64) -> (r: i64)
    requires
        i64::MIN + 65536 < a,
    ensures
        r == a as int / 65536,
{
    if a >= 0 {
        a / 65536
    } else {
        let neg = -a;
        let q = (neg + 65535) / 65536;
        proof {
            let t = 65536int;
            vstd::arithmetic::div_mod::lemma_fundamental_div_mod(neg + 65535, t);
            let qq = (neg + 65535) / t;
            let rr = (neg + 65535) % t;
            vstd::arithmetic::div_mod::lemma_div_pos_is_pos(neg + 65535, t);
            assert(a == (-qq) * t + (65535 - rr)) by {
                vstd::arithmetic::mul::lemma_mul_unary_negation(qq, t);
            }
            vstd::arithmetic::div_mod::lemma_fundamental_div_mod_converse(
                a as int,
                t,
                -qq,
                65535 - rr,
            );
            lemma_tdiv_bound(neg + 65535, t);
        }
        -q
    }
}

/// Reduces an angle in binary angle units to `[0, TURN)`; this is the
/// Euclidean remainder `a % TURN`.
pub fn mod_turn(a: i64) -> (r: i64)
    ensures
        r == a as int % (TURN as int),
        0 <= r < TURN,
{
    let m = a % 262144;
    proof {
        let t = 262144int;
        if a < 0 {
            let neg = -(a as int);
            vstd::arithmetic::div_mod::lemma_fundamental_div_mod(neg, t);
            let q = neg / t;
            let rr = neg % t;
            vstd::arithmetic::div_mod::lemma_div_pos_is_pos(neg, t);
            if rr == 0 {
                assert(a == (-q) * t + 0) by {
                    vstd::arithmetic::mul::lemma_mul_unary_negation(q, t);
                }
                vstd::arithmetic::div_mod::lemma_fundamental_div_mod_converse(a as int, t, -q, 0);
            } else {
                assert(a == (-q - 1) * t + (t - rr)) by {
                    vstd::arithmetic::mul::lemma_mul_is_distributive_sub_other_way(t, -q, 1);
                    vstd::arithmetic::mul::lemma_mul_unary_negation(q, t);
                }
                vstd::arithmetic::div_mod::lemma_fundamental_div_mod_converse(
                    a as int,
                    t,
                    -q - 1,
                    t - rr,
                );
            }
        }
    }
    if m < 0 {
        m + 262144
    } else {
        m
    }
}

/// The integer square root: the greatest `r` with `r * r <= n`.
pub fn isqrt(n: u128) -> (r: u64)
    ensures
        (r as int) * (r as int) <= n < (r as int + 1) * (r as int + 1),
{
    if n == 0 {
        return 0;
    }
    let mut lo: u128 = 0;
    let mut hi: u128 = 0x1_0000_0000_0000_0000;
    proof {
        assert((0x1_0000_0000_0000_0000 as int) * (0x1_0000_0000_0000_0000 as int) > u128::MAX)
           ;
    }
    while lo + 1 < hi
        invariant
            lo < hi <= 0x1_0000_0000_0000_0000,
            (lo as int) * (lo as int) <= n,
            n < (hi as int) * (hi as int),
        decreases hi - lo,
    {
        let mid = lo + (hi - lo) / 2;
        proof {
            assert((mid as int) * (mid as int) < u128::MAX) by (nonlinear_arith)
                requires
                    mid < 0x1_0000_0000_0000_0000u128,
            ;
        }
        if mid * mid <= n {
            lo = mid;
        } else {
            hi = mid;
        }
    }
    lo as u64
}

/// The square root of a nonnegative fixed-point value, in fixed point:
/// `isqrt` of `x` rescaled so that `sqrt_fp(FP_ONE) == FP_ONE` exactly.
pub fn sqrt_fp(x: i64) -> (r: i64)
    requires
        0 <= x,
    ensures
        (r as int) * (r as int) <= (x as int) * 65536 < (r as int + 1) * (r as int + 1),
        0 <= r,
        x <= 65536 ==> r <= 65536,
{
    let wide: u128 = (x as u128) * 65536;
    let root = isqrt(wide);
    proof {
        assert(root as int <= 0x200_0000_0000) by (nonlinear_arith)
            requires
                (root as int) * (root as int) <= wide as int,
                wide as int <= 0x8000_0000_0000_0000_0000int,
        ;
        if x <= 65536 {
            assert(root as int <= 65536) by (nonlinear_arith)
                requires
                    (root as int) * (root as int) <= 65536int * 65536,
            ;
        }
    }
    root as i64
}

/// Clamps a fixed-point value to the unit interval `[0, FP_ONE]`.
pub open spec fn spec_clamp01(x: int) -> int {
    if x < 0 {
        0
    } else if x > 65536 {
        65536
    } else {
        x
    }
}

/// Clamps a fixed-point value to `[0.0, 1.0]`.
pub fn clamp01(x: i64) -> (r: i64)
    ensures
        r == spec_clamp01(x as int),
{
    if x < 0 {
        0
    } else if x > 65536 {
        65536
    } else {
        x
    }
}

/// Linear interpolation between fixed-point `a` and `b` by fixed-point `t`:
/// `a + (b - a) * t`.
pub open spec fn spec_lerp(a: int, b: int, t: int) -> int {
    a + spec_mul_fp(b - a, t)
}

/// Linear interpolation between two fixed-point values.
pub fn lerp(a: i64, b: i64, t: i64) -> (r: i64)
    requires
        i64::MIN <= (b - a) * t <= i64::MAX,
        i64::MIN <= b - a <= i64::MAX,
        i64::MIN <= a + spec_mul_fp(b - a, t as int) <= i64::MAX,
    ensures
        r == spec_lerp(a as int, b as int, t as int),
{
    let d = mul_fp(b - a, t);
    a + d
}

/// The sine of an angle in `[0, HALF_TURN]`, in fixed point: the quarter
/// wave is the parabola `4 x (1 - x)` sharpened by one quadratic
/// correction term, exact at 0, at the quarter turn (where it is FP_ONE)
/// and at the half turn.
pub open spec fn spec_sin_half(x: int) -> int {
    let xh = x / 2;
    let y1 = (4 * xh * (65536 - xh)) / 65536;
    (50790 * y1 + 14746 * ((y1 * y1) / 65536)) / 65536
}

/// The sine of an angle in binary angle units, in fixed point.
pub open spec fn spec_sin(a: int) -> int {
    let m = a % 262144;
    if m < 131072 {
        spec_sin_half(m)
    } else {
        -spec_sin_half(m - 131072)
    }
}

/// The cosine of an angle in binary angle units, in fixed point: the sine
/// shifted by a quarter turn.
pub open spec fn spec_cos(a: int) -> int {
    spec_sin(a + 65536)
}

/// For `x` in `[0, HALF_TURN]` the half-wave sine stays in `[0, FP_ONE]`.
pub proof fn lemma_sin_half_range(x: int)
    requires
        0 <= x <= 131072,
    ensures
        0 <= spec_sin_half(x) <= 65536,
{
    let xh = x / 2;
    assert(0 <= xh <= 65536);
    let p = 4 * xh * (65536 - xh);
    assert(0 <= p <= 65536 * 65536) by (nonlinear_arith)
        requires
            0 <= xh <= 65536,
            p == 4 * xh * (65536 - xh),
    ;
    let y1 = p / 65536;
    vstd::arithmetic::div_mod::lemma_div_pos_is_pos(p, 65536);
    assert(y1 <= 65536) by {
        vstd::arithmetic::div_mod::lemma_div_is_ordered(p, 65536int * 65536, 65536);
        assert(65536 * 65536 / 65536 == 65536);
    }
    let yq = (y1 * y1) / 65536;
    assert(0 <= y1 * y1 <= 65536 * 65536) by (nonlinear_arith)
        requires
            0 <= y1 <= 65536,
    ;
    vstd::arithmetic::div_mod::lemma_div_pos_is_pos(y1 * y1, 65536);
    assert(yq <= 65536) by {
        vstd::arithmetic::div_mod::lemma_div_is_ordered(y1 * y1, 65536int * 65536, 65536);
        assert(65536 * 65536 / 65536 == 65536);
    }
    let s = 50790 * y1 + 14746 * yq;
    assert(50790 * y1 <= 50790 * 65536) by (nonlinear_arith)
        requires
            y1 <= 65536,
    ;
    assert(14746 * yq <= 14746 * 65536) by (nonlinear_arith)
        requires
            yq <= 65536,
    ;
    assert(50790 * y1 >= 0 && 14746 * yq >= 0) by (nonlinear_arith)
        requires
            y1 >= 0,
            yq >= 0,
    ;
    vstd::arithmetic::div_mod::lemma_div_pos_is_pos(s, 65536);
    assert(spec_sin_half(x) <= 65536) by {
        vstd::arithmetic::div_mod::lemma_div_is_ordered(s, 65536int * 65536, 65536);
        assert(65536 * 65536 / 65536 == 65536);
    }
}

/// The sine in binary angle units stays in `[-FP_ONE, FP_ONE]`.
pub proof fn lemma_sin_range(a: int)
    ensures
        -65536 <= spec_sin(a) <= 65536,
{
    let m = a % 262144;
    vstd::arithmetic::div_mod::lemma_mod_division_less_than_divisor(a, 262144);
    if m < 131072 {
        lemma_sin_half_range(m);
    } else {
        lemma_sin_half_range(m - 131072);
    }
}

/// The sine of an angle in binary angle units.
pub fn sin_bau(a: i64) -> (r: i64)
    ensures
        r == spec_sin(a as int),
        -65536 <= r <= 65536,
{
    let m = mod_turn(a);
    let (half, neg) = if m < 131072 {
        (m, false)
    } else {
        (m - 131072, true)
    };
    let xh = half / 2;
    proof {
        vstd::arithmetic::div_mod::lemma_div_pos_is_pos(half as int, 2);
        vstd::arithmetic::div_mod::lemma_div_is_ordered(half as int, 131072, 2);
    }
    proof {
        assert(0 <= 4 * (xh as int) * (65536 - xh as int) <= 65536 * 65536) by (nonlinear_arith)
            requires
                0 <= xh as int <= 65536,
        ;
    }
    let p = 4 * xh * (65536 - xh);
    proof {
        vstd::arithmetic::div_mod::lemma_div_pos_is_pos(p as int, 65536);
        vstd::arithmetic::div_mod::lemma_div_is_ordered(p as int, 65536int * 65536, 65536);
        assert(65536 * 65536 / 65536 == 65536);
    }
    let y1 = p / 65536;
    proof {
        assert(0 <= (y1 as int) * (y1 as int) <= 65536 * 65536) by (nonlinear_arith)
            requires
                0 <= y1 as int <= 65536,
        ;
        vstd::arithmetic::div_mod::lemma_div_pos_is_pos((y1 as int) * (y1 as int), 65536);
        vstd::arithmetic::div_mod::lemma_div_is_ordered(
            (y1 as int) * (y1 as int),
            65536int * 65536,
            65536,
        );
        assert(65536 * 65536 / 65536 == 65536);
    }
    let yq = (y1 * y1) / 65536;
    proof {
        assert(0 <= 50790 * (y1 as int) + 14746 * (yq as int) <= 65536 * 65536)
            by (nonlinear_arith)
            requires
                0 <= y1 as int <= 65536,
                0 <= yq as int <= 65536,
        ;
        vstd::arithmetic::div_mod::lemma_div_pos_is_pos(
            50790 * (y1 as int) + 14746 * (yq as int),
            65536,
        );
        vstd::arithmetic::div_mod::lemma_div_is_ordered(
            50790 * (y1 as int) + 14746 * (yq as int),
            65536int * 65536,
            65536,
        );
        assert(65536 * 65536 / 65536 == 65536);
    }
    let s = (50790 * y1 + 14746 * yq) / 65536;
    if neg {
        -s
    } else {
        s
    }
}

/// The cosine of an angle in binary angle units.
pub fn cos_bau(a: i64) -> (r: i64)
    ensures
        r == spec_cos(a as int),
        -65536 <= r <= 65536,
{
    let m = mod_turn(a);
    proof {
        vstd::arithmetic::div_mod::lemma_mod_twice(a as int + 65536, 262144);
        vstd::arithmetic::div_mod::lemma_add_mod_noop(a as int, 65536, 262144);
        vstd::arithmetic::div_mod::lemma_small_mod(65536nat, 262144nat);
        lemma_sin_range(a as int + 65536);
    }
    sin_bau(m + 65536)
}

/// `|spec_mul_fp(a, b)|` is bounded by the scaled product of the operand
/// bounds.
pub proof fn lemma_mul_fp_le(a: int, b: int, ba: int, bb: int)
    requires
        abs_int(a) <= ba,
        abs_int(b) <= bb,
    ensures
        abs_int(spec_mul_fp(a, b)) <= ba * bb / 65536,
        -(ba * bb) <= a * b <= ba * bb,
{
    crate::vec3::lemma_mul_abs_bound(a, b, ba, bb);
    let p = a * b;
    if p >= 0 {
        vstd::arithmetic::div_mod::lemma_div_pos_is_pos(p, 65536);
        vstd::arithmetic::div_mod::lemma_div_is_ordered(p, ba * bb, 65536);
        vstd::arithmetic::div_mod::lemma_div_pos_is_pos(ba * bb, 65536);
    } else {
        vstd::arithmetic::div_mod::lemma_div_pos_is_pos(-p, 65536);
        vstd::arithmetic::div_mod::lemma_div_is_ordered(-p, ba * bb, 65536);
        vstd::arithmetic::div_mod::lemma_div_pos_is_pos(ba * bb, 65536);
    }
}

/// Fixed-point product carrying explicit magnitude bounds for its
/// operands, so that chained products discharge their overflow and range
/// obligations at the call site.
pub fn mul_g(a: i64, b: i64, Ghost(ba): Ghost<int>, Ghost(bb): Ghost<int>) -> (r: i64)
    requires
        abs_int(a as int) <= ba,
        abs_int(b as int) <= bb,
        ba * bb <= 0x4000_0000_0000_0000,
    ensures
        r == spec_mul_fp(a as int, b as int),
        abs_int(r as int) <= ba * bb / 65536,
{
    proof {
        lemma_mul_fp_le(a as int, b as int, ba, bb);
    }
    mul_fp(a, b)
}



/// `a` is the quantized arcsine of `v`: the sine at `a` does not exceed
/// `v`, and one step further it does (or `a` is the quarter turn).
pub open spec fn asin_bracket(a: int, v: int) -> bool {
    spec_sin(a) <= v && (a == 65536 || v < spec_sin(a + 1))
}

/// On `[-QUARTER_TURN, 0)` the sine is nonpositive.
pub proof fn lemma_sin_neg_quarter(a: int)
    requires
        -65536 <= a < 0,
    ensures
        spec_sin(a) <= 0,
{
    let t = 262144int;
    vstd::arithmetic::div_mod::lemma_fundamental_div_mod_converse(a, t, -1, a + t);
    assert(a % t == a + t);
    lemma_sin_half_range(a + t - 131072);
}

/// The quantized arcsine on `[-FP_ONE, FP_ONE]`, found by bisection over
/// the crate's sine: the greatest angle in `[-QUARTER_TURN, QUARTER_TURN]`
/// whose sine does not exceed `v`.
pub fn asin_fp(v: i64) -> (r: i64)
    requires
        -65536 <= v <= 65536,
    ensures
        -65536 <= r <= 65536,
        asin_bracket(r as int, v as int),
        v >= 0 ==> r >= 0,
{
    let mut lo: i64 = -65536;
    let mut hi: i64 = 65537;
    proof {
        let t = 262144int;
        vstd::arithmetic::div_mod::lemma_fundamental_div_mod_converse(-65536, t, -1, 196608);
        assert((-65536) % t == 196608);
        assert(spec_sin(-65536) == -spec_sin_half(65536));
        assert(spec_sin_half(65536) == 65536) by {
            assert(65536int / 2 == 32768);
            assert(4 * 32768 * (65536 - 32768) == 65536int * 65536) by (nonlinear_arith);
            assert(65536int * 65536 / 65536 == 65536) by {
                vstd::arithmetic::div_mod::lemma_div_multiples_vanish(65536, 65536);
            }
            assert((50790 * 65536 + 14746 * ((65536int * 65536) / 65536)) / 65536 == 65536) by {
                vstd::arithmetic::div_mod::lemma_div_multiples_vanish(65536, 65536);
                assert(50790 * 65536 + 14746 * 65536 == 65536int * 65536) by (nonlinear_arith);
            }
        }
    }
    while lo + 1 < hi
        invariant
            -65536 <= lo < hi <= 65537,
            spec_sin(lo as int) <= v,
            hi == 65537 || v < spec_sin(hi as int),
        decreases hi - lo,
    {
        let mid = lo + (hi - lo) / 2;
        let s = sin_bau(mid);
        if s <= v {
            lo = mid;
        } else {
            hi = mid;
        }
    }
    proof {
        if v >= 0 && lo < 0 {
            if lo as int + 1 < 0 {
                lemma_sin_neg_quarter(lo as int + 1);
            }
            assert(spec_sin(0int) == 0) by {
                vstd::arithmetic::div_mod::lemma_small_mod(0nat, 262144nat);
                assert(spec_sin_half(0) == 0) by {
                    vstd::arithmetic::div_mod::lemma_div_of0(2);
                    vstd::arithmetic::div_mod::lemma_div_of0(65536);
                    assert(4 * (0int / 2) * (65536 - 0int / 2) == 0) by (nonlinear_arith);
                }
            }
            assert(false);
        }
    }
    lo
}

} // verus!
