//! Screen-space triangle rasterization: the edge function, the clamped
//! bounding box, barycentric interpolation of depth and world position,
//! and the depth-tested shaded fill.
//!
//! Screen coordinates are 16.16 fixed point; pixel `(x, y)` is tested at
//! its center `(x + 0.5, y + 0.5)`.  Interior membership is the edge
//! functions of the three sides agreeing in sign, which supports either
//! winding order.  Depth and world position are interpolated linearly in
//! screen space (not perspective-correct, an accepted limitation of this
//! pipeline).

use vstd::prelude::*;
use crate::fixed::{abs_int, clamp01, floor_fp, spec_clamp01, tdiv};
use crate::framebuffer::{rgba_at, write_rgba, Rgba, SoftwareRenderer};
use crate::shade::{shade_planet, spec_shade, PlanetShaderKind};
use crate::vec3::{spec_dot, vec_bounded, Vec3Fx};

verus! {

/// A projected vertex: screen position in 16.16 fixed point and a
/// normalized depth in `[0, FP_ONE]`.
#[derive(Clone, Copy, Debug, PartialEq, Eq, Structural)]
pub struct ScreenV {
    pub x: i64,
    pub y: i64,
    pub z: i64,
}

/// Magnitude bound on screen coordinates under which the edge function
/// cannot overflow (12288 pixels in 16.16 fixed point).
pub const SCREEN_LIMIT: i64 = 0x3000_0000;

/// The signed-area edge function: positive when `(cx, cy)` lies on one
/// side of the directed segment `a -> b`, negative on the other.
pub open spec fn spec_edge(
    ax: int,
    ay: int,
    bx: int,
    by: int,
    cx: int,
    cy: int,
) -> int {
    (cx - ax) * (by - ay) - (cy - ay) * (bx - ax)
}

/// The edge function on fixed-point screen coordinates.
pub fn edge_function(ax: i64, ay: i64, bx: i64, by: i64, cx: i64, cy: i64) -> (r: i64)
    requires
        abs_int(ax as int) <= SCREEN_LIMIT as int,
        abs_int(ay as int) <= SCREEN_LIMIT as int,
        abs_int(bx as int) <= SCREEN_LIMIT as int,
        abs_int(by as int) <= SCREEN_LIMIT as int,
        abs_int(cx as int) <= SCREEN_LIMIT as int,
        abs_int(cy as int) <= SCREEN_LIMIT as int,
    ensures
        r == spec_edge(ax as int, ay as int, bx as int, by as int, cx as int, cy as int),
        abs_int(r as int) <= 0x4800_0000_0000_0000,
{
    proof {
        crate::vec3::lemma_mul_abs_bound(cx - ax, by - ay, 0x6000_0000, 0x6000_0000);
        crate::vec3::lemma_mul_abs_bound(cy - ay, bx - ax, 0x6000_0000, 0x6000_0000);
        assert(0x6000_0000int * 0x6000_0000 == 0x2400_0000_0000_0000) by (nonlinear_arith);
    }
    (cx - ax) * (by - ay) - (cy - ay) * (bx - ax)
}

/// The fixed-point coordinates of the center of pixel `(x, y)`.
pub open spec fn spec_center(x: int) -> int {
    65536 * x + 32768
}

/// The signed area of the triangle (twice it, in fixed-point units).
pub open spec fn spec_area(s0: ScreenV, s1: ScreenV, s2: ScreenV) -> int {
    spec_edge(s0.x as int, s0.y as int, s1.x as int, s1.y as int, s2.x as int, s2.y as int)
}

/// The edge function of side `a -> b` evaluated at the center of pixel
/// `(x, y)`.
pub open spec fn spec_edge_at(a: ScreenV, b: ScreenV, x: int, y: int) -> int {
    spec_edge(a.x as int, a.y as int, b.x as int, b.y as int, spec_center(x), spec_center(y))
}

/// The three edge functions at a pixel sum to the triangle's area.
#[verifier::rlimit(100)]
pub proof fn lemma_edge_sum(s0: ScreenV, s1: ScreenV, s2: ScreenV, x: int, y: int)
    ensures
        spec_edge_at(s1, s2, x, y) + spec_edge_at(s2, s0, x, y) + spec_edge_at(s0, s1, x, y)
            == spec_area(s0, s1, s2),
{
    let cx = spec_center(x);
    let cy = spec_center(y);
    let x0 = s0.x as int;
    let y0 = s0.y as int;
    let x1 = s1.x as int;
    let y1 = s1.y as int;
    let x2 = s2.x as int;
    let y2 = s2.y as int;
    lemma_mul_expand(cx, x1, y2, y1);
    lemma_mul_expand(cy, y1, x2, x1);
    lemma_mul_expand(cx, x2, y0, y2);
    lemma_mul_expand(cy, y2, x0, x2);
    lemma_mul_expand(cx, x0, y1, y0);
    lemma_mul_expand(cy, y0, x1, x0);
    lemma_mul_expand(x2, x0, y1, y0);
    lemma_mul_expand(y2, y0, x1, x0);
}

/// Distribution of a product of two differences into monomials.
proof fn lemma_mul_expand(a: int, b: int, c: int, d: int)
    ensures
        (a - b) * (c - d) == a * c - a * d - b * c + b * d,
{
    assert((a - b) * (c - d) == a * c - a * d - b * c + b * d) by (nonlinear_arith);
}

/// Truncating barycentric combination `(wa * a + wb * b + wc * c) / area`,
/// with the signs aligned so the division is by the positive area.
pub open spec fn spec_interp3(
    wa: int,
    wb: int,
    wc: int,
    a: int,
    b: int,
    c: int,
    area: int,
) -> int {
    let num = wa * a + wb * b + wc * c;
    if area >= 0 {
        tdiv(num, area)
    } else {
        tdiv(-num, -area)
    }
}

/// Computes the barycentric combination in wide arithmetic.  The weights
/// must agree in sign with the (nonzero) area and sum to it, which bounds
/// the result by the largest interpolated magnitude.
fn interp3(
    wa: i64,
    wb: i64,
    wc: i64,
    a: i64,
    b: i64,
    c: i64,
    area: i64,
    Ghost(bnd): Ghost<int>,
) -> (r: i64)
    requires
        area != 0,
        wa + wb + wc == area,
        area > 0 ==> wa >= 0 && wb >= 0 && wc >= 0,
        area < 0 ==> wa <= 0 && wb <= 0 && wc <= 0,
        abs_int(a as int) <= bnd,
        abs_int(b as int) <= bnd,
        abs_int(c as int) <= bnd,
        0 <= bnd <= 0x7FFF_FFFF_FFFF,
    ensures
        r == spec_interp3(wa as int, wb as int, wc as int, a as int, b as int, c as int,
            area as int),
        abs_int(r as int) <= bnd,
{
    proof {
        crate::vec3::lemma_mul_abs_bound(
            wa as int,
            a as int,
            0x8000_0000_0000_0000,
            0x7FFF_FFFF_FFFF,
        );
        crate::vec3::lemma_mul_abs_bound(
            wb as int,
            b as int,
            0x8000_0000_0000_0000,
            0x7FFF_FFFF_FFFF,
        );
        crate::vec3::lemma_mul_abs_bound(
            wc as int,
            c as int,
            0x8000_0000_0000_0000,
            0x7FFF_FFFF_FFFF,
        );
        lemma_interp3_bound(wa as int, wb as int, wc as int, a as int, b as int, c as int,
            area as int, bnd);
    }
    let num: i128 = (wa as i128) * (a as i128) + (wb as i128) * (b as i128) + (wc as i128) * (
    c as i128);
    let q: i128 = if area > 0 {
        num / (area as i128)
    } else {
        (-num) / (-(area as i128))
    };
    q as i64
}

/// Sign-agreeing weights that sum to the area keep the combination within
/// the componentwise bound.
proof fn lemma_interp3_bound(wa: int, wb: int, wc: int, a: int, b: int, c: int, area: int, bnd: int)
    requires
        area != 0,
        wa + wb + wc == area,
        area > 0 ==> wa >= 0 && wb >= 0 && wc >= 0,
        area < 0 ==> wa <= 0 && wb <= 0 && wc <= 0,
        abs_int(a) <= bnd,
        abs_int(b) <= bnd,
        abs_int(c) <= bnd,
        0 <= bnd,
    ensures
        abs_int(wa * a + wb * b + wc * c) <= abs_int(area) * bnd,
        abs_int(spec_interp3(wa, wb, wc, a, b, c, area)) <= bnd,
{
    let num = wa * a + wb * b + wc * c;
    if area > 0 {
        assert(abs_int(num) <= area * bnd) by (nonlinear_arith)
            requires
                wa >= 0,
                wb >= 0,
                wc >= 0,
                wa + wb + wc == area,
                -bnd <= a <= bnd,
                -bnd <= b <= bnd,
                -bnd <= c <= bnd,
                num == wa * a + wb * b + wc * c,
                0 <= bnd,
        ;
        lemma_tdiv_mag(num, area, bnd);
    } else {
        let nega = -area;
        assert(abs_int(num) <= nega * bnd) by (nonlinear_arith)
            requires
                wa <= 0,
                wb <= 0,
                wc <= 0,
                wa + wb + wc == area,
                nega == -area,
                -bnd <= a <= bnd,
                -bnd <= b <= bnd,
                -bnd <= c <= bnd,
                num == wa * a + wb * b + wc * c,
                0 <= bnd,
        ;
        lemma_tdiv_mag(-num, nega, bnd);
    }
}

/// The smaller of two values.
pub open spec fn spec_min2(a: int, b: int) -> int {
    if a <= b {
        a
    } else {
        b
    }
}

/// The larger of two values.
pub open spec fn spec_max2(a: int, b: int) -> int {
    if a >= b {
        a
    } else {
        b
    }
}

/// The smallest of three values.
pub open spec fn spec_min3(a: int, b: int, c: int) -> int {
    spec_min2(spec_min2(a, b), c)
}

/// The largest of three values.
pub open spec fn spec_max3(a: int, b: int, c: int) -> int {
    spec_max2(spec_max2(a, b), c)
}

/// The screen vertices, world vertices, flat face normal and material of
/// one triangle handed to the rasterizer.
#[derive(Clone, Copy, Debug)]
pub struct TriParams {
    pub s0: ScreenV,
    pub s1: ScreenV,
    pub s2: ScreenV,
    pub w0: Vec3Fx,
    pub w1: Vec3Fx,
    pub w2: Vec3Fx,
    pub normal: Vec3Fx,
    pub base: Rgba,
    pub kind: PlanetShaderKind,
    pub light: Vec3Fx,
}

/// The input ranges the rasterizer accepts: screen coordinates within the
/// overflow-safe window, depths in the unit interval, world vertices
/// within the vector range, normal and light direction unit-scaled.
pub open spec fn tri_wf(t: TriParams) -> bool {
    &&& abs_int(t.s0.x as int) <= SCREEN_LIMIT as int && abs_int(t.s0.y as int)
        <= SCREEN_LIMIT as int
    &&& abs_int(t.s1.x as int) <= SCREEN_LIMIT as int && abs_int(t.s1.y as int)
        <= SCREEN_LIMIT as int
    &&& abs_int(t.s2.x as int) <= SCREEN_LIMIT as int && abs_int(t.s2.y as int)
        <= SCREEN_LIMIT as int
    &&& 0 <= t.s0.z <= 65536 && 0 <= t.s1.z <= 65536 && 0 <= t.s2.z <= 65536
    &&& vec_bounded(t.w0, 0x7FFF_FFFF) && vec_bounded(t.w1, 0x7FFF_FFFF) && vec_bounded(
        t.w2,
        0x7FFF_FFFF,
    )
    &&& vec_bounded(t.normal, 65536) && vec_bounded(t.light, 65536)
}

/// A vector negated component-wise.
pub open spec fn spec_vneg(v: Vec3Fx) -> Vec3Fx {
    Vec3Fx { x: (-(v.x as int)) as i64, y: (-(v.y as int)) as i64, z: (-(v.z as int)) as i64 }
}

/// The Lambert term of the triangle: the dot product of the face normal
/// with the direction toward the light, clamped to the unit interval.
pub open spec fn spec_lambert(normal: Vec3Fx, light: Vec3Fx) -> int {
    spec_clamp01(spec_dot(normal, spec_vneg(light)))
}

/// The first bounding-box column: the floor of the leftmost vertex,
/// clamped below at zero.
pub open spec fn bb_min_x(t: TriParams) -> int {
    let f = spec_min3(t.s0.x as int, t.s1.x as int, t.s2.x as int) / 65536;
    if f < 0 {
        0
    } else {
        f
    }
}

/// The last bounding-box column: the ceiling of the rightmost vertex,
/// clamped above at the last frame column.
pub open spec fn bb_max_x(t: TriParams, w: int) -> int {
    let c = (spec_max3(t.s0.x as int, t.s1.x as int, t.s2.x as int) + 65535) / 65536;
    if c > w - 1 {
        w - 1
    } else {
        c
    }
}

/// The first bounding-box row.
pub open spec fn bb_min_y(t: TriParams) -> int {
    let f = spec_min3(t.s0.y as int, t.s1.y as int, t.s2.y as int) / 65536;
    if f < 0 {
        0
    } else {
        f
    }
}

/// The last bounding-box row.
pub open spec fn bb_max_y(t: TriParams, h: int) -> int {
    let c = (spec_max3(t.s0.y as int, t.s1.y as int, t.s2.y as int) + 65535) / 65536;
    if c > h - 1 {
        h - 1
    } else {
        c
    }
}

/// Whether the rasterizer paints pixel `(x, y)`: the pixel lies in the
/// clamped bounding box and the three edge functions at its center agree
/// in sign (either winding order).
pub open spec fn covers(t: TriParams, w: int, h: int, x: int, y: int) -> bool {
    let wa = spec_edge_at(t.s1, t.s2, x, y);
    let wb = spec_edge_at(t.s2, t.s0, x, y);
    let wc = spec_edge_at(t.s0, t.s1, x, y);
    &&& bb_min_x(t) <= x <= bb_max_x(t, w)
    &&& bb_min_y(t) <= y <= bb_max_y(t, h)
    &&& ((wa >= 0 && wb >= 0 && wc >= 0) || (wa <= 0 && wb <= 0 && wc <= 0))
}

/// The interpolated depth at the center of pixel `(x, y)`.
pub open spec fn depth_at(t: TriParams, x: int, y: int) -> int {
    spec_interp3(
        spec_edge_at(t.s1, t.s2, x, y),
        spec_edge_at(t.s2, t.s0, x, y),
        spec_edge_at(t.s0, t.s1, x, y),
        t.s0.z as int,
        t.s1.z as int,
        t.s2.z as int,
        spec_area(t.s0, t.s1, t.s2),
    )
}

/// The interpolated world position at the center of pixel `(x, y)`.
pub open spec fn world_at(t: TriParams, x: int, y: int) -> Vec3Fx {
    let wa = spec_edge_at(t.s1, t.s2, x, y);
    let wb = spec_edge_at(t.s2, t.s0, x, y);
    let wc = spec_edge_at(t.s0, t.s1, x, y);
    let area = spec_area(t.s0, t.s1, t.s2);
    Vec3Fx {
        x: spec_interp3(wa, wb, wc, t.w0.x as int, t.w1.x as int, t.w2.x as int, area) as i64,
        y: spec_interp3(wa, wb, wc, t.w0.y as int, t.w1.y as int, t.w2.y as int, area) as i64,
        z: spec_interp3(wa, wb, wc, t.w0.z as int, t.w1.z as int, t.w2.z as int, area) as i64,
    }
}

/// The shaded color at the center of pixel `(x, y)`.
pub open spec fn color_at(t: TriParams, x: int, y: int) -> Rgba {
    spec_shade(t.kind, t.base, world_at(t, x, y), spec_lambert(t.normal, t.light))
}

/// What one rasterized triangle leaves at pixel `(x, y)`: its depth and
/// shaded color when it covers the pixel and wins the depth test against
/// the prior buffer, the prior contents otherwise.
pub open spec fn pix_done(
    pre: SoftwareRenderer,
    cur: SoftwareRenderer,
    t: TriParams,
    px: int,
    py: int,
) -> bool {
    let i = pre.idx(px, py);
    if covers(t, pre.width as int, pre.height as int, px, py) && depth_at(t, px, py)
        < pre.depth@[i] {
        cur.depth@[i] == depth_at(t, px, py) && rgba_at(cur.color@, i) == color_at(t, px, py)
    } else {
        cur.depth@[i] == pre.depth@[i] && rgba_at(cur.color@, i) == rgba_at(pre.color@, i)
    }
}

/// Pixel `(px, py)` holds the same depth and color in `cur` as in `pre`.
pub open spec fn pix_same(pre: SoftwareRenderer, cur: SoftwareRenderer, px: int, py: int) -> bool {
    let i = pre.idx(px, py);
    cur.depth@[i] == pre.depth@[i] && rgba_at(cur.color@, i) == rgba_at(pre.color@, i)
}

/// The smaller of two fixed-point values.
fn min2(a: i64, b: i64) -> (r: i64)
    ensures
        r == spec_min2(a as int, b as int),
{
    if a <= b {
        a
    } else {
        b
    }
}

/// The larger of two fixed-point values.
fn max2(a: i64, b: i64) -> (r: i64)
    ensures
        r == spec_max2(a as int, b as int),
{
    if a >= b {
        a
    } else {
        b
    }
}

/// Two distinct on-grid pixels have distinct linear indices.
pub proof fn lemma_idx_injective(w: int, x1: int, y1: int, x2: int, y2: int)
    requires
        0 <= x1 < w,
        0 <= x2 < w,
        !(x1 == x2 && y1 == y2),
    ensures
        y1 * w + x1 != y2 * w + x2,
{
    assert(y1 * w + x1 != y2 * w + x2) by (nonlinear_arith)
        requires
            0 <= x1 < w,
            0 <= x2 < w,
            !(x1 == x2 && y1 == y2),
    ;
}

impl SoftwareRenderer {
    /// Rasterizes one shaded triangle: every covered pixel whose
    /// interpolated depth wins the depth test receives that depth and the
    /// material color at its interpolated world position; every other
    /// pixel keeps its prior contents.  A triangle of zero signed area is
    /// skipped whole.
    pub fn raster_triangle_shaded(&mut self, t: TriParams)
        requires
            old(self).wf(),
            tri_wf(t),
        ensures
            final(self).wf(),
            final(self).width == old(self).width,
            final(self).height == old(self).height,
            spec_area(t.s0, t.s1, t.s2) == 0 ==> *final(self) == *old(self),
            spec_area(t.s0, t.s1, t.s2) != 0 ==> forall|px: int, py: int|
                old(self).in_frame(px, py) ==> #[trigger] pix_done(
                    *old(self),
                    *final(self),
                    t,
                    px,
                    py,
                ),
    {
        let ghost pre = *self;
        let area = edge_function(t.s0.x, t.s0.y, t.s1.x, t.s1.y, t.s2.x, t.s2.y);
        if area == 0 {
            return ;
        }
        let nl = t.light.neg();
        let lam = clamp01(t.normal.dot(nl));
        let mnx = min2(min2(t.s0.x, t.s1.x), t.s2.x);
        let mxx = max2(max2(t.s0.x, t.s1.x), t.s2.x);
        let mny = min2(min2(t.s0.y, t.s1.y), t.s2.y);
        let mxy = max2(max2(t.s0.y, t.s1.y), t.s2.y);
        let fx = floor_fp(mnx);
        let min_x: i64 = if fx < 0 {
            0
        } else {
            fx
        };
        let cx0 = floor_fp(mxx + 65535);
        let wl: i64 = self.width as i64 - 1;
        let max_x: i64 = if cx0 > wl {
            wl
        } else {
            cx0
        };
        let fy = floor_fp(mny);
        let min_y: i64 = if fy < 0 {
            0
        } else {
            fy
        };
        let cy0 = floor_fp(mxy + 65535);
        let hl: i64 = self.height as i64 - 1;
        let max_y: i64 = if cy0 > hl {
            hl
        } else {
            cy0
        };
        let mut y: i64 = min_y;
        while y <= max_y
            invariant
                self.wf(),
                self.width == pre.width,
                self.height == pre.height,
                pre.wf(),
                tri_wf(t),
                area == spec_area(t.s0, t.s1, t.s2),
                area != 0,
                lam == spec_lambert(t.normal, t.light),
                0 <= lam <= 65536,
                min_x == bb_min_x(t),
                max_x == bb_max_x(t, pre.width as int),
                min_y == bb_min_y(t),
                max_y == bb_max_y(t, pre.height as int),
                0 <= min_x,
                max_x <= pre.width - 1,
                0 <= min_y,
                max_y <= pre.height - 1,
                min_y <= y,
                forall|px: int, py: int|
                    pre.in_frame(px, py) && py < y ==> #[trigger] pix_done(pre, *self, t, px, py),
                forall|px: int, py: int|
                    pre.in_frame(px, py) && py >= y ==> #[trigger] pix_same(pre, *self, px, py),
            decreases max_y + 1 - y,
        {
            let cyv: i64 = y * 65536 + 32768;
            proof {
                assert forall|px: int, py: int|
                    pre.in_frame(px, py) && (py < y as int || (py == y as int && px
                        < min_x as int)) implies #[trigger] pix_done(pre, *self, t, px, py) by {
                    if py == y as int && px < min_x {
                        assert(pix_same(pre, *self, px, py));
                        assert(!covers(t, pre.width as int, pre.height as int, px, py));
                    } else {
                        assert(pix_done(pre, *self, t, px, py));
                    }
                }
            }
            let mut x: i64 = min_x;
            while x <= max_x
                invariant
                    self.wf(),
                    self.width == pre.width,
                    self.height == pre.height,
                    pre.wf(),
                    tri_wf(t),
                    area == spec_area(t.s0, t.s1, t.s2),
                    area != 0,
                    lam == spec_lambert(t.normal, t.light),
                    0 <= lam <= 65536,
                    min_x == bb_min_x(t),
                    max_x == bb_max_x(t, pre.width as int),
                    min_y == bb_min_y(t),
                    max_y == bb_max_y(t, pre.height as int),
                    0 <= min_x,
                    max_x <= pre.width - 1,
                    0 <= min_y,
                    max_y <= pre.height - 1,
                    min_y <= y <= max_y,
                    cyv == spec_center(y as int),
                    min_x <= x,
                    forall|px: int, py: int|
                        pre.in_frame(px, py) && (py < y || (py == y && px < x))
                            ==> #[trigger] pix_done(pre, *self, t, px, py),
                    forall|px: int, py: int|
                        pre.in_frame(px, py) && !(py < y || (py == y && px < x))
                            ==> #[trigger] pix_same(pre, *self, px, py),
                decreases max_x + 1 - x,
            {
                let cxv: i64 = x * 65536 + 32768;
                let wa = edge_function(t.s1.x, t.s1.y, t.s2.x, t.s2.y, cxv, cyv);
                let wb = edge_function(t.s2.x, t.s2.y, t.s0.x, t.s0.y, cxv, cyv);
                let wc = edge_function(t.s0.x, t.s0.y, t.s1.x, t.s1.y, cxv, cyv);
                let ghost snap = *self;
                let sign_ok = (wa >= 0 && wb >= 0 && wc >= 0) || (wa <= 0 && wb <= 0 && wc <= 0);
                if sign_ok {
                    proof {
                        lemma_edge_sum(t.s0, t.s1, t.s2, x as int, y as int);
                    }
                    let z = interp3(wa, wb, wc, t.s0.z, t.s1.z, t.s2.z, area, Ghost(65536int));
                    let wx = interp3(wa, wb, wc, t.w0.x, t.w1.x, t.w2.x, area,
                        Ghost(0x7FFF_FFFFint));
                    let wy = interp3(wa, wb, wc, t.w0.y, t.w1.y, t.w2.y, area,
                        Ghost(0x7FFF_FFFFint));
                    let wz = interp3(wa, wb, wc, t.w0.z, t.w1.z, t.w2.z, area,
                        Ghost(0x7FFF_FFFFint));
                    let wp = Vec3Fx { x: wx, y: wy, z: wz };
                    let col = shade_planet(t.kind, t.base, wp, lam);
                    self.put_pixel(x, y, z, col);
                    proof {
                        assert(covers(t, pre.width as int, pre.height as int, x as int, y as int));
                        assert(z == depth_at(t, x as int, y as int));
                        assert(wp == world_at(t, x as int, y as int));
                        assert(col == color_at(t, x as int, y as int));
                    }
                }
                proof {
                    let xi = x as int;
                    let yi = y as int;
                    assert forall|px: int, py: int|
                        pre.in_frame(px, py) && (py < yi || (py == yi && px < xi + 1))
                            implies #[trigger] pix_done(pre, *self, t, px, py) by {
                        if px == xi && py == yi {
                            assert(pix_same(pre, snap, px, py));
                            if sign_ok {
                                lemma_raster_pixel_written(pre, snap, *self, t, xi, yi);
                            } else {
                                assert(!covers(t, pre.width as int, pre.height as int, px, py));
                            }
                        } else {
                            assert(pix_done(pre, snap, t, px, py));
                            lemma_raster_pixel_other(pre, snap, *self, t, xi, yi, px, py);
                        }
                    }
                    assert forall|px: int, py: int|
                        pre.in_frame(px, py) && !(py < yi || (py == yi && px < xi + 1))
                            implies #[trigger] pix_same(pre, *self, px, py) by {
                        assert(pix_same(pre, snap, px, py));
                        lemma_raster_pixel_other(pre, snap, *self, t, xi, yi, px, py);
                    }
                }
                x = x + 1;
            }
            proof {
                let yi = y as int;
                assert forall|px: int, py: int| pre.in_frame(px, py) && py < yi + 1 implies
                    #[trigger] pix_done(pre, *self, t, px, py) by {
                    if py == yi && px >= x {
                        assert(pix_same(pre, *self, px, py));
                        assert(!covers(t, pre.width as int, pre.height as int, px, py));
                    } else {
                        assert(pix_done(pre, *self, t, px, py));
                    }
                }
            }
            y = y + 1;
        }
        proof {
            assert forall|px: int, py: int| pre.in_frame(px, py) implies #[trigger] pix_done(
                pre,
                *self,
                t,
                px,
                py,
            ) by {
                if py >= y {
                    assert(pix_same(pre, *self, px, py));
                    assert(!covers(t, pre.width as int, pre.height as int, px, py));
                } else {
                    assert(pix_done(pre, *self, t, px, py));
                }
            }
        }
    }
}

/// After a depth-tested write at `(x, y)` on an otherwise untouched
/// pixel, that pixel satisfies the rasterizer's per-pixel relation.
proof fn lemma_raster_pixel_written(
    pre: SoftwareRenderer,
    snap: SoftwareRenderer,
    cur: SoftwareRenderer,
    t: TriParams,
    x: int,
    y: int,
)
    requires
        pre.wf(),
        snap.wf(),
        snap.width == pre.width,
        snap.height == pre.height,
        cur.width == pre.width,
        cur.height == pre.height,
        pre.in_frame(x, y),
        pix_same(pre, snap, x, y),
        covers(t, pre.width as int, pre.height as int, x, y),
        -0x8000_0000_0000_0000 <= depth_at(t, x, y) < 0x8000_0000_0000_0000,
        ({
            let i = pre.idx(x, y);
            if depth_at(t, x, y) < snap.depth@[i] {
                cur.depth@ == snap.depth@.update(i, depth_at(t, x, y) as i64) && cur.color@
                    == write_rgba(snap.color@, 4 * i, color_at(t, x, y))
            } else {
                cur == snap
            }
        }),
    ensures
        pix_done(pre, cur, t, x, y),
{
    let i = pre.idx(x, y);
    crate::framebuffer::lemma_idx_in_range(pre.width as int, pre.height as int, x, y);
    if depth_at(t, x, y) < pre.depth@[i] {
        assert(cur.depth@[i] == depth_at(t, x, y));
        assert(rgba_at(cur.color@, i) == color_at(t, x, y));
    }
}

/// A write at `(x, y)` leaves every other pixel's depth and color bytes
/// untouched.
proof fn lemma_raster_pixel_other(
    pre: SoftwareRenderer,
    snap: SoftwareRenderer,
    cur: SoftwareRenderer,
    t: TriParams,
    x: int,
    y: int,
    px: int,
    py: int,
)
    requires
        pre.wf(),
        snap.wf(),
        snap.width == pre.width,
        snap.height == pre.height,
        pre.in_frame(x, y),
        pre.in_frame(px, py),
        !(px == x && py == y),
        ({
            let i = pre.idx(x, y);
            cur == snap || (cur.width == snap.width && cur.height == snap.height && cur.depth@
                == snap.depth@.update(i, depth_at(t, x, y) as i64) && cur.color@ == write_rgba(
                snap.color@,
                4 * i,
                color_at(t, x, y),
            ))
        }),
    ensures
        pix_same(snap, cur, px, py),
        pix_same(pre, snap, px, py) ==> pix_same(pre, cur, px, py),
        pix_done(pre, snap, t, px, py) ==> pix_done(pre, cur, t, px, py),
{
    let i = pre.idx(x, y);
    let j = pre.idx(px, py);
    crate::framebuffer::lemma_idx_in_range(pre.width as int, pre.height as int, x, y);
    crate::framebuffer::lemma_idx_in_range(pre.width as int, pre.height as int, px, py);
    lemma_idx_injective(pre.width as int, x, y, px, py);
    if cur != snap {
        assert(cur.depth@[j] == snap.depth@[j]);
        assert(cur.color@[4 * j] == snap.color@[4 * j]);
        assert(cur.color@[4 * j + 1] == snap.color@[4 * j + 1]);
        assert(cur.color@[4 * j + 2] == snap.color@[4 * j + 2]);
        assert(cur.color@[4 * j + 3] == snap.color@[4 * j + 3]);
    }
    assert(rgba_at(cur.color@, j) == rgba_at(snap.color@, j));
}

/// For a positive divisor, `|tdiv(n, d)| <= bnd` when `|n| <= d * bnd`.
pub proof fn lemma_tdiv_mag(n: int, d: int, bnd: int)
    requires
        d > 0,
        0 <= bnd,
        abs_int(n) <= d * bnd,
    ensures
        abs_int(tdiv(n, d)) <= bnd,
{
    if n >= 0 {
        vstd::arithmetic::div_mod::lemma_div_pos_is_pos(n, d);
        vstd::arithmetic::div_mod::lemma_div_is_ordered(n, d * bnd, d);
        vstd::arithmetic::div_mod::lemma_div_multiples_vanish(bnd, d);
    } else {
        vstd::arithmetic::div_mod::lemma_div_pos_is_pos(-n, d);
        vstd::arithmetic::div_mod::lemma_div_is_ordered(-n, d * bnd, d);
        vstd::arithmetic::div_mod::lemma_div_multiples_vanish(bnd, d);
    }
}


/// A ghost snapshot of the frame buffer's two arrays, for stating what a
/// sequence of draw calls leaves behind.
pub struct FbState {
    pub depth: Seq<i64>,
    pub color: Seq<u8>,
}

/// The ghost state of a renderer's buffers.
pub open spec fn fb_of(r: SoftwareRenderer) -> FbState {
    FbState { depth: r.depth@, color: r.color@ }
}

/// The byte of a color at channel position `k` in `{0, 1, 2, 3}`.
pub open spec fn rgba_channel(c: Rgba, k: int) -> u8 {
    if k == 0 {
        c.r
    } else if k == 1 {
        c.g
    } else if k == 2 {
        c.b
    } else {
        c.a
    }
}

/// What rasterizing one triangle leaves of a frame-buffer state, pixel by
/// pixel: the functional form of the rasterizer's per-pixel relation.
pub open spec fn raster_spec(s: FbState, w: int, h: int, t: TriParams) -> FbState {
    if spec_area(t.s0, t.s1, t.s2) == 0 {
        s
    } else {
        FbState {
            depth: Seq::new(
                s.depth.len(),
                |i: int|
                    {
                        let px = i % w;
                        let py = i / w;
                        if covers(t, w, h, px, py) && depth_at(t, px, py) < s.depth[i] {
                            depth_at(t, px, py) as i64
                        } else {
                            s.depth[i]
                        }
                    },
            ),
            color: Seq::new(
                s.color.len(),
                |j: int|
                    {
                        let i = j / 4;
                        let px = i % w;
                        let py = i / w;
                        if covers(t, w, h, px, py) && depth_at(t, px, py) < s.depth[i] {
                            rgba_channel(color_at(t, px, py), j % 4)
                        } else {
                            s.color[j]
                        }
                    },
            ),
        }
    }
}

/// The rasterizer's per-pixel postcondition determines the functional
/// per-index form.
pub proof fn lemma_raster_spec(pre: SoftwareRenderer, cur: SoftwareRenderer, t: TriParams)
    requires
        pre.wf(),
        cur.wf(),
        cur.width == pre.width,
        cur.height == pre.height,
        spec_area(t.s0, t.s1, t.s2) == 0 ==> cur == pre,
        spec_area(t.s0, t.s1, t.s2) != 0 ==> forall|px: int, py: int|
            pre.in_frame(px, py) ==> #[trigger] pix_done(pre, cur, t, px, py),
    ensures
        fb_of(cur) == raster_spec(fb_of(pre), pre.width as int, pre.height as int, t),
{
    let w = pre.width as int;
    let h = pre.height as int;
    if spec_area(t.s0, t.s1, t.s2) == 0 {
        assert(fb_of(cur) == raster_spec(fb_of(pre), w, h, t));
    } else {
        let target = raster_spec(fb_of(pre), w, h, t);
        assert forall|i: int| 0 <= i < cur.depth@.len() implies cur.depth@[i]
            == target.depth[i] by {
            let px = i % w;
            let py = i / w;
            vstd::arithmetic::div_mod::lemma_mod_division_less_than_divisor(i, w);
            vstd::arithmetic::div_mod::lemma_div_pos_is_pos(i, w);
            vstd::arithmetic::div_mod::lemma_multiply_divide_lt(i, w, h);
            vstd::arithmetic::div_mod::lemma_fundamental_div_mod(i, w);
            assert(pre.idx(px, py) == i) by {
                vstd::arithmetic::mul::lemma_mul_is_commutative(py, w);
            }
            assert(pix_done(pre, cur, t, px, py));
        }
        assert(cur.depth@ =~= target.depth);
        assert forall|j: int| 0 <= j < cur.color@.len() implies cur.color@[j]
            == target.color[j] by {
            let i = j / 4;
            let k = j % 4;
            vstd::arithmetic::div_mod::lemma_mod_division_less_than_divisor(j, 4);
            vstd::arithmetic::div_mod::lemma_div_pos_is_pos(j, 4);
            vstd::arithmetic::div_mod::lemma_fundamental_div_mod(j, 4);
            assert(cur.color@.len() == w * h * 4);
            assert(4 * i + k == j);
            assert(i < w * h) by (nonlinear_arith)
                requires
                    4 * i + k == j,
                    0 <= k < 4,
                    j < w * h * 4,
            ;
            let px = i % w;
            let py = i / w;
            vstd::arithmetic::div_mod::lemma_mod_division_less_than_divisor(i, w);
            vstd::arithmetic::div_mod::lemma_div_pos_is_pos(i, w);
            vstd::arithmetic::div_mod::lemma_multiply_divide_lt(i, w, h);
            vstd::arithmetic::div_mod::lemma_fundamental_div_mod(i, w);
            assert(pre.idx(px, py) == i) by {
                vstd::arithmetic::mul::lemma_mul_is_commutative(py, w);
            }
            assert(pix_done(pre, cur, t, px, py));
            assert(rgba_at(cur.color@, i).r == cur.color@[4 * i]);
        }
        assert(cur.color@ =~= target.color);
        assert(fb_of(cur) == FbState { depth: cur.depth@, color: cur.color@ });
    }
}

} // verus!
