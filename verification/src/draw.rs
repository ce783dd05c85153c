//! The composite draw passes: the additive sun halo, the skybox
//! background, orbit polylines, depth-interpolated lines and flat annuli.

use vstd::prelude::*;
use crate::camera::Camera;
use crate::fixed::{
    abs_int, div_fp, isqrt, floor_fp, mul_fp, mul_g, spec_div_fp, spec_mul_fp, sqrt_fp, tdiv,
};
use crate::framebuffer::{blend_rgba, rgba_at, sat_add, Rgba, SoftwareRenderer};
use crate::project::{cam_wf, spec_project, spec_view_proj};
use crate::raster::{spec_min2, ScreenV};
use crate::vec3::{lemma_isqrt_unique, spec_isqrt, vec_bounded, Vec3Fx};

verus! {

/// A fixed-point screen coordinate rounded to a pixel column or row.
pub open spec fn spec_round_px(v: int) -> int {
    (v + 32768) / 65536
}

/// The on-screen halo radius in 16.16 pixels: the distance to the
/// projected probe point one `scale` along world x (floored at 8 pixels),
/// or a scale-derived estimate capped at half the frame width if the
/// probe fails to project.
pub open spec fn spec_glow_radius(
    w: int,
    h: int,
    center: Vec3Fx,
    scale: int,
    cam: Camera,
    sx: int,
    sy: int,
) -> int {
    let probe = Vec3Fx { x: (center.x + scale) as i64, y: center.y, z: center.z };
    match spec_project(w, h, probe, spec_view_proj(cam)) {
        Option::Some(p2) => {
            let d = spec_isqrt((p2.x - sx) * (p2.x - sx) + (p2.y - sy) * (p2.y - sy));
            if d < 524288 {
                524288
            } else {
                d
            }
        },
        Option::None => spec_min2(scale * 10, w * 32768),
    }
}

/// The fixed-point distance from the halo center to the center of pixel
/// `(px, py)`: the square root of the squared pixel offsets, rescaled to
/// 16.16.
pub open spec fn spec_glow_dist(gcx: int, gcy: int, px: int, py: int) -> int {
    spec_isqrt(((px - gcx) * (px - gcx) + (py - gcy) * (py - gcy)) * 0x1_0000_0000)
}

/// The additive contribution at distance `dist` from the center: the
/// glow tint scaled by `(1 - dist / radius) ^ 1.5`, computed as
/// `fall * sqrt(fall)`.
pub open spec fn spec_glow_add(dist: int, radius: int) -> Rgba {
    let fall = 65536 - spec_div_fp(dist, radius);
    let fall15 = spec_mul_fp(fall, crate::vec3::spec_isqrt(fall * 65536));
    Rgba {
        r: (255 * fall15 / 65536) as u8,
        g: (200 * fall15 / 65536) as u8,
        b: (120 * fall15 / 65536) as u8,
        a: (120 * fall15 / 65536) as u8,
    }
}

/// What the halo leaves at pixel `(px, py)`: within the radius the color
/// is the saturating additive blend of the prior color with the falloff
/// contribution; outside it, and everywhere in the depth buffer, the
/// prior contents.
pub open spec fn glow_pix_done(
    pre: SoftwareRenderer,
    cur: SoftwareRenderer,
    gcx: int,
    gcy: int,
    radius: int,
    px: int,
    py: int,
) -> bool {
    let i = pre.idx(px, py);
    if spec_glow_dist(gcx, gcy, px, py) <= radius {
        rgba_at(cur.color@, i) == rgba_at(
            blend_rgba(pre.color@, 4 * i, spec_glow_add(spec_glow_dist(gcx, gcy, px, py), radius)),
            i,
        )
    } else {
        rgba_at(cur.color@, i) == rgba_at(pre.color@, i)
    }
}

impl SoftwareRenderer {
    /// Draws the additive glow halo around the projected `center`: every
    /// pixel within the estimated screen radius receives a warm additive
    /// contribution falling off as `(1 - d / r) ^ 1.5`, without touching
    /// the depth buffer; if the center fails to project nothing is drawn.
    pub fn draw_sun_glow(&mut self, center: Vec3Fx, scale: i64, cam: &Camera)
        requires
            old(self).wf(),
            cam_wf(*cam),
            vec_bounded(center, 0xFFF_FFFF),
            0 <= scale <= 0x1F_FFFF,
        ensures
            final(self).wf(),
            final(self).width == old(self).width,
            final(self).height == old(self).height,
            final(self).depth@ == old(self).depth@,
            ({
                let w = old(self).width as int;
                let h = old(self).height as int;
                match spec_project(w, h, center, spec_view_proj(*cam)) {
                    Option::None => *final(self) == *old(self),
                    Option::Some(s) => {
                        let gcx = spec_round_px(s.x as int);
                        let gcy = spec_round_px(s.y as int);
                        let radius = spec_glow_radius(w, h, center, scale as int, *cam, s.x as int, s.y as int);
                        forall|px: int, py: int|
                            old(self).in_frame(px, py) ==> #[trigger] glow_pix_done(
                                *old(self),
                                *final(self),
                                gcx,
                                gcy,
                                radius,
                                px,
                                py,
                            )
                    },
                }
            }),
    {
        let ghost pre = *self;
        let sopt = self.project_point(center, cam);
        let (sx, sy) = match sopt {
            Option::Some(p) => p,
            Option::None => {
                return ;
            },
        };
        let probe = Vec3Fx { x: center.x + scale, y: center.y, z: center.z };
        let popt = self.project_point(probe, cam);
        let radius: i64 = match popt {
            Option::Some(p2) => {
                proof {
                    crate::vec3::lemma_mul_abs_bound(
                        p2.0 - sx,
                        p2.0 - sx,
                        0x6000_0000,
                        0x6000_0000,
                    );
                    crate::vec3::lemma_mul_abs_bound(
                        p2.1 - sy,
                        p2.1 - sy,
                        0x6000_0000,
                        0x6000_0000,
                    );
                    crate::vec3::lemma_square_nonneg(p2.0 - sx as int);
                    crate::vec3::lemma_square_nonneg(p2.1 - sy as int);
                }
                let dx = (p2.0 - sx) as i128;
                let dy = (p2.1 - sy) as i128;
                let d64 = isqrt((dx * dx + dy * dy) as u128);
                proof {
                    lemma_isqrt_unique((dx * dx + dy * dy) as int, d64 as int);
                    assert(d64 as int <= 0x1_0000_0000) by (nonlinear_arith)
                        requires
                            (d64 as int) * (d64 as int) <= (dx * dx + dy * dy) as int,
                            (dx * dx + dy * dy) as int <= 2 * 0x6000_0000int * 0x6000_0000,
                    ;
                }
                let d = d64 as i64;
                if d < 524288 {
                    524288
                } else {
                    d
                }
            },
            Option::None => {
                proof {
                    if scale == 0 {
                        assert(Vec3Fx { x: (center.x + scale) as i64, y: center.y, z: center.z }
                            == center);
                        assert(false);
                    }
                }
                let est = scale * 10;
                let cap = self.width as i64 * 32768;
                if est <= cap {
                    est
                } else {
                    cap
                }
            },
        };
        proof {
            assert(524288 <= radius || spec_project(
                pre.width as int,
                pre.height as int,
                Vec3Fx { x: (center.x + scale) as i64, y: center.y, z: center.z },
                spec_view_proj(*cam),
            ) is None);
            assert(0 < radius <= 0x1_0000_0000);
        }
        let int_rad = (radius + 65535) / 65536;
        let gcx = floor_fp(sx + 32768);
        let gcy = floor_fp(sy + 32768);
        proof {
            assert forall|px: int, py: int|
                pre.in_frame(px, py) && py < gcy as int - int_rad as int
                    implies #[trigger] glow_pix_done(
                pre,
                *self,
                gcx as int,
                gcy as int,
                radius as int,
                px,
                py,
            ) by {
                lemma_outside_square(gcx as int, gcy as int, radius as int, int_rad as int, px, py);
            }
        }
        let mut oy: i64 = -int_rad;
        while oy <= int_rad + 1
            invariant
                self.wf(),
                self.width == pre.width,
                self.height == pre.height,
                self.depth@ == pre.depth@,
                pre.wf(),
                1 <= int_rad <= 65537,
                int_rad == (radius + 65535) as int / 65536,
                0 < radius <= 0x1_0000_0000,
                abs_int(gcx as int) <= 0x8000,
                abs_int(gcy as int) <= 0x8000,
                -int_rad <= oy <= int_rad + 2,
                forall|px: int, py: int|
                    pre.in_frame(px, py) && py < gcy + oy ==> #[trigger] glow_pix_done(
                        pre,
                        *self,
                        gcx as int,
                        gcy as int,
                        radius as int,
                        px,
                        py,
                    ),
                forall|px: int, py: int|
                    pre.in_frame(px, py) && py >= gcy + oy ==> #[trigger] rgba_at(
                        self.color@,
                        pre.idx(px, py),
                    ) == rgba_at(pre.color@, pre.idx(px, py)),
            decreases int_rad + 2 - oy,
        {
            let y = gcy + oy;
            proof {
                assert forall|px: int, py: int|
                    pre.in_frame(px, py) && (py < y as int || (py == y as int && px < gcx as int
                        - int_rad as int)) implies #[trigger] glow_pix_done(
                    pre,
                    *self,
                    gcx as int,
                    gcy as int,
                    radius as int,
                    px,
                    py,
                ) by {
                    if !(py < y as int) {
                        lemma_outside_square(
                            gcx as int,
                            gcy as int,
                            radius as int,
                            int_rad as int,
                            px,
                            py,
                        );
                    }
                }
            }
            let mut ox: i64 = -int_rad;
            while ox <= int_rad + 1
                invariant
                    self.wf(),
                    self.width == pre.width,
                    self.height == pre.height,
                    self.depth@ == pre.depth@,
                    pre.wf(),
                    1 <= int_rad <= 65537,
                    int_rad == (radius + 65535) as int / 65536,
                    0 < radius <= 0x1_0000_0000,
                    abs_int(gcx as int) <= 0x8000,
                    abs_int(gcy as int) <= 0x8000,
                    -int_rad <= oy <= int_rad + 1,
                    y == gcy + oy,
                    -int_rad <= ox <= int_rad + 2,
                    forall|px: int, py: int|
                        pre.in_frame(px, py) && (py < y || (py == y && px < gcx + ox))
                            ==> #[trigger] glow_pix_done(
                            pre,
                            *self,
                            gcx as int,
                            gcy as int,
                            radius as int,
                            px,
                            py,
                        ),
                    forall|px: int, py: int|
                        pre.in_frame(px, py) && !(py < y || (py == y && px < gcx + ox))
                            ==> #[trigger] rgba_at(self.color@, pre.idx(px, py)) == rgba_at(
                            pre.color@,
                            pre.idx(px, py),
                        ),
                decreases int_rad + 2 - ox,
            {
                let x = gcx + ox;
                let ghost snap = *self;
                let ghost xi = x as int;
                let ghost yi = y as int;
                if ox <= int_rad && oy <= int_rad {
                    proof {
                        crate::vec3::lemma_mul_abs_bound(ox as int, ox as int, 65537, 65537);
                        crate::vec3::lemma_mul_abs_bound(oy as int, oy as int, 65537, 65537);
                        crate::vec3::lemma_square_nonneg(ox as int);
                        crate::vec3::lemma_square_nonneg(oy as int);
                    }
                    let d2 = (ox * ox + oy * oy) as u128;
                    let dist64 = isqrt(d2 * 0x1_0000_0000);
                    proof {
                        lemma_isqrt_unique((d2 * 0x1_0000_0000) as int, dist64 as int);
                        assert(dist64 as int <= 0x2_0000_0000) by (nonlinear_arith)
                            requires
                                (dist64 as int) * (dist64 as int) <= (d2 * 0x1_0000_0000) as int,
                                (d2 * 0x1_0000_0000) as int <= 2 * 65537int * 65537 * 0x1_0000_0000,
                        ;
                        assert(spec_glow_dist(gcx as int, gcy as int, xi, yi) == dist64 as int);
                    }
                    let dist = dist64 as i64;
                    if dist <= radius {
                        proof {
                            crate::vec3::lemma_unit_ratio(dist as int, radius as int);
                        }
                        let fall = 65536 - div_fp(dist, radius);
                        let sq = sqrt_fp(fall);
                        proof {
                            lemma_isqrt_unique(fall as int * 65536, sq as int);
                        }
                        let fall15 = mul_g(fall, sq, Ghost(65536int), Ghost(65536int));
                        proof {
                            assert(0 <= fall15 <= 65536) by {
                                crate::fixed::lemma_tdiv_bound(fall as int * sq as int, 65536);
                                assert(fall as int * sq as int >= 0) by (nonlinear_arith)
                                    requires
                                        fall >= 0,
                                        sq >= 0,
                                ;
                                assert(fall as int * sq as int <= 65536int * 65536)
                                    by (nonlinear_arith)
                                    requires
                                        0 <= fall <= 65536,
                                        0 <= sq <= 65536,
                                ;
                                vstd::arithmetic::div_mod::lemma_div_is_ordered(
                                    fall as int * sq as int,
                                    65536int * 65536,
                                    65536,
                                );
                                vstd::arithmetic::div_mod::lemma_div_multiples_vanish(65536, 65536);
                            }
                        }
                        let add = Rgba {
                            r: scale_channel(255, fall15),
                            g: scale_channel(200, fall15),
                            b: scale_channel(120, fall15),
                            a: scale_channel(120, fall15),
                        };
                        proof {
                            assert(add == spec_glow_add(dist as int, radius as int));
                        }
                        self.add_blend_pixel(x, y, add);
                        proof {
                            lemma_glow_close(
                                pre,
                                snap,
                                *self,
                                gcx as int,
                                gcy as int,
                                radius as int,
                                xi,
                                yi,
                                true,
                            );
                        }
                    } else {
                        proof {
                            lemma_glow_close(
                                pre,
                                snap,
                                *self,
                                gcx as int,
                                gcy as int,
                                radius as int,
                                xi,
                                yi,
                                false,
                            );
                        }
                    }
                } else {
                    proof {
                        lemma_outside_square(
                            gcx as int,
                            gcy as int,
                            radius as int,
                            int_rad as int,
                            xi,
                            yi,
                        );
                        lemma_glow_close(
                            pre,
                            snap,
                            *self,
                            gcx as int,
                            gcy as int,
                            radius as int,
                            xi,
                            yi,
                            false,
                        );
                    }
                }
                proof {
                    assert forall|px: int, py: int|
                        pre.in_frame(px, py) && (py < y || (py == y && px < gcx + ox + 1))
                            implies #[trigger] glow_pix_done(
                        pre,
                        *self,
                        gcx as int,
                        gcy as int,
                        radius as int,
                        px,
                        py,
                    ) by {
                        if !(px == xi && py == yi) {
                            assert(glow_pix_done(pre, snap, gcx as int, gcy as int, radius as int,
                                px, py));
                            assert(rgba_at(self.color@, pre.idx(px, py)) == rgba_at(
                                snap.color@,
                                pre.idx(px, py),
                            ));
                        }
                    }
                    assert forall|px: int, py: int|
                        pre.in_frame(px, py) && !(py < y || (py == y && px < gcx + ox + 1))
                            implies #[trigger] rgba_at(self.color@, pre.idx(px, py)) == rgba_at(
                        pre.color@,
                        pre.idx(px, py),
                    ) by {
                        assert(rgba_at(snap.color@, pre.idx(px, py)) == rgba_at(
                            pre.color@,
                            pre.idx(px, py),
                        ));
                        assert(rgba_at(self.color@, pre.idx(px, py)) == rgba_at(
                            snap.color@,
                            pre.idx(px, py),
                        ));
                    }
                }
                ox = ox + 1;
            }
            proof {
                assert forall|px: int, py: int|
                    pre.in_frame(px, py) && py < gcy + (oy + 1) implies #[trigger] glow_pix_done(
                    pre,
                    *self,
                    gcx as int,
                    gcy as int,
                    radius as int,
                    px,
                    py,
                ) by {
                    if py == y as int && px >= gcx + ox {
                        lemma_outside_square(
                            gcx as int,
                            gcy as int,
                            radius as int,
                            int_rad as int,
                            px,
                            py,
                        );
                    }
                }
            }
            oy = oy + 1;
        }
        proof {
            assert forall|px: int, py: int| pre.in_frame(px, py) implies #[trigger] glow_pix_done(
                pre,
                *self,
                gcx as int,
                gcy as int,
                radius as int,
                px,
                py,
            ) by {
                if py >= gcy + oy {
                    lemma_outside_square(
                        gcx as int,
                        gcy as int,
                        radius as int,
                        int_rad as int,
                        px,
                        py,
                    );
                }
            }
        }
    }
}

/// After one halo step at `(x, y)` — a blend when the pixel is within the
/// radius, otherwise no write — that pixel satisfies the per-pixel halo
/// relation and every other pixel keeps its bytes.
proof fn lemma_glow_close(
    pre: SoftwareRenderer,
    snap: SoftwareRenderer,
    cur: SoftwareRenderer,
    gcx: int,
    gcy: int,
    radius: int,
    x: int,
    y: int,
    wrote: bool,
)
    requires
        pre.wf(),
        snap.wf(),
        snap.width == pre.width,
        snap.height == pre.height,
        cur.width == snap.width,
        cur.height == snap.height,
        pre.in_frame(x, y) ==> rgba_at(snap.color@, pre.idx(x, y)) == rgba_at(
            pre.color@,
            pre.idx(x, y),
        ),
        wrote ==> spec_glow_dist(gcx, gcy, x, y) <= radius,
        !wrote ==> spec_glow_dist(gcx, gcy, x, y) > radius,
        wrote ==> (if pre.in_frame(x, y) {
            cur.color@ == blend_rgba(
                snap.color@,
                4 * pre.idx(x, y),
                spec_glow_add(spec_glow_dist(gcx, gcy, x, y), radius),
            )
        } else {
            cur.color@ == snap.color@
        }),
        !wrote ==> cur.color@ == snap.color@,
    ensures
        pre.in_frame(x, y) ==> glow_pix_done(pre, cur, gcx, gcy, radius, x, y),
        forall|px: int, py: int|
            pre.in_frame(px, py) && !(px == x && py == y) ==> #[trigger] rgba_at(
                cur.color@,
                pre.idx(px, py),
            ) == rgba_at(snap.color@, pre.idx(px, py)),
{
    if pre.in_frame(x, y) {
        let i = pre.idx(x, y);
        crate::framebuffer::lemma_idx_in_range(pre.width as int, pre.height as int, x, y);
        if wrote {
            assert(snap.color@[4 * i] == pre.color@[4 * i]);
            assert(snap.color@[4 * i + 1] == pre.color@[4 * i + 1]);
            assert(snap.color@[4 * i + 2] == pre.color@[4 * i + 2]);
            assert(snap.color@[4 * i + 3] == pre.color@[4 * i + 3]);
            let add = spec_glow_add(spec_glow_dist(gcx, gcy, x, y), radius);
            assert(cur.color@[4 * i] == sat_add(snap.color@[4 * i] as int, add.r as int) as u8);
            assert(cur.color@[4 * i + 1] == sat_add(
                snap.color@[4 * i + 1] as int,
                add.g as int,
            ) as u8);
            assert(cur.color@[4 * i + 2] == sat_add(
                snap.color@[4 * i + 2] as int,
                add.b as int,
            ) as u8);
            assert(cur.color@[4 * i + 3] == sat_add(
                snap.color@[4 * i + 3] as int,
                add.a as int,
            ) as u8);
            assert(rgba_at(cur.color@, i) == rgba_at(blend_rgba(pre.color@, 4 * i, add), i));
        }
    }
    assert forall|px: int, py: int|
        pre.in_frame(px, py) && !(px == x && py == y) implies #[trigger] rgba_at(
        cur.color@,
        pre.idx(px, py),
    ) == rgba_at(snap.color@, pre.idx(px, py)) by {
        let j = pre.idx(px, py);
        crate::framebuffer::lemma_idx_in_range(pre.width as int, pre.height as int, px, py);
        if cur.color@ != snap.color@ {
            let i = pre.idx(x, y);
            crate::framebuffer::lemma_idx_in_range(pre.width as int, pre.height as int, x, y);
            crate::raster::lemma_idx_injective(pre.width as int, x, y, px, py);
            assert(cur.color@[4 * j] == snap.color@[4 * j]);
            assert(cur.color@[4 * j + 1] == snap.color@[4 * j + 1]);
            assert(cur.color@[4 * j + 2] == snap.color@[4 * j + 2]);
            assert(cur.color@[4 * j + 3] == snap.color@[4 * j + 3]);
        }
    }
}

/// A pixel strictly outside the halo's bounding square lies strictly
/// beyond the radius.
proof fn lemma_outside_square(gcx: int, gcy: int, radius: int, int_rad: int, px: int, py: int)
    requires
        0 < radius,
        int_rad == (radius + 65535) / 65536,
        abs_int(px - gcx) > int_rad || abs_int(py - gcy) > int_rad,
    ensures
        spec_glow_dist(gcx, gcy, px, py) > radius,
{
    let dx = px - gcx;
    let dy = py - gcy;
    let n = (dx * dx + dy * dy) * 0x1_0000_0000;
    let d = spec_isqrt(n);
    vstd::arithmetic::div_mod::lemma_div_pos_is_pos(radius + 65535, 65536);
    assert(int_rad * 65536 + 65536 > radius) by {
        vstd::arithmetic::div_mod::lemma_fundamental_div_mod(radius + 65535, 65536);
        vstd::arithmetic::mul::lemma_mul_is_commutative(int_rad, 65536);
    }
    assert(n >= 0) by (nonlinear_arith)
        requires
            n == (dx * dx + dy * dy) * 0x1_0000_0000,
    ;
    assert(exists|q: int| q >= 0 && #[trigger] (q * q) <= n < (q + 1) * (q + 1)) by {
        lemma_isqrt_exists(n);
    }
    assert(d >= 0 && d * d <= n < (d + 1) * (d + 1));
    assert(d > radius) by (nonlinear_arith)
        requires
            d >= 0,
            n < (d + 1) * (d + 1),
            n == (dx * dx + dy * dy) * 0x1_0000_0000,
            abs_int(dx) > int_rad || abs_int(dy) > int_rad,
            int_rad * 65536 + 65536 > radius,
            0 < radius,
            int_rad >= 1,
            d * d <= n,
    ;
}

/// Every nonnegative integer has an integer square root.
proof fn lemma_isqrt_exists(n: int)
    requires
        0 <= n,
    ensures
        exists|q: int| q >= 0 && #[trigger] (q * q) <= n < (q + 1) * (q + 1),
    decreases n,
{
    if n == 0 {
        assert(0int * 0 <= n < (0int + 1) * (0int + 1)) by (nonlinear_arith)
            requires
                n == 0,
        ;
    } else {
        lemma_isqrt_exists(n - 1);
        let q = choose|q: int| q >= 0 && #[trigger] (q * q) <= n - 1 < (q + 1) * (q + 1);
        if (q + 1) * (q + 1) <= n {
            assert((q + 1) * (q + 1) <= n < (q + 2) * (q + 2)) by (nonlinear_arith)
                requires
                    q * q <= n - 1,
                    n - 1 < (q + 1) * (q + 1),
                    (q + 1) * (q + 1) <= n,
            ;
            assert((q + 1) >= 0 && ((q + 1) * (q + 1)) <= n < ((q + 1) + 1) * ((q + 1) + 1));
        } else {
            assert(q >= 0 && (q * q) <= n < (q + 1) * (q + 1));
        }
    }
}

/// One byte channel scaled by a unit-interval fixed-point factor.
fn scale_channel(c: u8, f: i64) -> (r: u8)
    requires
        0 <= f <= 65536,
    ensures
        r == (c as int * f as int / 65536) as u8,
        c as int * f as int / 65536 <= 255,
{
    proof {
        crate::vec3::lemma_mul_abs_bound(c as int, f as int, 255, 65536);
    }
    let wide = (c as i64) * f;
    proof {
        vstd::arithmetic::div_mod::lemma_div_pos_is_pos(wide as int, 65536);
        assert(c as int * f as int >= 0) by (nonlinear_arith)
            requires
                c >= 0,
                f >= 0,
        ;
        vstd::arithmetic::div_mod::lemma_div_is_ordered(wide as int, 255int * 65536, 65536);
        vstd::arithmetic::div_mod::lemma_div_multiples_vanish(255, 65536);
    }
    (wide / 65536) as u8
}


/// The pixel count a line is stepped over: the larger screen extent in
/// pixels, at least 1 and at most 500.
pub open spec fn spec_line_steps(ax: int, ay: int, bx: int, by: int) -> int {
    let m = crate::raster::spec_max2(abs_int(bx - ax), abs_int(by - ay));
    let m1 = if m < 65536 {
        65536int
    } else {
        m
    };
    let m2 = if m1 > 32768000 {
        32768000int
    } else {
        m1
    };
    m2 / 65536
}

/// The rounded pixel and interpolated depth of step `i` of a line.
pub open spec fn spec_line_pt(
    ax: int,
    ay: int,
    za: int,
    bx: int,
    by: int,
    zb: int,
    steps: int,
    i: int,
) -> (int, int, int) {
    let t = tdiv(i * 65536, steps);
    (
        (ax + spec_mul_fp(bx - ax, t) + 32768) / 65536,
        (ay + spec_mul_fp(by - ay, t) + 32768) / 65536,
        za + spec_mul_fp(zb - za, t),
    )
}

/// One depth-tested pixel write applied to a ghost frame-buffer state.
pub open spec fn put_spec(
    s: crate::raster::FbState,
    w: int,
    h: int,
    x: int,
    y: int,
    z: int,
    c: Rgba,
) -> crate::raster::FbState {
    let i = y * w + x;
    if 0 <= x < w && 0 <= y < h && z < s.depth[i] {
        crate::raster::FbState {
            depth: s.depth.update(i, z as i64),
            color: crate::framebuffer::write_rgba(s.color, 4 * i, c),
        }
    } else {
        s
    }
}

/// The ghost frame-buffer state after the first `i` steps of a line.
pub open spec fn spec_line_state(
    s: crate::raster::FbState,
    w: int,
    h: int,
    ax: int,
    ay: int,
    za: int,
    bx: int,
    by: int,
    zb: int,
    c: Rgba,
    steps: int,
    i: int,
) -> crate::raster::FbState
    decreases i,
{
    if i <= 0 {
        s
    } else {
        let prev = spec_line_state(s, w, h, ax, ay, za, bx, by, zb, c, steps, i - 1);
        let p = spec_line_pt(ax, ay, za, bx, by, zb, steps, i - 1);
        put_spec(prev, w, h, p.0, p.1, p.2, c)
    }
}

/// The full stepping of one line: its state fold over all steps.
pub open spec fn spec_line_full(
    s: crate::raster::FbState,
    w: int,
    h: int,
    a: ScreenV,
    b: ScreenV,
    c: Rgba,
) -> crate::raster::FbState {
    let steps = spec_line_steps(a.x as int, a.y as int, b.x as int, b.y as int);
    spec_line_state(
        s,
        w,
        h,
        a.x as int,
        a.y as int,
        a.z as int,
        b.x as int,
        b.y as int,
        b.z as int,
        c,
        steps,
        steps + 1,
    )
}

/// Where one ring corner lands on screen: the world point at `angle` and
/// `radius` around `center` in the XZ plane, through the camera's view
/// and projection.
pub open spec fn spec_ring_corner(
    w: int,
    h: int,
    center: Vec3Fx,
    radius: int,
    angle: int,
    cam: Camera,
) -> Option<ScreenV> {
    let world = Vec3Fx {
        x: (center.x + spec_mul_fp(radius, crate::fixed::spec_cos(angle))) as i64,
        y: center.y,
        z: (center.z + spec_mul_fp(radius, crate::fixed::spec_sin(angle))) as i64,
    };
    spec_project(w, h, world, spec_view_proj(cam))
}

/// Whether a projected ring corner lies within the reasonable screen
/// band of 1000 pixels around the frame, the guard against
/// near-degenerate projections.
pub open spec fn ring_corner_valid(s: ScreenV, w: int, h: int) -> bool {
    &&& -65536000 <= s.x <= (w + 1000) * 65536
    &&& -65536000 <= s.y <= (h + 1000) * 65536
}

/// What one ring segment leaves behind: when all four corners project
/// within the reasonable screen band, its four depth-interpolated edges
/// drawn in order; otherwise nothing.
pub open spec fn spec_ring_seg(
    s: crate::raster::FbState,
    w: int,
    h: int,
    center: Vec3Fx,
    inner_r: int,
    outer_r: int,
    cam: Camera,
    color: Rgba,
    i: int,
) -> crate::raster::FbState {
    let a0 = i * 2048;
    let a1 = (i + 1) * 2048;
    match (spec_ring_corner(w, h, center, inner_r, a0, cam), spec_ring_corner(
        w,
        h,
        center,
        outer_r,
        a0,
        cam,
    ), spec_ring_corner(w, h, center, inner_r, a1, cam), spec_ring_corner(
        w,
        h,
        center,
        outer_r,
        a1,
        cam,
    )) {
        (
            Option::Some(s0i),
            Option::Some(s0o),
            Option::Some(s1i),
            Option::Some(s1o),
        ) => {
            if ring_corner_valid(s0i, w, h) && ring_corner_valid(s0o, w, h) && ring_corner_valid(
                s1i,
                w,
                h,
            ) && ring_corner_valid(s1o, w, h) {
                spec_line_full(
                    spec_line_full(
                        spec_line_full(
                            spec_line_full(s, w, h, s0i, s0o, color),
                            w,
                            h,
                            s1i,
                            s1o,
                            color,
                        ),
                        w,
                        h,
                        s0o,
                        s1o,
                        color,
                    ),
                    w,
                    h,
                    s0i,
                    s1i,
                    color,
                )
            } else {
                s
            }
        },
        _ => s,
    }
}

/// The frame-buffer state after the first `k` of the ring's 128 segments.
pub open spec fn spec_draw_ring(
    s: crate::raster::FbState,
    w: int,
    h: int,
    center: Vec3Fx,
    inner_r: int,
    outer_r: int,
    cam: Camera,
    color: Rgba,
    k: int,
) -> crate::raster::FbState
    decreases k,
{
    if k <= 0 {
        s
    } else {
        spec_ring_seg(
            spec_draw_ring(s, w, h, center, inner_r, outer_r, cam, color, k - 1),
            w,
            h,
            center,
            inner_r,
            outer_r,
            cam,
            color,
            k - 1,
        )
    }
}

/// One overlay pixel write applied to a ghost frame-buffer state: the
/// depth test ties in favour of the incoming pixel.
pub open spec fn put_over_spec(
    s: crate::raster::FbState,
    w: int,
    h: int,
    x: int,
    y: int,
    z: int,
    c: Rgba,
) -> crate::raster::FbState {
    let i = y * w + x;
    if 0 <= x < w && 0 <= y < h && z <= s.depth[i] {
        crate::raster::FbState {
            depth: s.depth.update(i, z as i64),
            color: crate::framebuffer::write_rgba(s.color, 4 * i, c),
        }
    } else {
        s
    }
}

/// The rounded pixel of step `i` of an overlay line.
pub open spec fn spec_line2d_pt(
    ax: int,
    ay: int,
    bx: int,
    by: int,
    steps: int,
    i: int,
) -> (int, int) {
    let t = tdiv(i * 65536, steps);
    (
        (ax + spec_mul_fp(bx - ax, t) + 32768) / 65536,
        (ay + spec_mul_fp(by - ay, t) + 32768) / 65536,
    )
}

/// The ghost frame-buffer state after the first `i` steps of an overlay
/// line drawn at the far sentinel.
pub open spec fn spec_line2d_state(
    s: crate::raster::FbState,
    w: int,
    h: int,
    ax: int,
    ay: int,
    bx: int,
    by: int,
    c: Rgba,
    steps: int,
    i: int,
) -> crate::raster::FbState
    decreases i,
{
    if i <= 0 {
        s
    } else {
        let prev = spec_line2d_state(s, w, h, ax, ay, bx, by, c, steps, i - 1);
        let p = spec_line2d_pt(ax, ay, bx, by, steps, i - 1);
        put_over_spec(prev, w, h, p.0, p.1, crate::framebuffer::DEPTH_ONE as int, c)
    }
}

/// The full overlay line between two screen points.
pub open spec fn spec_line2d_full(
    s: crate::raster::FbState,
    w: int,
    h: int,
    a: (int, int),
    b: (int, int),
    c: Rgba,
) -> crate::raster::FbState {
    let steps = spec_line_steps(a.0, a.1, b.0, b.1);
    spec_line2d_state(s, w, h, a.0, a.1, b.0, b.1, c, steps, steps + 1)
}

/// The projected screen point of orbit sample `i` on the circle of
/// radius `r` in the XZ plane.
pub open spec fn spec_orbit_point(w: int, h: int, r: int, i: int, cam: Camera) -> Option<
    (int, int),
> {
    let world = Vec3Fx {
        x: spec_mul_fp(r, crate::fixed::spec_cos(i * 1024)) as i64,
        y: 0,
        z: spec_mul_fp(r, crate::fixed::spec_sin(i * 1024)) as i64,
    };
    match spec_project(w, h, world, spec_view_proj(cam)) {
        Option::Some(s) => Option::Some((s.x as int, s.y as int)),
        Option::None => Option::None,
    }
}

/// One orbit polyline from sample `i` on, threading the previously
/// projected point: each successfully projected sample extends the
/// polyline by one overlay segment; a failed projection breaks it.
pub open spec fn spec_orbit_ring(
    s: crate::raster::FbState,
    w: int,
    h: int,
    r: int,
    cam: Camera,
    color: Rgba,
    last: Option<(int, int)>,
    i: int,
) -> crate::raster::FbState
    decreases 257 - i,
{
    if i >= 257 {
        s
    } else {
        match spec_orbit_point(w, h, r, i, cam) {
            Option::Some(p) => {
                let s2 = match last {
                    Option::Some(prev) => spec_line2d_full(s, w, h, prev, p, color),
                    Option::None => s,
                };
                spec_orbit_ring(s2, w, h, r, cam, color, Option::Some(p), i + 1)
            },
            Option::None => spec_orbit_ring(s, w, h, r, cam, color, Option::None, i + 1),
        }
    }
}

/// The whole orbit pass: three polylines at small radial offsets faking
/// line thickness, drawn with the given tint at a fixed alpha of 200;
/// radii at or below zero draw nothing.
pub open spec fn spec_draw_orbit(
    s: crate::raster::FbState,
    w: int,
    h: int,
    radius: int,
    cam: Camera,
    color: Rgba,
) -> crate::raster::FbState {
    if radius <= 0 {
        s
    } else {
        let tint = Rgba { r: color.r, g: color.g, b: color.b, a: 200 };
        spec_orbit_ring(
            spec_orbit_ring(
                spec_orbit_ring(s, w, h, radius - 1966, cam, tint, Option::None, 0),
                w,
                h,
                radius,
                cam,
                tint,
                Option::None,
                0,
            ),
            w,
            h,
            radius + 1966,
            cam,
            tint,
            Option::None,
            0,
        )
    }
}

/// An exec polyline state viewed as its ghost form.
pub open spec fn olast(l: Option<(i64, i64)>) -> Option<(int, int)> {
    match l {
        Option::Some(p) => Option::Some((p.0 as int, p.1 as int)),
        Option::None => Option::None,
    }
}

impl SoftwareRenderer {
    /// Draws a line between two screen points with linearly interpolated
    /// depth, stepping one pixel at a time (capped at 500 steps), each
    /// step a depth-tested write.
    pub fn draw_line_between_with_depth(
        &mut self,
        ax: i64,
        ay: i64,
        za: i64,
        bx: i64,
        by: i64,
        zb: i64,
        c: Rgba,
    )
        requires
            old(self).wf(),
            abs_int(ax as int) <= crate::raster::SCREEN_LIMIT as int,
            abs_int(ay as int) <= crate::raster::SCREEN_LIMIT as int,
            abs_int(bx as int) <= crate::raster::SCREEN_LIMIT as int,
            abs_int(by as int) <= crate::raster::SCREEN_LIMIT as int,
            0 <= za <= 65536,
            0 <= zb <= 65536,
        ensures
            final(self).wf(),
            final(self).width == old(self).width,
            final(self).height == old(self).height,
            crate::raster::fb_of(*final(self)) == spec_line_state(
                crate::raster::fb_of(*old(self)),
                old(self).width as int,
                old(self).height as int,
                ax as int,
                ay as int,
                za as int,
                bx as int,
                by as int,
                zb as int,
                c,
                spec_line_steps(ax as int, ay as int, bx as int, by as int),
                spec_line_steps(ax as int, ay as int, bx as int, by as int) + 1,
            ),
            forall|q: int|
                0 <= q < old(self).depth@.len() ==> #[trigger] final(self).depth@[q] <= old(
                    self,
                ).depth@[q],
    {
        let ghost pre = *self;
        let ghost w = pre.width as int;
        let ghost h = pre.height as int;
        let dxa = if bx >= ax {
            bx - ax
        } else {
            ax - bx
        };
        let dya = if by >= ay {
            by - ay
        } else {
            ay - by
        };
        let m = if dxa >= dya {
            dxa
        } else {
            dya
        };
        let m1 = if m < 65536 {
            65536
        } else {
            m
        };
        let m2 = if m1 > 32768000 {
            32768000
        } else {
            m1
        };
        let steps = m2 / 65536;
        proof {
            assert(steps == spec_line_steps(ax as int, ay as int, bx as int, by as int));
            vstd::arithmetic::div_mod::lemma_div_pos_is_pos(m2 as int, 65536);
            vstd::arithmetic::div_mod::lemma_div_is_ordered(65536, m2 as int, 65536);
            vstd::arithmetic::div_mod::lemma_div_is_ordered(m2 as int, 32768000, 65536);
        }
        let mut i: i64 = 0;
        while i <= steps
            invariant
                self.wf(),
                self.width == pre.width,
                self.height == pre.height,
                pre.wf(),
                1 <= steps <= 500,
                steps == spec_line_steps(ax as int, ay as int, bx as int, by as int),
                abs_int(ax as int) <= crate::raster::SCREEN_LIMIT as int,
                abs_int(ay as int) <= crate::raster::SCREEN_LIMIT as int,
                abs_int(bx as int) <= crate::raster::SCREEN_LIMIT as int,
                abs_int(by as int) <= crate::raster::SCREEN_LIMIT as int,
                0 <= za <= 65536,
                0 <= zb <= 65536,
                0 <= i <= steps + 1,
                w == pre.width as int,
                h == pre.height as int,
                crate::raster::fb_of(*self) == spec_line_state(
                    crate::raster::fb_of(pre),
                    w,
                    h,
                    ax as int,
                    ay as int,
                    za as int,
                    bx as int,
                    by as int,
                    zb as int,
                    c,
                    steps as int,
                    i as int,
                ),
                forall|q: int|
                    0 <= q < pre.depth@.len() ==> #[trigger] self.depth@[q] <= pre.depth@[q],
            decreases steps + 1 - i,
        {
            let ghost snap = *self;
            proof {
                crate::fixed::lemma_tdiv_bound(i as int * 65536, steps as int);
                vstd::arithmetic::div_mod::lemma_div_pos_is_pos(i as int * 65536, steps as int);
            }
            let t = (i * 65536) / steps;
            proof {
                assert(i as int * 65536 <= steps as int * 65536) by (nonlinear_arith)
                    requires
                        0 <= i <= steps,
                ;
                vstd::arithmetic::div_mod::lemma_div_is_ordered(
                    i as int * 65536,
                    steps as int * 65536,
                    steps as int,
                );
                vstd::arithmetic::div_mod::lemma_div_multiples_vanish(65536, steps as int);
                crate::fixed::lemma_mul_fp_le(bx - ax, t as int, 0x6000_0000, 65536);
                crate::fixed::lemma_mul_fp_le(by - ay, t as int, 0x6000_0000, 65536);
                crate::fixed::lemma_mul_fp_le(zb - za, t as int, 65536, 65536);
            }
            let px = floor_fp(ax + mul_fp(bx - ax, t) + 32768);
            let py = floor_fp(ay + mul_fp(by - ay, t) + 32768);
            let z = za + mul_fp(zb - za, t);
            self.put_pixel(px, py, z, c);
            proof {
                let pt = spec_line_pt(
                    ax as int,
                    ay as int,
                    za as int,
                    bx as int,
                    by as int,
                    zb as int,
                    steps as int,
                    i as int,
                );
                assert(px == pt.0 && py == pt.1 && z == pt.2);
                assert(crate::raster::fb_of(*self) == put_spec(
                    crate::raster::fb_of(snap),
                    w,
                    h,
                    px as int,
                    py as int,
                    z as int,
                    c,
                ));
                assert forall|q: int| 0 <= q < pre.depth@.len() implies #[trigger] self.depth@[q]
                    <= pre.depth@[q] by {
                    assert(snap.depth@[q] <= pre.depth@[q]);
                }
            }
            i = i + 1;
        }
    }

    /// Draws a 2D overlay line at the far-plane depth, stepping one pixel
    /// at a time: each step is an overlay write, which ties in favour of
    /// the segment at the far sentinel — so the line shows over the
    /// untouched background while losing to any nearer geometry.
    pub fn draw_line_2d(&mut self, ax: i64, ay: i64, bx: i64, by: i64, c: Rgba)
        requires
            old(self).wf(),
            abs_int(ax as int) <= crate::raster::SCREEN_LIMIT as int,
            abs_int(ay as int) <= crate::raster::SCREEN_LIMIT as int,
            abs_int(bx as int) <= crate::raster::SCREEN_LIMIT as int,
            abs_int(by as int) <= crate::raster::SCREEN_LIMIT as int,
        ensures
            final(self).wf(),
            final(self).width == old(self).width,
            final(self).height == old(self).height,
            crate::raster::fb_of(*final(self)) == spec_line2d_full(
                crate::raster::fb_of(*old(self)),
                old(self).width as int,
                old(self).height as int,
                (ax as int, ay as int),
                (bx as int, by as int),
                c,
            ),
            forall|q: int|
                0 <= q < old(self).depth@.len() ==> #[trigger] final(self).depth@[q] <= old(
                    self,
                ).depth@[q],
    {
        let ghost pre = *self;
        let ghost w = pre.width as int;
        let ghost h = pre.height as int;
        let dxa = if bx >= ax {
            bx - ax
        } else {
            ax - bx
        };
        let dya = if by >= ay {
            by - ay
        } else {
            ay - by
        };
        let m = if dxa >= dya {
            dxa
        } else {
            dya
        };
        let m1 = if m < 65536 {
            65536
        } else {
            m
        };
        let m2 = if m1 > 32768000 {
            32768000
        } else {
            m1
        };
        let steps = m2 / 65536;
        proof {
            assert(steps == spec_line_steps(ax as int, ay as int, bx as int, by as int));
            vstd::arithmetic::div_mod::lemma_div_pos_is_pos(m2 as int, 65536);
            vstd::arithmetic::div_mod::lemma_div_is_ordered(65536, m2 as int, 65536);
            vstd::arithmetic::div_mod::lemma_div_is_ordered(m2 as int, 32768000, 65536);
        }
        let mut i: i64 = 0;
        while i <= steps
            invariant
                self.wf(),
                self.width == pre.width,
                self.height == pre.height,
                pre.wf(),
                1 <= steps <= 500,
                steps == spec_line_steps(ax as int, ay as int, bx as int, by as int),
                abs_int(ax as int) <= crate::raster::SCREEN_LIMIT as int,
                abs_int(ay as int) <= crate::raster::SCREEN_LIMIT as int,
                abs_int(bx as int) <= crate::raster::SCREEN_LIMIT as int,
                abs_int(by as int) <= crate::raster::SCREEN_LIMIT as int,
                0 <= i <= steps + 1,
                w == pre.width as int,
                h == pre.height as int,
                crate::raster::fb_of(*self) == spec_line2d_state(
                    crate::raster::fb_of(pre),
                    w,
                    h,
                    ax as int,
                    ay as int,
                    bx as int,
                    by as int,
                    c,
                    steps as int,
                    i as int,
                ),
                forall|q: int|
                    0 <= q < pre.depth@.len() ==> #[trigger] self.depth@[q] <= pre.depth@[q],
            decreases steps + 1 - i,
        {
            let ghost snap = *self;
            proof {
                crate::fixed::lemma_tdiv_bound(i as int * 65536, steps as int);
                vstd::arithmetic::div_mod::lemma_div_pos_is_pos(i as int * 65536, steps as int);
                assert(i as int * 65536 <= steps as int * 65536) by (nonlinear_arith)
                    requires
                        0 <= i <= steps,
                ;
                vstd::arithmetic::div_mod::lemma_div_is_ordered(
                    i as int * 65536,
                    steps as int * 65536,
                    steps as int,
                );
                vstd::arithmetic::div_mod::lemma_div_multiples_vanish(65536, steps as int);
            }
            let t = (i * 65536) / steps;
            proof {
                crate::fixed::lemma_mul_fp_le(bx - ax, t as int, 0x6000_0000, 65536);
                crate::fixed::lemma_mul_fp_le(by - ay, t as int, 0x6000_0000, 65536);
            }
            let px = floor_fp(ax + mul_fp(bx - ax, t) + 32768);
            let py = floor_fp(ay + mul_fp(by - ay, t) + 32768);
            self.put_pixel_overlay(px, py, crate::framebuffer::DEPTH_ONE, c);
            proof {
                let pt = spec_line2d_pt(
                    ax as int,
                    ay as int,
                    bx as int,
                    by as int,
                    steps as int,
                    i as int,
                );
                assert(px == pt.0 && py == pt.1);
                assert(crate::raster::fb_of(*self) == put_over_spec(
                    crate::raster::fb_of(snap),
                    w,
                    h,
                    px as int,
                    py as int,
                    crate::framebuffer::DEPTH_ONE as int,
                    c,
                ));
                assert forall|q: int| 0 <= q < pre.depth@.len() implies #[trigger] self.depth@[q]
                    <= pre.depth@[q] by {
                    assert(snap.depth@[q] <= pre.depth@[q]);
                }
            }
            i = i + 1;
        }
    }

    /// Draws the orbit circle of the given radius in the XZ plane as
    /// three concentric 256-segment polylines (small radial offsets fake
    /// line thickness), each vertex independently projected, a projection
    /// failure breaking the polyline.  The segments are drawn at the
    /// far-plane depth as overlay writes: always visible over the
    /// untouched background, always losing to nearer geometry.
    pub fn draw_orbit(&mut self, radius: i64, cam: &Camera, color: Rgba)
        requires
            old(self).wf(),
            cam_wf(*cam),
            radius <= 0xFFF_0000,
        ensures
            final(self).wf(),
            final(self).width == old(self).width,
            final(self).height == old(self).height,
            crate::raster::fb_of(*final(self)) == spec_draw_orbit(
                crate::raster::fb_of(*old(self)),
                old(self).width as int,
                old(self).height as int,
                radius as int,
                *cam,
                color,
            ),
            radius <= 0 ==> *final(self) == *old(self),
    {
        if radius <= 0 {
            return ;
        }
        let tint = Rgba { r: color.r, g: color.g, b: color.b, a: 200 };
        self.orbit_ring(radius - 1966, cam, tint);
        self.orbit_ring(radius, cam, tint);
        self.orbit_ring(radius + 1966, cam, tint);
    }

    /// One 256-segment orbit polyline at radius `r`.
    fn orbit_ring(&mut self, r: i64, cam: &Camera, color: Rgba)
        requires
            old(self).wf(),
            cam_wf(*cam),
            abs_int(r as int) <= 0x1000_0000,
        ensures
            final(self).wf(),
            final(self).width == old(self).width,
            final(self).height == old(self).height,
            crate::raster::fb_of(*final(self)) == spec_orbit_ring(
                crate::raster::fb_of(*old(self)),
                old(self).width as int,
                old(self).height as int,
                r as int,
                *cam,
                color,
                Option::None,
                0,
            ),
    {
        let ghost pre = *self;
        let ghost w = pre.width as int;
        let ghost h = pre.height as int;
        let mut last: Option<(i64, i64)> = Option::None;
        let mut seg: i64 = 0;
        while seg <= 256
            invariant
                self.wf(),
                self.width == pre.width,
                self.height == pre.height,
                pre.wf(),
                cam_wf(*cam),
                abs_int(r as int) <= 0x1000_0000,
                0 <= seg <= 257,
                w == pre.width as int,
                h == pre.height as int,
                last matches Option::Some(p) ==> abs_int(p.0 as int)
                    <= crate::raster::SCREEN_LIMIT as int && abs_int(p.1 as int)
                    <= crate::raster::SCREEN_LIMIT as int,
                spec_orbit_ring(
                    crate::raster::fb_of(*self),
                    w,
                    h,
                    r as int,
                    *cam,
                    color,
                    olast(last),
                    seg as int,
                ) == spec_orbit_ring(
                    crate::raster::fb_of(pre),
                    w,
                    h,
                    r as int,
                    *cam,
                    color,
                    Option::None,
                    0,
                ),
            decreases 257 - seg,
        {
            let ghost fb0 = crate::raster::fb_of(*self);
            let ghost last0 = olast(last);
            let angle = seg * 1024;
            let ca = crate::fixed::cos_bau(angle);
            let sa = crate::fixed::sin_bau(angle);
            proof {
                crate::fixed::lemma_mul_fp_le(r as int, ca as int, 0x1000_0000, 65536);
                crate::fixed::lemma_mul_fp_le(r as int, sa as int, 0x1000_0000, 65536);
            }
            let world = Vec3Fx { x: mul_fp(r, ca), y: 0, z: mul_fp(r, sa) };
            match self.project_point(world, cam) {
                Option::Some(p) => {
                    proof {
                        assert(spec_orbit_point(w, h, r as int, seg as int, *cam)
                            == Option::Some((p.0 as int, p.1 as int)));
                    }
                    match last {
                        Option::Some(prev) => {
                            self.draw_line_2d(prev.0, prev.1, p.0, p.1, color);
                        },
                        Option::None => {},
                    }
                    last = Option::Some(p);
                    proof {
                        assert(spec_orbit_ring(fb0, w, h, r as int, *cam, color, last0, seg as int)
                            == spec_orbit_ring(
                            crate::raster::fb_of(*self),
                            w,
                            h,
                            r as int,
                            *cam,
                            color,
                            olast(last),
                            seg as int + 1,
                        ));
                    }
                },
                Option::None => {
                    proof {
                        assert(spec_orbit_point(w, h, r as int, seg as int, *cam) is None);
                    }
                    last = Option::None;
                    proof {
                        assert(spec_orbit_ring(fb0, w, h, r as int, *cam, color, last0, seg as int)
                            == spec_orbit_ring(
                            crate::raster::fb_of(*self),
                            w,
                            h,
                            r as int,
                            *cam,
                            color,
                            olast(last),
                            seg as int + 1,
                        ));
                    }
                },
            }
            seg = seg + 1;
        }
    }

    /// Draws a flat annulus around `center` in the XZ plane between the
    /// two radii as 128 radial quads, each edge a depth-interpolated line
    /// so the ring respects the depth buffer; a quad any of whose corners
    /// fails projection or lands outside the 1000-pixel band around the
    /// frame is skipped whole (defense against near-degenerate views).
    /// Every depth entry can only move nearer, and a pixel whose depth
    /// did not change keeps its color.
    pub fn draw_ring(&mut self, center: Vec3Fx, inner_r: i64, outer_r: i64, cam: &Camera, color: Rgba)
        requires
            old(self).wf(),
            cam_wf(*cam),
            vec_bounded(center, 0xFFF_0000),
            0 <= inner_r <= 0xFFF_0000,
            0 <= outer_r <= 0xFFF_0000,
        ensures
            final(self).wf(),
            final(self).width == old(self).width,
            final(self).height == old(self).height,
            crate::raster::fb_of(*final(self)) == spec_draw_ring(
                crate::raster::fb_of(*old(self)),
                old(self).width as int,
                old(self).height as int,
                center,
                inner_r as int,
                outer_r as int,
                *cam,
                color,
                128,
            ),
            forall|q: int|
                0 <= q < old(self).depth@.len() ==> #[trigger] final(self).depth@[q] <= old(
                    self,
                ).depth@[q],
    {
        let ghost pre = *self;
        let ghost w = pre.width as int;
        let ghost h = pre.height as int;
        let mut seg: i64 = 0;
        while seg < 128
            invariant
                self.wf(),
                self.width == pre.width,
                self.height == pre.height,
                pre.wf(),
                cam_wf(*cam),
                vec_bounded(center, 0xFFF_0000),
                0 <= inner_r <= 0xFFF_0000,
                0 <= outer_r <= 0xFFF_0000,
                0 <= seg <= 128,
                w == pre.width as int,
                h == pre.height as int,
                crate::raster::fb_of(*self) == spec_draw_ring(
                    crate::raster::fb_of(pre),
                    w,
                    h,
                    center,
                    inner_r as int,
                    outer_r as int,
                    *cam,
                    color,
                    seg as int,
                ),
                forall|q: int|
                    0 <= q < pre.depth@.len() ==> #[trigger] self.depth@[q] <= pre.depth@[q],
            decreases 128 - seg,
        {
            let ghost snap = *self;
            let a0 = seg * 2048;
            let a1 = (seg + 1) * 2048;
            let p0i = self.ring_point(center, inner_r, a0, cam);
            let p0o = self.ring_point(center, outer_r, a0, cam);
            let p1i = self.ring_point(center, inner_r, a1, cam);
            let p1o = self.ring_point(center, outer_r, a1, cam);
            match (p0i, p0o, p1i, p1o) {
                (Option::Some(s0i), Option::Some(s0o), Option::Some(s1i), Option::Some(s1o))
                    if self.corner_valid(s0i) && self.corner_valid(s0o) && self.corner_valid(s1i)
                    && self.corner_valid(s1o) => {
                    self.draw_line_between_with_depth(
                        s0i.x,
                        s0i.y,
                        s0i.z,
                        s0o.x,
                        s0o.y,
                        s0o.z,
                        color,
                    );
                    self.draw_line_between_with_depth(
                        s1i.x,
                        s1i.y,
                        s1i.z,
                        s1o.x,
                        s1o.y,
                        s1o.z,
                        color,
                    );
                    self.draw_line_between_with_depth(
                        s0o.x,
                        s0o.y,
                        s0o.z,
                        s1o.x,
                        s1o.y,
                        s1o.z,
                        color,
                    );
                    self.draw_line_between_with_depth(
                        s0i.x,
                        s0i.y,
                        s0i.z,
                        s1i.x,
                        s1i.y,
                        s1i.z,
                        color,
                    );
                    proof {
                        assert forall|q: int| 0 <= q < pre.depth@.len()
                            implies #[trigger] self.depth@[q] <= pre.depth@[q] by {
                            assert(snap.depth@[q] <= pre.depth@[q]);
                        }
                        assert(crate::raster::fb_of(*self) == spec_ring_seg(
                            crate::raster::fb_of(snap),
                            w,
                            h,
                            center,
                            inner_r as int,
                            outer_r as int,
                            *cam,
                            color,
                            seg as int,
                        ));
                    }
                },
                _ => {
                    proof {
                        assert(crate::raster::fb_of(*self) == spec_ring_seg(
                            crate::raster::fb_of(snap),
                            w,
                            h,
                            center,
                            inner_r as int,
                            outer_r as int,
                            *cam,
                            color,
                            seg as int,
                        ));
                    }
                },
            }
            seg = seg + 1;
        }
    }

    /// Whether a projected ring corner lies within 1000 pixels of the
    /// frame on both axes.
    fn corner_valid(&self, s: ScreenV) -> (r: bool)
        requires
            self.wf(),
        ensures
            r == ring_corner_valid(s, self.width as int, self.height as int),
    {
        -65536000 <= s.x && s.x <= (self.width as i64 + 1000) * 65536 && -65536000 <= s.y && s.y
            <= (self.height as i64 + 1000) * 65536
    }

    /// Projects one ring corner: the world point at `angle` and `radius`
    /// around `center` in the XZ plane, through the camera.
    fn ring_point(&self, center: Vec3Fx, radius: i64, angle: i64, cam: &Camera) -> (r: Option<
        ScreenV,
    >)
        requires
            self.wf(),
            cam_wf(*cam),
            vec_bounded(center, 0xFFF_0000),
            0 <= radius <= 0xFFF_0000,
        ensures
            r == spec_ring_corner(
                self.width as int,
                self.height as int,
                center,
                radius as int,
                angle as int,
                *cam,
            ),
            r matches Option::Some(s) ==> abs_int(s.x as int) <= crate::raster::SCREEN_LIMIT as int
                && abs_int(s.y as int) <= crate::raster::SCREEN_LIMIT as int && 0 <= s.z <= 65536,
    {
        let ca = crate::fixed::cos_bau(angle);
        let sa = crate::fixed::sin_bau(angle);
        proof {
            crate::fixed::lemma_mul_fp_le(radius as int, ca as int, 0xFFF_0000, 65536);
            crate::fixed::lemma_mul_fp_le(radius as int, sa as int, 0xFFF_0000, 65536);
        }
        let world = Vec3Fx {
            x: center.x + mul_fp(radius, ca),
            y: center.y,
            z: center.z + mul_fp(radius, sa),
        };
        let view = cam.view_matrix();
        let proj = cam.proj_matrix();
        let vp = crate::mat4::mat_mul(proj, view, Ghost(0x200_0000int), Ghost(0x2_0000_0000int));
        self.project_vertex(world, &vp)
    }
}


/// The skybox color of pixel `(x, y)`: a ray is rebuilt from the camera
/// basis and field of view through the pixel center, the cubemap sampled
/// along it and quantized; `None` when the ray degenerates to the zero
/// vector (only possible for a degenerate camera frame).
pub open spec fn spec_sky_pixel(
    sky: crate::skybox::Skybox,
    cam: Camera,
    w: int,
    h: int,
    x: int,
    y: int,
) -> Option<Rgba> {
    let f = cam.spec_forward();
    let u0 = cam.spec_up();
    let rt = crate::vec3::spec_normalize(crate::vec3::spec_cross(f, u0));
    let uo = crate::vec3::spec_normalize(crate::vec3::spec_cross(rt, f));
    let tanf = spec_div_fp(
        crate::fixed::spec_sin(cam.fov_y as int / 2),
        crate::fixed::spec_cos(cam.fov_y as int / 2),
    );
    let ndc_x = tdiv((2 * x + 1) * 65536, w) - 65536;
    let ndc_y = 65536 - tdiv((2 * y + 1) * 65536, h);
    let cam_y = spec_mul_fp(ndc_y, tanf);
    let cam_x = spec_mul_fp(spec_mul_fp(ndc_x, tanf), cam.aspect as int);
    let dir = Vec3Fx {
        x: (spec_mul_fp(rt.x as int, cam_x) + spec_mul_fp(uo.x as int, cam_y) + f.x) as i64,
        y: (spec_mul_fp(rt.y as int, cam_x) + spec_mul_fp(uo.y as int, cam_y) + f.y) as i64,
        z: (spec_mul_fp(rt.z as int, cam_x) + spec_mul_fp(uo.z as int, cam_y) + f.z) as i64,
    };
    let dirn = crate::vec3::spec_normalize(dir);
    if dirn.x == 0 && dirn.y == 0 && dirn.z == 0 {
        Option::None
    } else {
        let col = sky.spec_sample(dirn);
        Option::Some(
            Rgba {
                r: crate::shade::spec_quant(col.x as int) as u8,
                g: crate::shade::spec_quant(col.y as int) as u8,
                b: crate::shade::spec_quant(col.z as int) as u8,
                a: 255,
            },
        )
    }
}

impl SoftwareRenderer {
    /// Paints the skybox background: for every frame pixel a world ray is
    /// reconstructed from the camera basis and field of view, the cubemap
    /// sampled along it, and the color written unconditionally — the
    /// first, depth-ignoring pass of a frame.
    #[verifier::rlimit(100)]
    pub fn draw_skybox(&mut self, cam: &Camera, sky: &crate::skybox::Skybox)
        requires
            old(self).wf(),
            cam_wf(*cam),
            sky.wf(),
            256 <= crate::fixed::spec_cos(cam.fov_y as int / 2) <= 65536,
            cam.aspect <= 0x10_0000,
        ensures
            final(self).wf(),
            final(self).width == old(self).width,
            final(self).height == old(self).height,
            final(self).depth@ == old(self).depth@,
            forall|px: int, py: int|
                old(self).in_frame(px, py) ==> match spec_sky_pixel(
                    *sky,
                    *cam,
                    old(self).width as int,
                    old(self).height as int,
                    px,
                    py,
                ) {
                    Option::Some(c) => #[trigger] rgba_at(
                        final(self).color@,
                        old(self).idx(px, py),
                    ) == c,
                    Option::None => rgba_at(final(self).color@, old(self).idx(px, py)) == rgba_at(
                        old(self).color@,
                        old(self).idx(px, py),
                    ),
                },
    {
        let ghost pre = *self;
        let ghost w = pre.width as int;
        let ghost h = pre.height as int;
        let f = cam.forward();
        let u0 = cam.up();
        let c0 = f.cross(u0);
        proof {
            crate::camera::lemma_cross_unit_bound(f, u0);
        }
        let rt = c0.normalize();
        let c1 = rt.cross(f);
        proof {
            crate::camera::lemma_cross_unit_bound(rt, f);
        }
        let uo = c1.normalize();
        let sv = crate::fixed::sin_bau(cam.fov_y / 2);
        let cv = crate::fixed::cos_bau(cam.fov_y / 2);
        proof {
            assert(abs_int(sv as int * 65536) <= cv as int * 0x100_0000) by (nonlinear_arith)
                requires
                    -65536 <= sv <= 65536,
                    256 <= cv,
            ;
            crate::raster::lemma_tdiv_mag(sv as int * 65536, cv as int, 0x100_0000);
        }
        let tanf = div_fp(sv, cv);
        let total = self.width * self.height;
        proof {
            crate::vec3::lemma_mul_abs_bound(pre.width as int, pre.height as int, 8192, 8192);
        }
        let mut p: usize = 0;
        while p < total
            invariant
                self.wf(),
                self.width == pre.width,
                self.height == pre.height,
                self.depth@ == pre.depth@,
                pre.wf(),
                cam_wf(*cam),
                sky.wf(),
                256 <= crate::fixed::spec_cos(cam.fov_y as int / 2) <= 65536,
                cam.aspect <= 0x10_0000,
                total == pre.width * pre.height,
                total <= 8192 * 8192,
                p <= total,
                w == pre.width as int,
                h == pre.height as int,
                f == cam.spec_forward(),
                crate::vec3::vec_bounded(f, 65536),
                rt == crate::vec3::spec_normalize(crate::vec3::spec_cross(f, cam.spec_up())),
                crate::vec3::vec_bounded(rt, 65536),
                uo == crate::vec3::spec_normalize(crate::vec3::spec_cross(rt, f)),
                crate::vec3::vec_bounded(uo, 65536),
                tanf == spec_div_fp(
                    crate::fixed::spec_sin(cam.fov_y as int / 2),
                    crate::fixed::spec_cos(cam.fov_y as int / 2),
                ),
                abs_int(tanf as int) <= 0x100_0000,
                forall|q: int|
                    0 <= q < p ==> match spec_sky_pixel(*sky, *cam, w, h, q % w, q / w) {
                        Option::Some(c) => #[trigger] rgba_at(self.color@, q) == c,
                        Option::None => rgba_at(self.color@, q) == rgba_at(pre.color@, q),
                    },
                forall|q: int|
                    p <= q < total ==> #[trigger] rgba_at(self.color@, q) == rgba_at(
                        pre.color@,
                        q,
                    ),
            decreases total - p,
        {
            let x = p % self.width;
            let y = p / self.width;
            proof {
                vstd::arithmetic::div_mod::lemma_mod_division_less_than_divisor(
                    p as int,
                    pre.width as int,
                );
                vstd::arithmetic::div_mod::lemma_div_pos_is_pos(p as int, pre.width as int);
                vstd::arithmetic::div_mod::lemma_multiply_divide_lt(
                    p as int,
                    pre.width as int,
                    pre.height as int,
                );
                vstd::arithmetic::div_mod::lemma_fundamental_div_mod(p as int, pre.width as int);
                assert(pre.idx(x as int, y as int) == p as int) by {
                    vstd::arithmetic::mul::lemma_mul_is_commutative(y as int, pre.width as int);
                }
                crate::raster::lemma_tdiv_mag(
                    (2 * x as int + 1) * 65536,
                    pre.width as int,
                    131072,
                );
                assert(abs_int((2 * x as int + 1) * 65536) <= pre.width as int * 131072)
                    by (nonlinear_arith)
                    requires
                        0 <= x as int && (x as int) < pre.width as int,
                ;
                crate::raster::lemma_tdiv_mag(
                    (2 * y as int + 1) * 65536,
                    pre.height as int,
                    131072,
                );
                assert(abs_int((2 * y as int + 1) * 65536) <= pre.height as int * 131072)
                    by (nonlinear_arith)
                    requires
                        0 <= y as int && (y as int) < pre.height as int,
                ;
                vstd::arithmetic::div_mod::lemma_div_pos_is_pos(
                    (2 * x as int + 1) * 65536,
                    pre.width as int,
                );
                vstd::arithmetic::div_mod::lemma_div_pos_is_pos(
                    (2 * y as int + 1) * 65536,
                    pre.height as int,
                );
            }
            let ndc_x = ((2 * (x as i64) + 1) * 65536) / (self.width as i64) - 65536;
            let ndc_y = 65536 - ((2 * (y as i64) + 1) * 65536) / (self.height as i64);
            let cam_y = mul_g(ndc_y, tanf, Ghost(65536int), Ghost(0x100_0000int));
            let cx0 = mul_g(ndc_x, tanf, Ghost(65536int), Ghost(0x100_0000int));
            let cam_x = mul_g(cx0, cam.aspect, Ghost(0x100_0000int), Ghost(0x10_0000int));
            proof {
                crate::fixed::lemma_mul_fp_le(rt.x as int, cam_x as int, 65536, 0x1000_0000);
                crate::fixed::lemma_mul_fp_le(rt.y as int, cam_x as int, 65536, 0x1000_0000);
                crate::fixed::lemma_mul_fp_le(rt.z as int, cam_x as int, 65536, 0x1000_0000);
                crate::fixed::lemma_mul_fp_le(uo.x as int, cam_y as int, 65536, 0x100_0000);
                crate::fixed::lemma_mul_fp_le(uo.y as int, cam_y as int, 65536, 0x100_0000);
                crate::fixed::lemma_mul_fp_le(uo.z as int, cam_y as int, 65536, 0x100_0000);
            }
            let dir = rt.scale(cam_x).add(uo.scale(cam_y)).add(f);
            let dirn = dir.normalize();
            let ghost snap = *self;
            if dirn.x == 0 && dirn.y == 0 && dirn.z == 0 {
            } else {
                let col = sky.sample(dirn);
                let out = Rgba {
                    r: crate::shade::quant(col.x),
                    g: crate::shade::quant(col.y),
                    b: crate::shade::quant(col.z),
                    a: 255,
                };
                self.put_pixel_bg(x as i64, y as i64, out);
            }
            proof {
                assert forall|q: int| 0 <= q < p + 1 implies match spec_sky_pixel(
                    *sky,
                    *cam,
                    w,
                    h,
                    q % w,
                    q / w,
                ) {
                    Option::Some(c) => #[trigger] rgba_at(self.color@, q) == c,
                    Option::None => rgba_at(self.color@, q) == rgba_at(pre.color@, q),
                } by {
                    vstd::arithmetic::div_mod::lemma_mod_division_less_than_divisor(q, w);
                    vstd::arithmetic::div_mod::lemma_div_pos_is_pos(q, w);
                    vstd::arithmetic::div_mod::lemma_multiply_divide_lt(q, w, h);
                    crate::framebuffer::lemma_idx_in_range(w, h, q % w, q / w);
                    if q < p {
                        vstd::arithmetic::div_mod::lemma_fundamental_div_mod(q, w);
                        assert((q / w) * w + (q % w) == q) by {
                            vstd::arithmetic::mul::lemma_mul_is_commutative(q / w, w);
                        }
                        assert(!(q % w == x as int && q / w == y as int));
                        lemma_bg_other(pre, snap, *self, x as int, y as int, q % w, q / w);
                    } else {
                        vstd::arithmetic::div_mod::lemma_fundamental_div_mod(q, w);
                        assert((q / w) * w + (q % w) == q) by {
                            vstd::arithmetic::mul::lemma_mul_is_commutative(q / w, w);
                        }
                        assert(q % w == x as int && q / w == y as int) by {
                            vstd::arithmetic::div_mod::lemma_fundamental_div_mod_converse(
                                q,
                                w,
                                y as int,
                                x as int,
                            );
                        }
                    }
                }
                assert forall|q: int| p + 1 <= q < total implies #[trigger] rgba_at(
                    self.color@,
                    q,
                ) == rgba_at(pre.color@, q) by {
                    vstd::arithmetic::div_mod::lemma_mod_division_less_than_divisor(q, w);
                    vstd::arithmetic::div_mod::lemma_div_pos_is_pos(q, w);
                    vstd::arithmetic::div_mod::lemma_multiply_divide_lt(q, w, h);
                    crate::framebuffer::lemma_idx_in_range(w, h, q % w, q / w);
                    vstd::arithmetic::div_mod::lemma_fundamental_div_mod(q, w);
                    assert((q / w) * w + (q % w) == q) by {
                        vstd::arithmetic::mul::lemma_mul_is_commutative(q / w, w);
                    }
                    assert(!(q % w == x as int && q / w == y as int));
                    lemma_bg_other(pre, snap, *self, x as int, y as int, q % w, q / w);
                }
            }
            p = p + 1;
        }
        proof {
            assert forall|px: int, py: int| pre.in_frame(px, py) implies match spec_sky_pixel(
                *sky,
                *cam,
                w,
                h,
                px,
                py,
            ) {
                Option::Some(c) => #[trigger] rgba_at(self.color@, pre.idx(px, py)) == c,
                Option::None => rgba_at(self.color@, pre.idx(px, py)) == rgba_at(
                    pre.color@,
                    pre.idx(px, py),
                ),
            } by {
                let q = py * w + px;
                crate::framebuffer::lemma_idx_in_range(w, h, px, py);
                vstd::arithmetic::div_mod::lemma_fundamental_div_mod_converse(q, w, py, px);
            }
        }
    }
}

/// An unconditional background write at one pixel leaves every other
/// pixel's color bytes unchanged.
proof fn lemma_bg_other(
    pre: SoftwareRenderer,
    snap: SoftwareRenderer,
    cur: SoftwareRenderer,
    x: int,
    y: int,
    px: int,
    py: int,
)
    requires
        pre.wf(),
        snap.wf(),
        snap.width == pre.width,
        snap.height == pre.height,
        pre.in_frame(px, py),
        !(px == x && py == y),
        cur.color@ == snap.color@ || (pre.in_frame(x, y) && exists|c: Rgba|
            cur.color@ == #[trigger] crate::framebuffer::write_rgba(
                snap.color@,
                4 * pre.idx(x, y),
                c,
            )),
    ensures
        rgba_at(cur.color@, pre.idx(px, py)) == rgba_at(snap.color@, pre.idx(px, py)),
{
    let j = pre.idx(px, py);
    crate::framebuffer::lemma_idx_in_range(pre.width as int, pre.height as int, px, py);
    if cur.color@ != snap.color@ {
        let i = pre.idx(x, y);
        crate::framebuffer::lemma_idx_in_range(pre.width as int, pre.height as int, x, y);
        crate::raster::lemma_idx_injective(pre.width as int, x, y, px, py);
        let c = choose|c: Rgba|
            cur.color@ == #[trigger] crate::framebuffer::write_rgba(snap.color@, 4 * i, c);
        assert(cur.color@[4 * j] == snap.color@[4 * j]);
        assert(cur.color@[4 * j + 1] == snap.color@[4 * j + 1]);
        assert(cur.color@[4 * j + 2] == snap.color@[4 * j + 2]);
        assert(cur.color@[4 * j + 3] == snap.color@[4 * j + 3]);
    }
}

} // verus!
