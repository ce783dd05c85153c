//! The CPU-owned frame buffer: an RGBA8 color array and a fixed-point
//! depth array sharing one pixel indexing, with the depth-tested,
//! unconditional and additive pixel writes, the per-frame clear, and the
//! nearest-sample blit that resamples the buffer to a host surface.

use vstd::prelude::*;

verus! {

/// An RGBA color, one byte per channel.
#[derive(Clone, Copy, Debug, PartialEq, Eq, Structural)]
pub struct Rgba {
    pub r: u8,
    pub g: u8,
    pub b: u8,
    pub a: u8,
}

/// The far-plane depth sentinel: 1.0 in 16.16 fixed point.  A depth-tested
/// write succeeds only on a depth strictly below the stored entry.
pub const DEPTH_ONE: i64 = 65536;

/// The largest frame or display dimension this renderer accepts.
pub const MAX_DIM: usize = 8192;

/// The software renderer's pixel store: `color` holds `width * height`
/// RGBA8 pixels, `depth` one fixed-point entry per pixel (small = near).
pub struct SoftwareRenderer {
    pub width: usize,
    pub height: usize,
    pub color: Vec<u8>,
    pub depth: Vec<i64>,
}

/// The RGBA pixel stored at pixel index `i` of a color byte array.
pub open spec fn rgba_at(s: Seq<u8>, i: int) -> Rgba {
    Rgba { r: s[4 * i], g: s[4 * i + 1], b: s[4 * i + 2], a: s[4 * i + 3] }
}

/// Four bytes of `s` starting at `base` replaced by the channels of `c`.
pub open spec fn write_rgba(s: Seq<u8>, base: int, c: Rgba) -> Seq<u8> {
    s.update(base, c.r).update(base + 1, c.g).update(base + 2, c.b).update(base + 3, c.a)
}

/// Byte-channel addition saturating at 255.
pub open spec fn sat_add(a: int, b: int) -> int {
    if a + b > 255 {
        255
    } else {
        a + b
    }
}

impl SoftwareRenderer {
    /// Both arrays sized to the same pixel grid, dimensions in range.
    pub open spec fn wf(self) -> bool {
        &&& 1 <= self.width <= MAX_DIM
        &&& 1 <= self.height <= MAX_DIM
        &&& self.color.len() == self.width * self.height * 4
        &&& self.depth.len() == self.width * self.height
    }

    /// Whether `(x, y)` lies on the pixel grid.
    pub open spec fn in_frame(self, x: int, y: int) -> bool {
        0 <= x < self.width && 0 <= y < self.height
    }

    /// The linear index of pixel `(x, y)`.
    pub open spec fn idx(self, x: int, y: int) -> int {
        y * self.width + x
    }

    /// A new renderer with all color channels zero and every depth entry
    /// at the far sentinel.
    pub fn new(width: usize, height: usize) -> (r: SoftwareRenderer)
        requires
            1 <= width <= MAX_DIM,
            1 <= height <= MAX_DIM,
        ensures
            r.wf(),
            r.width == width,
            r.height == height,
            forall|i: int| 0 <= i < r.color.len() ==> r.color@[i] == 0u8,
            forall|i: int| 0 <= i < r.depth.len() ==> r.depth@[i] == DEPTH_ONE,
    {
        proof {
            crate::vec3::lemma_mul_abs_bound(width as int, height as int, 8192, 8192);
        }
        let size = width * height;
        let color = vec![0u8; size * 4];
        let depth = vec![DEPTH_ONE; size];
        SoftwareRenderer { width, height, color, depth }
    }

    /// Sets every color pixel to `c` and every depth entry back to the far
    /// sentinel 1.0.
    pub fn clear(&mut self, c: Rgba)
        requires
            old(self).wf(),
        ensures
            final(self).wf(),
            final(self).width == old(self).width,
            final(self).height == old(self).height,
            forall|i: int|
                0 <= i < final(self).depth.len() ==> final(self).depth@[i] == DEPTH_ONE,
            forall|i: int|
                0 <= i < old(self).width * old(self).height ==> #[trigger] rgba_at(
                    final(self).color@,
                    i,
                ) == c,
    {
        let size = self.width * self.height;
        let mut i: usize = 0;
        while i < size
            invariant
                self.wf(),
                self.width == old(self).width,
                self.height == old(self).height,
                size == self.width * self.height,
                i <= size,
                forall|j: int| 0 <= j < i ==> self.depth@[j] == DEPTH_ONE,
                forall|j: int| 0 <= j < i ==> #[trigger] rgba_at(self.color@, j) == c,
            decreases size - i,
        {
            let ghost prev = self.color@;
            let base = i * 4;
            self.color[base] = c.r;
            self.color[base + 1] = c.g;
            self.color[base + 2] = c.b;
            self.color[base + 3] = c.a;
            self.depth[i] = DEPTH_ONE;
            proof {
                assert forall|j: int| 0 <= j < i + 1 implies #[trigger] rgba_at(self.color@, j)
                    == c by {
                    if j < i {
                        assert(rgba_at(prev, j) == c);
                        assert(self.color@[4 * j] == prev[4 * j]);
                        assert(self.color@[4 * j + 1] == prev[4 * j + 1]);
                        assert(self.color@[4 * j + 2] == prev[4 * j + 2]);
                        assert(self.color@[4 * j + 3] == prev[4 * j + 3]);
                    } else {
                        assert(self.color@[4 * j] == c.r);
                        assert(self.color@[4 * j + 1] == c.g);
                        assert(self.color@[4 * j + 2] == c.b);
                        assert(self.color@[4 * j + 3] == c.a);
                    }
                }
            }
            i = i + 1;
        }
    }

    /// Depth-tested pixel write: stores `c` and `z` at `(x, y)` only when
    /// the pixel is on the grid and `z` is strictly nearer than the stored
    /// depth; otherwise the renderer is left untouched.
    pub fn put_pixel(&mut self, x: i64, y: i64, z: i64, c: Rgba)
        requires
            old(self).wf(),
        ensures
            final(self).wf(),
            final(self).width == old(self).width,
            final(self).height == old(self).height,
            if old(self).in_frame(x as int, y as int) && z < old(self).depth@[old(self).idx(
                x as int,
                y as int,
            )] {
                let i = old(self).idx(x as int, y as int);
                &&& final(self).depth@ == old(self).depth@.update(i, z)
                &&& final(self).color@ == write_rgba(old(self).color@, 4 * i, c)
            } else {
                *final(self) == *old(self)
            },
            forall|q: int|
                0 <= q < old(self).depth@.len() ==> #[trigger] final(self).depth@[q] <= old(
                    self,
                ).depth@[q],
    {
        if x < 0 || y < 0 || x >= self.width as i64 || y >= self.height as i64 {
            return ;
        }
        let xi = x as usize;
        let yi = y as usize;
        proof {
            lemma_idx_in_range(self.width as int, self.height as int, xi as int, yi as int);
        }
        let i = yi * self.width + xi;
        if z < self.depth[i] {
            self.depth[i] = z;
            let base = i * 4;
            self.color[base] = c.r;
            self.color[base + 1] = c.g;
            self.color[base + 2] = c.b;
            self.color[base + 3] = c.a;
        }
    }

    /// Overlay pixel write, used for the polyline passes drawn at the far
    /// sentinel: stores `c` and `z` when the pixel is on the grid and `z`
    /// is at or nearer than the stored depth — so a segment at the far
    /// sentinel shows over the untouched background but loses to any
    /// nearer geometry; otherwise the renderer is left untouched.
    pub fn put_pixel_overlay(&mut self, x: i64, y: i64, z: i64, c: Rgba)
        requires
            old(self).wf(),
        ensures
            final(self).wf(),
            final(self).width == old(self).width,
            final(self).height == old(self).height,
            if old(self).in_frame(x as int, y as int) && z <= old(self).depth@[old(self).idx(
                x as int,
                y as int,
            )] {
                let i = old(self).idx(x as int, y as int);
                &&& final(self).depth@ == old(self).depth@.update(i, z)
                &&& final(self).color@ == write_rgba(old(self).color@, 4 * i, c)
            } else {
                *final(self) == *old(self)
            },
            forall|q: int|
                0 <= q < old(self).depth@.len() ==> #[trigger] final(self).depth@[q] <= old(
                    self,
                ).depth@[q],
    {
        if x < 0 || y < 0 || x >= self.width as i64 || y >= self.height as i64 {
            return ;
        }
        let xi = x as usize;
        let yi = y as usize;
        proof {
            lemma_idx_in_range(self.width as int, self.height as int, xi as int, yi as int);
        }
        let i = yi * self.width + xi;
        if z <= self.depth[i] {
            self.depth[i] = z;
            let base = i * 4;
            self.color[base] = c.r;
            self.color[base + 1] = c.g;
            self.color[base + 2] = c.b;
            self.color[base + 3] = c.a;
        }
    }

    /// Unconditional pixel write, used for the background layer: stores
    /// `c` at `(x, y)` ignoring and leaving the depth buffer; off-grid
    /// coordinates are a no-op.
    pub fn put_pixel_bg(&mut self, x: i64, y: i64, c: Rgba)
        requires
            old(self).wf(),
        ensures
            final(self).wf(),
            final(self).width == old(self).width,
            final(self).height == old(self).height,
            final(self).depth@ == old(self).depth@,
            if old(self).in_frame(x as int, y as int) {
                final(self).color@ == write_rgba(
                    old(self).color@,
                    4 * old(self).idx(x as int, y as int),
                    c,
                )
            } else {
                final(self).color@ == old(self).color@
            },
    {
        if x < 0 || y < 0 || x >= self.width as i64 || y >= self.height as i64 {
            return ;
        }
        let xi = x as usize;
        let yi = y as usize;
        proof {
            lemma_idx_in_range(self.width as int, self.height as int, xi as int, yi as int);
        }
        let i = yi * self.width + xi;
        let base = i * 4;
        self.color[base] = c.r;
        self.color[base + 1] = c.g;
        self.color[base + 2] = c.b;
        self.color[base + 3] = c.a;
    }

    /// Additive blend into the color buffer, saturating at 255 per
    /// channel, ignoring and leaving the depth buffer; off-grid
    /// coordinates are a no-op.
    pub fn add_blend_pixel(&mut self, x: i64, y: i64, add: Rgba)
        requires
            old(self).wf(),
        ensures
            final(self).wf(),
            final(self).width == old(self).width,
            final(self).height == old(self).height,
            final(self).depth@ == old(self).depth@,
            if old(self).in_frame(x as int, y as int) {
                final(self).color@ == blend_rgba(
                    old(self).color@,
                    4 * old(self).idx(x as int, y as int),
                    add,
                )
            } else {
                final(self).color@ == old(self).color@
            },
    {
        if x < 0 || y < 0 || x >= self.width as i64 || y >= self.height as i64 {
            return ;
        }
        let xi = x as usize;
        let yi = y as usize;
        proof {
            lemma_idx_in_range(self.width as int, self.height as int, xi as int, yi as int);
        }
        let i = yi * self.width + xi;
        let base = i * 4;
        let r = sat_add_u8(self.color[base], add.r);
        let g = sat_add_u8(self.color[base + 1], add.g);
        let b = sat_add_u8(self.color[base + 2], add.b);
        let a = sat_add_u8(self.color[base + 3], add.a);
        self.color[base] = r;
        self.color[base + 1] = g;
        self.color[base + 2] = b;
        self.color[base + 3] = a;
    }

    /// Nearest-sample resampling of the frame buffer onto a `dst_w` by
    /// `dst_h` RGBA8 surface: destination pixel `(dx, dy)` receives source
    /// pixel `(dx * width / dst_w, dy * height / dst_h)`.
    pub fn blit_to(&self, dst_w: usize, dst_h: usize) -> (out: Vec<u8>)
        requires
            self.wf(),
            1 <= dst_w <= MAX_DIM,
            1 <= dst_h <= MAX_DIM,
        ensures
            out.len() == dst_w * dst_h * 4,
            forall|q: int|
                0 <= q < dst_w * dst_h ==> #[trigger] rgba_at(out@, q) == rgba_at(
                    self.color@,
                    self.blit_src_idx(dst_w as int, dst_h as int, q),
                ),
            forall|dx: int, dy: int|
                0 <= dx < dst_w && 0 <= dy < dst_h ==> {
                    let si = (dy * self.height as int / dst_h as int) * self.width + (dx
                        * self.width as int / dst_w as int);
                    #[trigger] rgba_at(out@, dy * dst_w + dx) == rgba_at(self.color@, si)
                },
    {
        proof {
            crate::vec3::lemma_mul_abs_bound(dst_w as int, dst_h as int, 8192, 8192);
        }
        let total = dst_w * dst_h;
        let mut out: Vec<u8> = Vec::new();
        let mut p: usize = 0;
        while p < total
            invariant
                self.wf(),
                1 <= dst_w <= MAX_DIM,
                1 <= dst_h <= MAX_DIM,
                total == dst_w * dst_h,
                total <= 8192 * 8192,
                p <= total,
                out.len() == 4 * p,
                forall|q: int|
                    0 <= q < p ==> #[trigger] rgba_at(out@, q) == rgba_at(
                        self.color@,
                        self.blit_src_idx(dst_w as int, dst_h as int, q),
                    ),
            decreases total - p,
        {
            let dy = p / dst_w;
            let dx = p % dst_w;
            proof {
                vstd::arithmetic::div_mod::lemma_mod_division_less_than_divisor(
                    p as int,
                    dst_w as int,
                );
                vstd::arithmetic::div_mod::lemma_div_pos_is_pos(p as int, dst_w as int);
                vstd::arithmetic::div_mod::lemma_multiply_divide_lt(
                    p as int,
                    dst_w as int,
                    dst_h as int,
                );
                crate::vec3::lemma_mul_abs_bound(dy as int, self.height as int, 8192, 8192);
                crate::vec3::lemma_mul_abs_bound(dx as int, self.width as int, 8192, 8192);
                lemma_scale_in_range(dy as int, self.height as int, dst_h as int);
                lemma_scale_in_range(dx as int, self.width as int, dst_w as int);
            }
            let sy = dy * self.height / dst_h;
            let sx = dx * self.width / dst_w;
            proof {
                lemma_idx_in_range(self.width as int, self.height as int, sx as int, sy as int);
            }
            let si = sy * self.width + sx;
            let base = si * 4;
            let ghost prev = out@;
            out.push(self.color[base]);
            out.push(self.color[base + 1]);
            out.push(self.color[base + 2]);
            out.push(self.color[base + 3]);
            proof {
                assert forall|q: int| 0 <= q < p + 1 implies #[trigger] rgba_at(out@, q)
                    == rgba_at(
                    self.color@,
                    self.blit_src_idx(dst_w as int, dst_h as int, q),
                ) by {
                    if q < p {
                        assert(rgba_at(prev, q) == rgba_at(
                            self.color@,
                            self.blit_src_idx(dst_w as int, dst_h as int, q),
                        ));
                        assert(out@[4 * q] == prev[4 * q]);
                        assert(out@[4 * q + 1] == prev[4 * q + 1]);
                        assert(out@[4 * q + 2] == prev[4 * q + 2]);
                        assert(out@[4 * q + 3] == prev[4 * q + 3]);
                    } else {
                        assert(out@[4 * q] == self.color@[4 * si]);
                        assert(out@[4 * q + 1] == self.color@[4 * si + 1]);
                        assert(out@[4 * q + 2] == self.color@[4 * si + 2]);
                        assert(out@[4 * q + 3] == self.color@[4 * si + 3]);
                        assert(si == self.blit_src_idx(dst_w as int, dst_h as int, q));
                    }
                }
            }
            p = p + 1;
        }
        proof {
            assert forall|dx: int, dy: int| 0 <= dx < dst_w && 0 <= dy < dst_h implies {
                let si = (dy * self.height as int / dst_h as int) * self.width + (dx
                    * self.width as int / dst_w as int);
                #[trigger] rgba_at(out@, dy * dst_w + dx) == rgba_at(self.color@, si)
            } by {
                let q = dy * dst_w + dx;
                lemma_idx_in_range(dst_w as int, dst_h as int, dx, dy);
                vstd::arithmetic::div_mod::lemma_fundamental_div_mod_converse(
                    q,
                    dst_w as int,
                    dy,
                    dx,
                );
            }
        }
        out
    }

    /// The source pixel index that destination pixel `q` of a `dst_w` by
    /// `dst_h` blit samples: nearest-neighbour scaling of its row and
    /// column.
    pub open spec fn blit_src_idx(self, dst_w: int, dst_h: int, q: int) -> int {
        ((q / dst_w) * self.height as int / dst_h) * self.width + ((q % dst_w) * self.width as int
            / dst_w)
    }
}

/// All four blended bytes at `base` in `s` replaced by the saturating sums
/// with the channels of `c`.
pub open spec fn blend_rgba(s: Seq<u8>, base: int, c: Rgba) -> Seq<u8> {
    s.update(base, sat_add(s[base] as int, c.r as int) as u8).update(
        base + 1,
        sat_add(s[base + 1] as int, c.g as int) as u8,
    ).update(base + 2, sat_add(s[base + 2] as int, c.b as int) as u8).update(
        base + 3,
        sat_add(s[base + 3] as int, c.a as int) as u8,
    )
}

/// Byte addition saturating at 255.
pub fn sat_add_u8(a: u8, b: u8) -> (r: u8)
    ensures
        r == sat_add(a as int, b as int),
{
    let s = a as u16 + b as u16;
    if s > 255 {
        255
    } else {
        s as u8
    }
}

/// On a `w` by `h` grid, the linear index of an in-range pixel is in range.
pub proof fn lemma_idx_in_range(w: int, h: int, x: int, y: int)
    requires
        0 <= x < w,
        0 <= y < h,
    ensures
        0 <= y * w + x < w * h,
        4 * (y * w + x) + 3 < w * h * 4,
{
    assert(0 <= y * w + x && (y * w + x) < w * h && 4 * (y * w + x) + 3 < w * h * 4)
        by (nonlinear_arith)
        requires
            0 <= x < w,
            0 <= y < h,
    ;
}

/// Scaling an index `d < dn` by `sn / dn` lands inside `[0, sn)`.
pub proof fn lemma_scale_in_range(d: int, sn: int, dn: int)
    requires
        0 <= d < dn,
        1 <= sn,
    ensures
        0 <= d * sn / dn < sn,
{
    vstd::arithmetic::div_mod::lemma_div_pos_is_pos(d * sn, dn);
    assert(d * sn <= (dn - 1) * sn) by (nonlinear_arith)
        requires
            d <= dn - 1,
            sn >= 1,
    ;
    vstd::arithmetic::div_mod::lemma_div_is_ordered(d * sn, (dn - 1) * sn, dn);
    assert((dn - 1) * sn < dn * sn) by (nonlinear_arith)
        requires
            sn >= 1,
    ;
    vstd::arithmetic::div_mod::lemma_multiply_divide_lt(d * sn, dn, sn);
}

} // verus!
