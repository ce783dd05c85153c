//! CPU-side textures: an RGB byte array sampled by nearest neighbour at
//! fixed-point texture coordinates in the unit square.

use vstd::prelude::*;
use crate::fixed::tdiv;
use crate::shade::spec_chan;
use crate::vec3::Vec3Fx;

verus! {

/// The largest texture dimension this renderer accepts.
pub const MAX_TEX: usize = 32768;

/// An RGB texture held in CPU memory; any alpha channel was dropped on
/// ingestion.
pub struct TextureCPU {
    pub w: usize,
    pub h: usize,
    pub data: Vec<u8>,
}

impl TextureCPU {
    /// Dimensions in range, three bytes per texel.
    pub open spec fn wf(self) -> bool {
        &&& 1 <= self.w <= MAX_TEX
        &&& 1 <= self.h <= MAX_TEX
        &&& self.data.len() == self.w * self.h * 3
    }

    /// The texel row or column that the fixed-point coordinate `c` in
    /// `[0, FP_ONE]` selects on an axis with `n` texels.
    pub open spec fn texel_of(c: int, n: int) -> int {
        tdiv(c * (n - 1), 65536)
    }

    /// The color of the texture under nearest sampling at `(u, v)`, with
    /// each byte channel widened to fixed point.
    pub open spec fn spec_sample(self, u: int, v: int) -> Vec3Fx {
        let uu = TextureCPU::texel_of(u, self.w as int);
        let vv = TextureCPU::texel_of(v, self.h as int);
        let base = (vv * self.w + uu) * 3;
        Vec3Fx {
            x: spec_chan(self.data@[base]) as i64,
            y: spec_chan(self.data@[base + 1]) as i64,
            z: spec_chan(self.data@[base + 2]) as i64,
        }
    }

    /// Builds a texture over an RGB byte array of matching size.
    pub fn new(w: usize, h: usize, data: Vec<u8>) -> (t: TextureCPU)
        requires
            1 <= w <= MAX_TEX,
            1 <= h <= MAX_TEX,
            data.len() == w * h * 3,
        ensures
            t.wf(),
            t.w == w,
            t.h == h,
            t.data@ == data@,
    {
        TextureCPU { w, h, data }
    }

    /// Converts a host-decoded RGBA8 image to the renderer's RGB
    /// texture, dropping the alpha byte of every texel.
    pub fn from_rgba(w: usize, h: usize, rgba: &Vec<u8>) -> (t: TextureCPU)
        requires
            1 <= w <= MAX_TEX,
            1 <= h <= MAX_TEX,
            rgba.len() == w * h * 4,
        ensures
            t.wf(),
            t.w == w,
            t.h == h,
            forall|p: int|
                0 <= p < w * h ==> #[trigger] rgb_texel(t.data@, p) == (
                    rgba@[4 * p],
                    rgba@[4 * p + 1],
                    rgba@[4 * p + 2],
                ),
    {
        let total = w * h;
        let mut data: Vec<u8> = Vec::new();
        let mut p: usize = 0;
        while p < total
            invariant
                total == w * h,
                rgba.len() == w * h * 4,
                p <= total,
                data.len() == 3 * p,
                forall|q: int|
                    0 <= q < p ==> #[trigger] rgb_texel(data@, q) == (
                        rgba@[4 * q],
                        rgba@[4 * q + 1],
                        rgba@[4 * q + 2],
                    ),
            decreases total - p,
        {
            let base = p * 4;
            let ghost prev = data@;
            data.push(rgba[base]);
            data.push(rgba[base + 1]);
            data.push(rgba[base + 2]);
            proof {
                assert forall|q: int| 0 <= q < p + 1 implies #[trigger] rgb_texel(data@, q) == (
                    rgba@[4 * q],
                    rgba@[4 * q + 1],
                    rgba@[4 * q + 2],
                ) by {
                    if q < p {
                        assert(rgb_texel(prev, q) == (
                            rgba@[4 * q],
                            rgba@[4 * q + 1],
                            rgba@[4 * q + 2],
                        ));
                        assert(data@[3 * q] == prev[3 * q]);
                        assert(data@[3 * q + 1] == prev[3 * q + 1]);
                        assert(data@[3 * q + 2] == prev[3 * q + 2]);
                    } else {
                        assert(data@[3 * q] == rgba@[4 * q]);
                        assert(data@[3 * q + 1] == rgba@[4 * q + 1]);
                        assert(data@[3 * q + 2] == rgba@[4 * q + 2]);
                    }
                }
            }
            p = p + 1;
        }
        proof {
            crate::vec3::lemma_mul_abs_bound(w as int, h as int, 32768, 32768);
        }
        TextureCPU { w, h, data }
    }

    /// Nearest-sample at fixed-point `(u, v)` in the unit square,
    /// returning the texel's RGB channels in fixed point.
    pub fn sample(&self, u: i64, v: i64) -> (r: Vec3Fx)
        requires
            self.wf(),
            0 <= u <= 65536,
            0 <= v <= 65536,
        ensures
            r == self.spec_sample(u as int, v as int),
    {
        proof {
            lemma_texel_range(u as int, self.w as int);
            lemma_texel_range(v as int, self.h as int);
        }
        let uu = ((u as usize) * (self.w - 1)) / 65536;
        let vv = ((v as usize) * (self.h - 1)) / 65536;
        proof {
            crate::framebuffer::lemma_idx_in_range(self.w as int, self.h as int, uu as int,
                vv as int);
            assert(3 * (vv * self.w + uu) + 2 < self.w * self.h * 3) by (nonlinear_arith)
                requires
                    0 <= vv * self.w + uu < self.w * self.h,
            ;
        }
        let base = (vv * self.w + uu) * 3;
        Vec3Fx {
            x: crate::shade::chan(self.data[base]),
            y: crate::shade::chan(self.data[base + 1]),
            z: crate::shade::chan(self.data[base + 2]),
        }
    }
}

/// The RGB bytes of texel `p` of an RGB byte array.
pub open spec fn rgb_texel(s: Seq<u8>, p: int) -> (u8, u8, u8) {
    (s[3 * p], s[3 * p + 1], s[3 * p + 2])
}

/// A unit-interval coordinate selects a texel index in `[0, n)`.
pub proof fn lemma_texel_range(c: int, n: int)
    requires
        0 <= c <= 65536,
        1 <= n,
    ensures
        0 <= TextureCPU::texel_of(c, n) < n,
        TextureCPU::texel_of(c, n) == (c * (n - 1)) / 65536,
{
    let p = c * (n - 1);
    assert(0 <= p <= 65536 * (n - 1)) by (nonlinear_arith)
        requires
            0 <= c <= 65536,
            1 <= n,
            p == c * (n - 1),
    ;
    vstd::arithmetic::div_mod::lemma_div_pos_is_pos(p, 65536);
    vstd::arithmetic::div_mod::lemma_div_is_ordered(p, 65536 * (n - 1), 65536);
    vstd::arithmetic::div_mod::lemma_div_multiples_vanish(n - 1, 65536);
}

} // verus!
