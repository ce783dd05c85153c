//! The cubemap skybox sampler: face selection by the direction's largest
//! absolute component (ties broken X over Y over Z), face-local UV from
//! the two minor axes under the standard cubemap sign convention, and
//! nearest sampling of the selected face.

use vstd::prelude::*;
use crate::fixed::{abs_int, spec_div_fp};
use crate::texture::TextureCPU;
use crate::vec3::Vec3Fx;

verus! {

/// The six cube faces.
#[derive(Clone, Copy, Debug, PartialEq, Eq, Structural)]
pub enum CubeFace {
    PosX,
    NegX,
    PosY,
    NegY,
    PosZ,
    NegZ,
}

/// A skybox: one texture per cube face.
pub struct Skybox {
    pub nx: TextureCPU,
    pub px: TextureCPU,
    pub ny: TextureCPU,
    pub py: TextureCPU,
    pub nz: TextureCPU,
    pub pz: TextureCPU,
}

/// The face whose axis has the largest absolute component of `d`, ties
/// resolved in favour of X, then Y, then Z.
pub open spec fn spec_face(d: Vec3Fx) -> CubeFace {
    let ax = abs_int(d.x as int);
    let ay = abs_int(d.y as int);
    let az = abs_int(d.z as int);
    if ax >= ay && ax >= az {
        if d.x > 0 {
            CubeFace::PosX
        } else {
            CubeFace::NegX
        }
    } else if ay >= az {
        if d.y > 0 {
            CubeFace::PosY
        } else {
            CubeFace::NegY
        }
    } else {
        if d.z > 0 {
            CubeFace::PosZ
        } else {
            CubeFace::NegZ
        }
    }
}

/// The face-local UV of `d` on its selected face, mapped to the
/// fixed-point unit square: `(minor / |major| + 1) / 2` on each axis.
pub open spec fn spec_face_uv(d: Vec3Fx) -> (int, int) {
    let ax = abs_int(d.x as int);
    let ay = abs_int(d.y as int);
    let az = abs_int(d.z as int);
    let raw = match spec_face(d) {
        CubeFace::PosX => (spec_div_fp(-d.z as int, ax), spec_div_fp(d.y as int, ax)),
        CubeFace::NegX => (spec_div_fp(d.z as int, ax), spec_div_fp(d.y as int, ax)),
        CubeFace::PosY => (spec_div_fp(d.x as int, ay), spec_div_fp(-d.z as int, ay)),
        CubeFace::NegY => (spec_div_fp(d.x as int, ay), spec_div_fp(d.z as int, ay)),
        CubeFace::PosZ => (spec_div_fp(d.x as int, az), spec_div_fp(d.y as int, az)),
        CubeFace::NegZ => (spec_div_fp(-d.x as int, az), spec_div_fp(d.y as int, az)),
    };
    (((raw.0 + 65536) / 2), ((raw.1 + 65536) / 2))
}

impl Skybox {
    /// All six face textures well-formed.
    pub open spec fn wf(self) -> bool {
        &&& self.nx.wf() && self.px.wf()
        &&& self.ny.wf() && self.py.wf()
        &&& self.nz.wf() && self.pz.wf()
    }

    /// The texture of a face.
    pub open spec fn spec_face_tex(self, f: CubeFace) -> TextureCPU {
        match f {
            CubeFace::PosX => self.px,
            CubeFace::NegX => self.nx,
            CubeFace::PosY => self.py,
            CubeFace::NegY => self.ny,
            CubeFace::PosZ => self.pz,
            CubeFace::NegZ => self.nz,
        }
    }

    /// The skybox color along direction `d`: the selected face sampled at
    /// the derived UV.
    pub open spec fn spec_sample(self, d: Vec3Fx) -> Vec3Fx {
        let uv = spec_face_uv(d);
        self.spec_face_tex(spec_face(d)).spec_sample(uv.0, uv.1)
    }

    /// Builds a skybox from its six face textures, in the order negative
    /// X, positive X, negative Y, positive Y, negative Z, positive Z.
    pub fn from_faces(
        nx: TextureCPU,
        px: TextureCPU,
        ny: TextureCPU,
        py: TextureCPU,
        nz: TextureCPU,
        pz: TextureCPU,
    ) -> (s: Skybox)
        requires
            nx.wf(),
            px.wf(),
            ny.wf(),
            py.wf(),
            nz.wf(),
            pz.wf(),
        ensures
            s.wf(),
            s == (Skybox { nx, px, ny, py, nz, pz }),
    {
        Skybox { nx, px, ny, py, nz, pz }
    }

    /// Samples the skybox along a nonzero direction.
    pub fn sample(&self, d: Vec3Fx) -> (r: Vec3Fx)
        requires
            self.wf(),
            crate::vec3::vec_bounded(d, 0x7FFF_FFFF),
            !(d.x == 0 && d.y == 0 && d.z == 0),
        ensures
            r == self.spec_sample(d),
    {
        let ax = if d.x < 0 {
            -d.x
        } else {
            d.x
        };
        let ay = if d.y < 0 {
            -d.y
        } else {
            d.y
        };
        let az = if d.z < 0 {
            -d.z
        } else {
            d.z
        };
        let (tex, ru, rv): (&TextureCPU, i64, i64) = if ax >= ay && ax >= az {
            proof {
                lemma_uv_unit(-d.z as int, ax as int);
                lemma_uv_unit(d.y as int, ax as int);
            }
            if d.x > 0 {
                (&self.px, crate::fixed::div_fp(-d.z, ax), crate::fixed::div_fp(d.y, ax))
            } else {
                (&self.nx, crate::fixed::div_fp(d.z, ax), crate::fixed::div_fp(d.y, ax))
            }
        } else if ay >= az {
            proof {
                lemma_uv_unit(d.x as int, ay as int);
                lemma_uv_unit(d.z as int, ay as int);
            }
            if d.y > 0 {
                (&self.py, crate::fixed::div_fp(d.x, ay), crate::fixed::div_fp(-d.z, ay))
            } else {
                (&self.ny, crate::fixed::div_fp(d.x, ay), crate::fixed::div_fp(d.z, ay))
            }
        } else {
            proof {
                lemma_uv_unit(d.x as int, az as int);
                lemma_uv_unit(d.y as int, az as int);
            }
            if d.z > 0 {
                (&self.pz, crate::fixed::div_fp(d.x, az), crate::fixed::div_fp(d.y, az))
            } else {
                (&self.nz, crate::fixed::div_fp(-d.x, az), crate::fixed::div_fp(d.y, az))
            }
        };
        let u = (ru + 65536) / 2;
        let v = (rv + 65536) / 2;
        tex.sample(u, v)
    }
}

/// A minor component divided by a dominating absolute major component
/// stays within the fixed-point interval `[-1, 1]`.
pub proof fn lemma_uv_unit(minor: int, major: int)
    requires
        1 <= major,
        abs_int(minor) <= major,
    ensures
        abs_int(spec_div_fp(minor, major)) <= 65536,
        0 <= (spec_div_fp(minor, major) + 65536) / 2 <= 65536,
{
    crate::vec3::lemma_unit_ratio(minor, major);
}

} // verus!
