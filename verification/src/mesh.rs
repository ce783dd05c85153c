//! Triangle meshes: a vertex list and a triangle index list, validated at
//! construction so that every retained triangle's three indices lie
//! within the vertex list.  Malformed faces are dropped, not fatal; the
//! count of dropped faces is reported to the caller.

use vstd::prelude::*;
use crate::vec3::Vec3Fx;

verus! {

/// A triangle mesh.  The invariant `wf` — every retained triangle's
/// indices are in bounds — is established by `from_parts` and never
/// broken afterwards by this crate, which only reads meshes.
pub struct ObjMesh {
    pub vertices: Vec<Vec3Fx>,
    pub indices: Vec<(usize, usize, usize)>,
}

/// Whether all three vertex indices of `t` lie below the vertex count `n`.
pub open spec fn tri_in_bounds(t: (usize, usize, usize), n: int) -> bool {
    t.0 < n && t.1 < n && t.2 < n
}

/// The subsequence of `faces` whose indices all lie below `n`, in order.
pub open spec fn retained(faces: Seq<(usize, usize, usize)>, n: int) -> Seq<
    (usize, usize, usize),
>
    decreases faces.len(),
{
    if faces.len() == 0 {
        Seq::empty()
    } else {
        let rest = retained(faces.drop_last(), n);
        if tri_in_bounds(faces.last(), n) {
            rest.push(faces.last())
        } else {
            rest
        }
    }
}

impl ObjMesh {
    /// Every retained triangle's three indices are within the vertex
    /// list's bounds.
    pub open spec fn wf(self) -> bool {
        forall|i: int|
            0 <= i < self.indices.len() ==> tri_in_bounds(
                #[trigger] self.indices@[i],
                self.vertices.len() as int,
            )
    }

    /// Builds a mesh from raw vertices and face index triples, dropping
    /// every face that references a missing vertex; returns the mesh and
    /// the count of dropped faces.
    pub fn from_parts(vertices: Vec<Vec3Fx>, faces: Vec<(usize, usize, usize)>) -> (out: (
        ObjMesh,
        usize,
    ))
        ensures
            out.0.wf(),
            out.0.vertices@ == vertices@,
            out.0.indices@ == retained(faces@, vertices@.len() as int),
            out.1 == faces@.len() - out.0.indices@.len(),
    {
        let n = vertices.len();
        let mut indices: Vec<(usize, usize, usize)> = Vec::new();
        let mut i: usize = 0;
        while i < faces.len()
            invariant
                i <= faces.len(),
                n == vertices.len(),
                indices@ == retained(faces@.take(i as int), n as int),
                indices.len() <= i,
                forall|j: int|
                    0 <= j < indices.len() ==> tri_in_bounds(#[trigger] indices@[j], n as int),
            decreases faces.len() - i,
        {
            let t = faces[i];
            proof {
                assert(faces@.take(i as int + 1).drop_last() =~= faces@.take(i as int));
                assert(faces@.take(i as int + 1).last() == faces@[i as int]);
            }
            if t.0 < n && t.1 < n && t.2 < n {
                indices.push(t);
            }
            i = i + 1;
        }
        proof {
            assert(faces@.take(faces@.len() as int) =~= faces@);
        }
        let dropped = faces.len() - indices.len();
        (ObjMesh { vertices, indices }, dropped)
    }
}

} // verus!
