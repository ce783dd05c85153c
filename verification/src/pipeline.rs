//! The mesh drawing entry points: per-triangle model transform, flat face
//! normal, projection of the three vertices, and the depth-tested shaded
//! fill — the whole pass stated as a fold of the per-triangle rasterizer
//! effect over the index list.

use vstd::prelude::*;
use crate::camera::Camera;
use crate::fixed::{abs_int, cos_bau, mul_g, sin_bau, spec_cos, spec_mul_fp, spec_sin};
use crate::framebuffer::{Rgba, SoftwareRenderer};
use crate::mat4::{mat_bounded, mat_mul, spec_mat_mul, Mat4Fx};
use crate::mesh::{tri_in_bounds, ObjMesh};
use crate::project::{cam_wf, spec_project};
use crate::raster::{fb_of, raster_spec, FbState, TriParams};
use crate::shade::PlanetShaderKind;
use crate::vec3::{spec_cross, spec_normalize, vec_bounded, Vec3Fx};

verus! {

/// The model matrix of a mesh instance: uniform scale, a yaw rotation
/// about the vertical axis given by its cosine and sine, and a
/// translation.  Identity rotation is `cy == FP_ONE`, `sy == 0`.
pub open spec fn spec_model(pos: Vec3Fx, scale: int, cy: int, sy: int) -> Mat4Fx {
    Mat4Fx {
        m00: spec_mul_fp(scale, cy) as i64,
        m01: 0,
        m02: spec_mul_fp(scale, sy) as i64,
        m03: pos.x,
        m10: 0,
        m11: scale as i64,
        m12: 0,
        m13: pos.y,
        m20: (-spec_mul_fp(scale, sy)) as i64,
        m21: 0,
        m22: spec_mul_fp(scale, cy) as i64,
        m23: pos.z,
        m30: 0,
        m31: 0,
        m32: 0,
        m33: 65536,
    }
}

/// A local vertex taken to world space by a model matrix (the matrix's
/// last row is `(0, 0, 0, 1)`).
pub open spec fn spec_transform3(m: Mat4Fx, v: Vec3Fx) -> Vec3Fx {
    Vec3Fx {
        x: (spec_mul_fp(m.m00 as int, v.x as int) + spec_mul_fp(m.m01 as int, v.y as int)
            + spec_mul_fp(m.m02 as int, v.z as int) + m.m03) as i64,
        y: (spec_mul_fp(m.m10 as int, v.x as int) + spec_mul_fp(m.m11 as int, v.y as int)
            + spec_mul_fp(m.m12 as int, v.z as int) + m.m13) as i64,
        z: (spec_mul_fp(m.m20 as int, v.x as int) + spec_mul_fp(m.m21 as int, v.y as int)
            + spec_mul_fp(m.m22 as int, v.z as int) + m.m23) as i64,
    }
}

/// The flat face normal of a world-space triangle: the normalized cross
/// product of two edges.
pub open spec fn spec_face_normal(w0: Vec3Fx, w1: Vec3Fx, w2: Vec3Fx) -> Vec3Fx {
    spec_normalize(
        spec_cross(
            Vec3Fx { x: (w1.x - w0.x) as i64, y: (w1.y - w0.y) as i64, z: (w1.z - w0.z) as i64 },
            Vec3Fx { x: (w2.x - w0.x) as i64, y: (w2.y - w0.y) as i64, z: (w2.z - w0.z) as i64 },
        ),
    )
}

/// What one mesh triangle hands the rasterizer, or `None` when it is
/// skipped: out-of-bounds indices (defensive, cannot happen on a
/// well-formed mesh) or any of its three vertices failing projection.
pub open spec fn spec_mesh_tri(
    w: int,
    h: int,
    verts: Seq<Vec3Fx>,
    tri: (usize, usize, usize),
    model: Mat4Fx,
    mvp: Mat4Fx,
    base: Rgba,
    kind: PlanetShaderKind,
    lightn: Vec3Fx,
) -> Option<TriParams> {
    if !tri_in_bounds(tri, verts.len() as int) {
        Option::None
    } else {
        let v0 = verts[tri.0 as int];
        let v1 = verts[tri.1 as int];
        let v2 = verts[tri.2 as int];
        let w0 = spec_transform3(model, v0);
        let w1 = spec_transform3(model, v1);
        let w2 = spec_transform3(model, v2);
        match (spec_project(w, h, v0, mvp), spec_project(w, h, v1, mvp), spec_project(
            w,
            h,
            v2,
            mvp,
        )) {
            (Option::Some(s0), Option::Some(s1), Option::Some(s2)) => Option::Some(
                TriParams {
                    s0,
                    s1,
                    s2,
                    w0,
                    w1,
                    w2,
                    normal: spec_face_normal(w0, w1, w2),
                    base,
                    kind,
                    light: lightn,
                },
            ),
            _ => Option::None,
        }
    }
}

/// The frame-buffer state after drawing the first `k` triangles of a
/// mesh.
pub open spec fn spec_draw_mesh(
    s: FbState,
    w: int,
    h: int,
    verts: Seq<Vec3Fx>,
    tris: Seq<(usize, usize, usize)>,
    model: Mat4Fx,
    mvp: Mat4Fx,
    base: Rgba,
    kind: PlanetShaderKind,
    lightn: Vec3Fx,
    k: int,
) -> FbState
    decreases k,
{
    if k <= 0 {
        s
    } else {
        let prev = spec_draw_mesh(s, w, h, verts, tris, model, mvp, base, kind, lightn, k - 1);
        match spec_mesh_tri(w, h, verts, tris[k - 1], model, mvp, base, kind, lightn) {
            Option::Some(t) => raster_spec(prev, w, h, t),
            Option::None => prev,
        }
    }
}

/// Every vertex within the mesh coordinate range.
pub open spec fn mesh_bounded(m: ObjMesh, b: int) -> bool {
    forall|i: int| 0 <= i < m.vertices.len() ==> vec_bounded(#[trigger] m.vertices@[i], b)
}

/// Takes a local vertex to world space through the model matrix.
fn transform_point3(m: &Mat4Fx, v: Vec3Fx) -> (r: Vec3Fx)
    requires
        abs_int(m.m00 as int) <= 0x7_FFFF,
        abs_int(m.m01 as int) <= 0x7_FFFF,
        abs_int(m.m02 as int) <= 0x7_FFFF,
        abs_int(m.m10 as int) <= 0x7_FFFF,
        abs_int(m.m11 as int) <= 0x7_FFFF,
        abs_int(m.m12 as int) <= 0x7_FFFF,
        abs_int(m.m20 as int) <= 0x7_FFFF,
        abs_int(m.m21 as int) <= 0x7_FFFF,
        abs_int(m.m22 as int) <= 0x7_FFFF,
        abs_int(m.m03 as int) <= 0xFFF_FFFF,
        abs_int(m.m13 as int) <= 0xFFF_FFFF,
        abs_int(m.m23 as int) <= 0xFFF_FFFF,
        vec_bounded(v, 0x100_0000),
    ensures
        r == spec_transform3(*m, v),
        vec_bounded(r, 0x2800_0000),
{
    proof {
        crate::fixed::lemma_mul_fp_le(m.m00 as int, v.x as int, 0x7_FFFF, 0x100_0000);
        crate::fixed::lemma_mul_fp_le(m.m01 as int, v.y as int, 0x7_FFFF, 0x100_0000);
        crate::fixed::lemma_mul_fp_le(m.m02 as int, v.z as int, 0x7_FFFF, 0x100_0000);
        crate::fixed::lemma_mul_fp_le(m.m10 as int, v.x as int, 0x7_FFFF, 0x100_0000);
        crate::fixed::lemma_mul_fp_le(m.m11 as int, v.y as int, 0x7_FFFF, 0x100_0000);
        crate::fixed::lemma_mul_fp_le(m.m12 as int, v.z as int, 0x7_FFFF, 0x100_0000);
        crate::fixed::lemma_mul_fp_le(m.m20 as int, v.x as int, 0x7_FFFF, 0x100_0000);
        crate::fixed::lemma_mul_fp_le(m.m21 as int, v.y as int, 0x7_FFFF, 0x100_0000);
        crate::fixed::lemma_mul_fp_le(m.m22 as int, v.z as int, 0x7_FFFF, 0x100_0000);
    }
    let x = ((m.m00 as i128) * (v.x as i128) / 65536 + (m.m01 as i128) * (v.y as i128) / 65536 + (
    m.m02 as i128) * (v.z as i128) / 65536 + (m.m03 as i128)) as i64;
    let y = ((m.m10 as i128) * (v.x as i128) / 65536 + (m.m11 as i128) * (v.y as i128) / 65536 + (
    m.m12 as i128) * (v.z as i128) / 65536 + (m.m13 as i128)) as i64;
    let z = ((m.m20 as i128) * (v.x as i128) / 65536 + (m.m21 as i128) * (v.y as i128) / 65536 + (
    m.m22 as i128) * (v.z as i128) / 65536 + (m.m23 as i128)) as i64;
    Vec3Fx { x, y, z }
}

impl SoftwareRenderer {
    /// Draws a mesh with the given uniform scale and translation, no
    /// rotation: for each triangle with in-bounds indices whose three
    /// vertices project, the rasterizer fills it depth-tested with the
    /// kind's material under the normalized light direction.
    pub fn draw_mesh_shaded(
        &mut self,
        mesh: &ObjMesh,
        pos: Vec3Fx,
        scale: i64,
        base_color: Rgba,
        cam: &Camera,
        shader: PlanetShaderKind,
        light_dir: Vec3Fx,
    )
        requires
            old(self).wf(),
            cam_wf(*cam),
            mesh_bounded(*mesh, 0x100_0000),
            vec_bounded(pos, 0xFFF_FFFF),
            0 <= scale <= 0x7_FFFF,
            vec_bounded(light_dir, 0x7FFF_FFFF),
        ensures
            final(self).wf(),
            final(self).width == old(self).width,
            final(self).height == old(self).height,
            ({
                let model = spec_model(pos, scale as int, 65536, 0);
                let mvp = spec_mat_mul(
                    crate::mat4::spec_perspective(
                        cam.fov_y as int,
                        cam.aspect as int,
                        crate::camera::NEAR_PLANE as int,
                        crate::camera::FAR_PLANE as int,
                    ),
                    spec_mat_mul(
                        crate::mat4::spec_look_at(cam.pos, cam.target, crate::camera::spec_world_up()),
                        model,
                    ),
                );
                fb_of(*final(self)) == spec_draw_mesh(
                    fb_of(*old(self)),
                    old(self).width as int,
                    old(self).height as int,
                    mesh.vertices@,
                    mesh.indices@,
                    model,
                    mvp,
                    base_color,
                    shader,
                    spec_normalize(light_dir),
                    mesh.indices@.len() as int,
                )
            }),
    {
        self.draw_mesh_inner(mesh, pos, scale, 65536, 0, base_color, cam, shader, light_dir);
    }

    /// `draw_mesh_shaded` with an added yaw rotation about the vertical
    /// axis, given in binary angle units.
    pub fn draw_mesh_shaded_rot(
        &mut self,
        mesh: &ObjMesh,
        pos: Vec3Fx,
        scale: i64,
        yaw: i64,
        base_color: Rgba,
        cam: &Camera,
        shader: PlanetShaderKind,
        light_dir: Vec3Fx,
    )
        requires
            old(self).wf(),
            cam_wf(*cam),
            mesh_bounded(*mesh, 0x100_0000),
            vec_bounded(pos, 0xFFF_FFFF),
            0 <= scale <= 0x7_FFFF,
            vec_bounded(light_dir, 0x7FFF_FFFF),
        ensures
            final(self).wf(),
            final(self).width == old(self).width,
            final(self).height == old(self).height,
            ({
                let model = spec_model(
                    pos,
                    scale as int,
                    spec_cos(yaw as int),
                    spec_sin(yaw as int),
                );
                let mvp = spec_mat_mul(
                    crate::mat4::spec_perspective(
                        cam.fov_y as int,
                        cam.aspect as int,
                        crate::camera::NEAR_PLANE as int,
                        crate::camera::FAR_PLANE as int,
                    ),
                    spec_mat_mul(
                        crate::mat4::spec_look_at(cam.pos, cam.target, crate::camera::spec_world_up()),
                        model,
                    ),
                );
                fb_of(*final(self)) == spec_draw_mesh(
                    fb_of(*old(self)),
                    old(self).width as int,
                    old(self).height as int,
                    mesh.vertices@,
                    mesh.indices@,
                    model,
                    mvp,
                    base_color,
                    shader,
                    spec_normalize(light_dir),
                    mesh.indices@.len() as int,
                )
            }),
    {
        let cy = cos_bau(yaw);
        let sy = sin_bau(yaw);
        self.draw_mesh_inner(mesh, pos, scale, cy, sy, base_color, cam, shader, light_dir);
    }

    /// The shared mesh pass over an explicit yaw cosine and sine.
    #[verifier::rlimit(100)]
    fn draw_mesh_inner(
        &mut self,
        mesh: &ObjMesh,
        pos: Vec3Fx,
        scale: i64,
        cy: i64,
        sy: i64,
        base_color: Rgba,
        cam: &Camera,
        shader: PlanetShaderKind,
        light_dir: Vec3Fx,
    )
        requires
            old(self).wf(),
            cam_wf(*cam),
            mesh_bounded(*mesh, 0x100_0000),
            vec_bounded(pos, 0xFFF_FFFF),
            0 <= scale <= 0x7_FFFF,
            -65536 <= cy <= 65536,
            -65536 <= sy <= 65536,
            vec_bounded(light_dir, 0x7FFF_FFFF),
        ensures
            final(self).wf(),
            final(self).width == old(self).width,
            final(self).height == old(self).height,
            ({
                let model = spec_model(pos, scale as int, cy as int, sy as int);
                let mvp = spec_mat_mul(
                    crate::mat4::spec_perspective(
                        cam.fov_y as int,
                        cam.aspect as int,
                        crate::camera::NEAR_PLANE as int,
                        crate::camera::FAR_PLANE as int,
                    ),
                    spec_mat_mul(
                        crate::mat4::spec_look_at(cam.pos, cam.target, crate::camera::spec_world_up()),
                        model,
                    ),
                );
                fb_of(*final(self)) == spec_draw_mesh(
                    fb_of(*old(self)),
                    old(self).width as int,
                    old(self).height as int,
                    mesh.vertices@,
                    mesh.indices@,
                    model,
                    mvp,
                    base_color,
                    shader,
                    spec_normalize(light_dir),
                    mesh.indices@.len() as int,
                )
            }),
    {
        let ghost pre = *self;
        let sc = mul_g(scale, cy, Ghost(0x7_FFFF as int), Ghost(65536int));
        let ss = mul_g(scale, sy, Ghost(0x7_FFFF as int), Ghost(65536int));
        let model = Mat4Fx {
            m00: sc,
            m01: 0,
            m02: ss,
            m03: pos.x,
            m10: 0,
            m11: scale,
            m12: 0,
            m13: pos.y,
            m20: -ss,
            m21: 0,
            m22: sc,
            m23: pos.z,
            m30: 0,
            m31: 0,
            m32: 0,
            m33: 65536,
        };
        let ghost gmodel = spec_model(pos, scale as int, cy as int, sy as int);
        proof {
            assert(model == gmodel);
            assert(mat_bounded(model, 0xFFF_FFFF));
        }
        let view = cam.view_matrix();
        let proj = cam.proj_matrix();
        let mv = mat_mul(view, model, Ghost(0x2_0000_0000int), Ghost(0xFFF_FFFFint));
        let mvp = mat_mul(proj, mv, Ghost(0x200_0000int), Ghost(0x8000_0000_0000int));
        let lightn = light_dir.normalize();
        let ghost w = pre.width as int;
        let ghost h = pre.height as int;
        let mut k: usize = 0;
        while k < mesh.indices.len()
            invariant
                self.wf(),
                self.width == pre.width,
                self.height == pre.height,
                pre.wf(),
                cam_wf(*cam),
                mesh_bounded(*mesh, 0x100_0000),
                vec_bounded(pos, 0xFFF_FFFF),
                0 <= scale <= 0x7_FFFF,
                vec_bounded(lightn, 65536),
                lightn == spec_normalize(light_dir),
                k <= mesh.indices.len(),
                -65536 <= cy <= 65536,
                -65536 <= sy <= 65536,
                model == spec_model(pos, scale as int, cy as int, sy as int),
                mat_bounded(model, 0xFFF_FFFF),
                mat_bounded(mvp, 0x1000_0000_0000_0000),
                mvp == spec_mat_mul(
                    crate::mat4::spec_perspective(
                        cam.fov_y as int,
                        cam.aspect as int,
                        crate::camera::NEAR_PLANE as int,
                        crate::camera::FAR_PLANE as int,
                    ),
                    spec_mat_mul(
                        crate::mat4::spec_look_at(cam.pos, cam.target, crate::camera::spec_world_up()),
                        model,
                    ),
                ),
                w == pre.width as int,
                h == pre.height as int,
                fb_of(*self) == spec_draw_mesh(
                    fb_of(pre),
                    w,
                    h,
                    mesh.vertices@,
                    mesh.indices@,
                    model,
                    mvp,
                    base_color,
                    shader,
                    lightn,
                    k as int,
                ),
            decreases mesh.indices.len() - k,
        {
            let ghost snap = *self;
            proof {
                crate::fixed::lemma_mul_fp_le(scale as int, cy as int, 0x7_FFFF, 65536);
                crate::fixed::lemma_mul_fp_le(scale as int, sy as int, 0x7_FFFF, 65536);
            }
            let tri = mesh.indices[k];
            if tri.0 < mesh.vertices.len() && tri.1 < mesh.vertices.len() && tri.2
                < mesh.vertices.len() {
                let v0 = mesh.vertices[tri.0];
                let v1 = mesh.vertices[tri.1];
                let v2 = mesh.vertices[tri.2];
                let w0 = transform_point3(&model, v0);
                let w1 = transform_point3(&model, v1);
                let w2 = transform_point3(&model, v2);
                let e1 = w1.sub(w0);
                let e2 = w2.sub(w0);
                let cr = e1.cross(e2);
                proof {
                    crate::camera::lemma_cross_unit_bound_wide(e1, e2);
                }
                let n = cr.normalize();
                let p0 = self.project_vertex(v0, &mvp);
                let p1 = self.project_vertex(v1, &mvp);
                let p2 = self.project_vertex(v2, &mvp);
                match (p0, p1, p2) {
                    (Option::Some(s0), Option::Some(s1), Option::Some(s2)) => {
                        let t = TriParams {
                            s0,
                            s1,
                            s2,
                            w0,
                            w1,
                            w2,
                            normal: n,
                            base: base_color,
                            kind: shader,
                            light: lightn,
                        };
                        self.raster_triangle_shaded(t);
                        proof {
                            crate::raster::lemma_raster_spec(snap, *self, t);
                            assert(spec_mesh_tri(
                                w,
                                h,
                                mesh.vertices@,
                                mesh.indices@[k as int],
                                model,
                                mvp,
                                base_color,
                                shader,
                                lightn,
                            ) == Option::Some(t));
                        }
                    },
                    _ => {
                        proof {
                            assert(spec_mesh_tri(
                                w,
                                h,
                                mesh.vertices@,
                                mesh.indices@[k as int],
                                model,
                                mvp,
                                base_color,
                                shader,
                                lightn,
                            ) is None);
                        }
                    },
                }
            }
            k = k + 1;
        }
        proof {
            assert(k as int == mesh.indices@.len() as int);
        }
    }
}

} // verus!
