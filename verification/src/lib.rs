//! A software 3D rendering pipeline over 16.16 fixed-point arithmetic.
//!
//! The crate rasterizes shaded triangle meshes, a cubemap skybox, orbit
//! polylines, flat annuli and additive glow halos into a CPU-owned pixel
//! buffer.  Every quantity the pipeline computes with is an integer: real
//! numbers are represented in 16.16 fixed point (65536 = 1.0), angles in
//! binary angle units (262144 = one turn), so that each stage has an exact
//! arithmetic specification.

pub mod fixed;
pub mod vec3;
pub mod framebuffer;
pub mod shade;
pub mod raster;
pub mod mesh;
pub mod texture;
pub mod skybox;
pub mod mat4;
pub mod camera;
pub mod project;
pub mod draw;
pub mod pipeline;
pub mod laws;
