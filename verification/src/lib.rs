//! The discrete core of a Monte Carlo path tracer.
//!
//! The numeric geometry of a renderer (projecting, transforming, solving a
//! ray against a plane) is done by its caller on real-valued vectors. What
//! is decided from those numbers is decided here, on integers: whether a
//! ray crosses a triangle or a quad, which of several crossings is the
//! closest, what a path does at the surface it arrived at and when it ends,
//! how the names in a scene document resolve into meshes, where a pixel
//! lies in the frame buffer, and which bytes make up the image file.
pub mod camera;
pub mod color;
pub mod frame;
pub mod hit;
pub mod integrator;
pub mod light;
pub mod material;
pub mod mesh;
pub mod scalar;
pub mod scene;
pub mod serialize;
