//! A Monte-Carlo path tracer for scenes of spheres, over fixed-point
//! arithmetic.
//!
//! All numbers are [`fixed::Fixed`] scalars, so every result is the same on
//! every machine and every operation is total. The library draws no random
//! numbers of its own but for the split axes of the hierarchy builder: the
//! draws that materials, camera and integrator consume are arguments.
//!
//! - [`fixed`]: the scalar type and the laws of its arithmetic.
//! - [`geom`]: vectors, rays, boxes, materials, spheres, collections and
//!   the bounding-volume hierarchy.
//! - [`draw`]: the camera and the integrator.
//! - [`canvas`], [`ppm`]: a grid of pixels and the plain-text image format.
//! - [`data`], [`tracer`]: plain image data and a renderer of the sky alone.
pub mod canvas;
pub mod data;
pub mod draw;
pub mod fixed;
pub mod geom;
pub mod ppm;
pub mod tracer;
