//! A recursive (Whitted-style) ray tracer.
//!
//! For each pixel a ray leaves the camera, the nearest surface it meets is
//! found by testing every primitive, the surface is shaded with ambient,
//! diffuse and Blinn-Phong specular terms for each light that a shadow ray
//! can reach, and a mirror ray is traced in turn, down to a fixed depth.
//!
//! Every scalar is a saturating fixed-point number (see [`fixed`]): each
//! operation rounds toward zero and clamps into a fixed range. The contracts
//! state each result exactly, in terms of the spec functions that describe
//! these operations.
//!
//! - [`fixed`], [`vector`]: scalars and three-component vectors.
//! - [`scene`]: rays, the camera, materials and lights.
//! - [`geometry`]: spheres, planes and triangles, and their intersection.
//! - [`render`]: the nearest-hit query, shading, reflection and the colour of
//!   a pixel.
//! - [`invariance`]: moving the scene and the camera together.
use vstd::prelude::*;

pub mod fixed;
pub mod vector;
pub mod scene;
pub mod geometry;
pub mod render;
pub mod invariance;

verus! {

} // verus!
