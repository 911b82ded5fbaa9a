//! Scene compositor and frame pipeline for a 2D animation renderer.
//!
//! The crate flattens a nested scene graph into a depth-ordered list of
//! drawable primitives, composes affine transforms across the hierarchy,
//! prepares stroked cubic curves and textured quads for the GPU, groups the
//! results into an ordered draw list, and drives a deterministic
//! frame-sequential export loop.
//!
//! All geometry is carried in fixed-point arithmetic: a coordinate, scale or
//! depth value is an `i64` counted in units of `1 / FX_ONE` scene units.
//! Transformations are homogeneous integer matrices whose bottom-right entry
//! `w` carries the accumulated scale; composition is therefore exact integer
//! arithmetic, and rounding happens only when a matrix is built from its
//! translation/scale/rotation parts and when it is finally applied to a point.
use vstd::prelude::*;

pub mod app_data;
pub mod color;
pub mod signals;
pub mod video;
pub mod render_data;
pub mod flatten;
pub mod interface;
pub mod renderers;
pub mod transform;

verus! {

/// Number of fixed-point units per scene unit: the value `1.0` of the scene
/// description is stored as `FX_ONE`.
pub const FX_ONE: i64 = 4096;

/// Largest magnitude a matrix entry may take; chosen so that any product of
/// two admissible entries, and any sum of three such products, fits in `i128`.
pub const MAT_MAX: i64 = 0x4000_0000_0000_0000;

} // verus!
