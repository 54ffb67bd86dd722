//! A small simulation core for charged point particles interacting through a
//! short-range pairwise force, together with the decaying motion history
//! ("trails") that a renderer draws.
//!
//! All quantities are fixed-point numbers: an `i64` carries `SCALE` units per
//! whole unit (see [`fixed`]). This keeps every computation exact and lets the
//! integrator, the force law and the trail bookkeeping be specified and
//! verified down to the last unit.

use vstd::prelude::*;

pub mod fixed;
pub mod laws;
pub mod particle;
pub mod particle_trail;
pub mod vec2;

verus! {

} // verus!
