//! An isometric grid mining simulation.
//!
//! Autonomous workers wander a fixed square tile grid, mine depletable
//! rocks, and collide with static buildings.  A camera with pan and zoom
//! and an isometric projection support the renderer; floating labels mark
//! mining rewards.  All screen-space quantities are kept as integers in
//! fixed-point units (thousandths of a screen unit where sub-unit motion
//! matters), so every rule of the simulation is stated and proved exactly.
//!
//! The platform glue (canvas, pointer and wheel events, image loading,
//! frame scheduling) lives outside this crate; it feeds plain values in
//! and reads plain values out.

use vstd::prelude::*;

pub mod camera;
pub mod float_text;
pub mod iso;
pub mod mining;
pub mod session;
pub mod worker;
pub mod world;

verus! {

/// Side length of the square tile grid; coordinates run over [0, GRID).
pub const GRID: usize = 10;

} // verus!
