//! Core of a small real-time simulation: an entity store with stable integer
//! identities, a fixed-point model of a 2D rigid-body world, per-entity
//! behavior dispatch (directional control, debug nudge, camera tracking,
//! timed spawning, attraction), collision-triggered behavior dispatch, and
//! the per-frame orchestration that ties them together.
//!
//! All world quantities (positions, velocities, impulses, angles, times)
//! are fixed-point integers with a scale of `fxmath::FX_ONE` steps per unit.
//! The windowing, rendering and physics-engine integration live outside this
//! crate; they exchange plain values with it.

pub mod behaviors;
pub mod camera;
pub mod entity;
pub mod frame;
pub mod fxmath;
pub mod input;
pub mod physics;
pub mod scenes;
pub mod store;
