//! Simulation core of a small creature kennel: disk-shaped creatures wander
//! the unit square, each driven by a weighted random state machine, and a
//! collision arena decides, one tick at a time, where each of them stops.
//!
//! Geometry (positions, radii, collision times) is computed by the caller;
//! this crate holds the discrete rules around it: the state machine, the
//! time-ordered resolution of collision events, and sprite selection.

pub mod collision;
pub mod creature;
pub mod loader;
pub mod sheet;
pub mod sprite;
