//! The simulation core of a small arcade shooter: a ship that moves inside a
//! bounded arena, fires bullets upward, and must destroy the enemies that
//! descend from the top before one of them slips past the bottom edge.
//!
//! All lengths are integers in micro-pixels and all durations are integers in
//! microseconds, so that a speed given in pixels per second moves an entity by
//! exactly `speed * dt` micro-pixels in `dt` microseconds.

pub mod tuning;
pub mod geometry;
pub mod movement;
pub mod collision;
pub mod spawn;
pub mod session;
