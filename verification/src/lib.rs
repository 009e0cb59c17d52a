//! First-person movement on a fixed simulation step, in exact fixed-point arithmetic.
//!
//! A render frame rotates the camera, turns the held movement keys into a level velocity
//! toward where the camera faces, runs zero or more fixed-step ticks that integrate
//! positions, clears the consumed input if a tick ran, and blends the last two
//! integrated positions for display.
//!
//! Every quantity is an integer. Directions and speeds count millionths ([`math::UNIT`]),
//! angles count microradians, durations count microseconds, and positions count
//! millionths of a millionth, so that a speed times a duration is a position without
//! rounding.

pub mod camera;
pub mod components;
pub mod math;
pub mod physics;
pub mod schedule;
pub mod time;
