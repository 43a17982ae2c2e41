//! Simulation core of a fixed-viewport arcade shooter.
//!
//! Everything is integral: lengths are thousandths of a pixel, times are
//! milliseconds, angles are millionths of a radian. The centre of the view
//! is the origin.

pub mod constants;
pub mod geometry;
pub mod random;
pub mod formation;
pub mod entity;
pub mod motion;
pub mod player;
pub mod collision;
pub mod world;
pub mod schedule;
