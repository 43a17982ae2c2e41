//! Fixed numbers of the game. Lengths in thousandths of a pixel, times in
//! milliseconds.

use vstd::prelude::*;

verus! {

/// Logical sprite sizes, before `SPRITE_SCALE` is applied.
pub const PLAYER_WIDTH: u32 = 144_000;

pub const PLAYER_HEIGHT: u32 = 75_000;

pub const PLAYER_LASER_WIDTH: u32 = 9_000;

pub const PLAYER_LASER_HEIGHT: u32 = 54_000;

pub const ENEMY_WIDTH: u32 = 144_000;

pub const ENEMY_HEIGHT: u32 = 75_000;

pub const ENEMY_LASER_WIDTH: u32 = 17_000;

pub const ENEMY_LASER_HEIGHT: u32 = 55_000;

/// One, in the fixed-point scale of a sprite's scale.
pub const SCALE_UNIT: u32 = 1_000;

/// The scale at which every sprite of the game enters: one half.
pub const SPRITE_SCALE: u32 = 500;

/// Number of frames in the explosion sheet.
pub const EXPLOSION_LEN: usize = 16;

/// Time between two frames of an explosion.
pub const EXPLOSION_FRAME_INTERVAL: u32 = 50;

/// Distance covered per millisecond by a velocity component of one.
pub const BASE_SPEED: u32 = 500;

/// Most enemies alive at once.
pub const ENEMY_MAX: u32 = 2;

/// Enemies that share one flight path.
pub const FORMATION_MEMBERS_MAX: u32 = 2;

/// Time between two requests for an enemy.
pub const ENEMY_SPAWN_INTERVAL: u32 = 1_000;

/// Time between two looks at whether the player may enter.
pub const PLAYER_SPAWN_INTERVAL: u32 = 500;

/// Time a destroyed player stays away.
pub const PLAYER_RESPAWN_DELAY: u64 = 2_000;

/// How far past the edge of the view a projectile may fly before it is retired.
pub const DESPAWN_MARGIN: u32 = 200_000;

/// How far past the left or right edge a wave starts, and how far its
/// starting height may lie above or below the view.
pub const WAVE_START_MARGIN: u32 = 100_000;

/// Bounds of the horizontal radius of a flight path (the upper one is never drawn).
pub const WAVE_RADIUS_MIN: u32 = 80_000;

pub const WAVE_RADIUS_MAX: u32 = 150_000;

/// Vertical radius of every flight path.
pub const WAVE_RADIUS_Y: u32 = 100_000;

/// An enemy fires, on each tick, with a chance of one in this many.
pub const ENEMY_FIRE_ODDS: u32 = 60;

/// A laser leaves its ship this far along its direction of flight.
pub const LASER_MUZZLE: u32 = 15_000;

/// The player's two lasers leave this far inside the ship's edges.
pub const PLAYER_LASER_INSET: u32 = 5_000;

/// The player's ship stands this far above the bottom edge.
pub const PLAYER_BOTTOM_GAP: u32 = 5_000;

/// Largest width or height of a view.
pub const VIEW_MAX: u32 = 0x4000_0000;

/// One, in the fixed-point scale of angles, sines and cosines.
pub const UNIT: i32 = 1_000_000;

/// Pi in the scale of `UNIT`.
pub const PI_UNITS: u32 = 3_141_593;

/// An enemy takes up its next phase once it is within one in this many of
/// a tick's travel from where that phase lies.
pub const SNAP_DIVISOR: u32 = 20;

} // verus!
