//! The records of the game: what a ship, an enemy, a laser and an explosion hold.

use vstd::prelude::*;
use crate::constants::{
    ENEMY_HEIGHT, ENEMY_LASER_HEIGHT, ENEMY_LASER_WIDTH, ENEMY_WIDTH, EXPLOSION_FRAME_INTERVAL,
    EXPLOSION_LEN, LASER_MUZZLE, PLAYER_BOTTOM_GAP, PLAYER_HEIGHT, PLAYER_LASER_HEIGHT,
    PLAYER_LASER_INSET, PLAYER_LASER_WIDTH, PLAYER_WIDTH, SCALE_UNIT, SPRITE_SCALE,
};
use crate::formation::Formation;
use crate::geometry::{Point, Scale, SpriteSize, WinSize};

verus! {

/// Direction of flight: each part is -1, 0 or 1.
#[derive(Clone, Copy, Debug, PartialEq, Eq, Structural)]
pub struct Velocity {
    pub x: i8,
    pub y: i8,
}

impl Velocity {
    /// Each part is -1, 0 or 1.
    pub open spec fn wf(self) -> bool {
        &&& -1 <= self.x <= 1
        &&& -1 <= self.y <= 1
    }

    /// Decides `wf`.
    pub fn is_wf(&self) -> (out: bool)
        ensures
            out == self.wf(),
    {
        -1 <= self.x && self.x <= 1 && -1 <= self.y && self.y <= 1
    }
}

/// Marks what the motion step moves. With `auto_despawn` the thing is
/// retired once it has left the view by more than the margin.
#[derive(Clone, Copy, Debug, PartialEq, Eq, Structural)]
pub struct Movable {
    pub auto_despawn: bool,
}

/// Who fired a laser.
#[derive(Clone, Copy, Debug, PartialEq, Eq, Structural)]
pub enum Owner {
    FromPlayer,
    FromEnemy,
}

/// The player's ship.
#[derive(Clone, Copy, Debug, PartialEq, Eq, Structural)]
pub struct Ship {
    pub pos: Point,
    pub size: SpriteSize,
    pub scale: Scale,
    pub velocity: Velocity,
    pub movable: Movable,
}

/// An enemy on its flight path.
#[derive(Clone, Copy, Debug, PartialEq, Eq, Structural)]
pub struct Enemy {
    pub pos: Point,
    pub size: SpriteSize,
    pub scale: Scale,
    pub formation: Formation,
}

/// A laser in flight.
#[derive(Clone, Copy, Debug, PartialEq, Eq, Structural)]
pub struct Laser {
    pub pos: Point,
    pub size: SpriteSize,
    pub scale: Scale,
    pub velocity: Velocity,
    pub movable: Movable,
    pub owner: Owner,
}

/// Counts the time to the next frame of an explosion.
#[derive(Clone, Copy, Debug, PartialEq, Eq, Structural)]
pub struct ExplosionTimer {
    pub elapsed: u32,
}

/// An explosion that is being shown.
#[derive(Clone, Copy, Debug, PartialEq, Eq, Structural)]
pub struct Explosion {
    pub pos: Point,
    pub timer: ExplosionTimer,
    pub index: usize,
}

impl Laser {
    /// The laser flies in a valid direction and is retired when it strays.
    pub open spec fn wf(self) -> bool {
        self.velocity.wf() && self.movable.auto_despawn
    }

    /// Decides `wf`.
    pub fn is_wf(&self) -> (out: bool)
        ensures
            out == self.wf(),
    {
        self.velocity.is_wf() && self.movable.auto_despawn
    }
}

impl Ship {
    /// The ship is in the field, and no bound of the view retires it.
    pub open spec fn wf(self) -> bool {
        self.velocity.wf() && self.pos.in_field() && !self.movable.auto_despawn
    }

    /// Decides `wf`.
    pub fn is_wf(&self) -> (out: bool)
        ensures
            out == self.wf(),
    {
        self.velocity.is_wf() && self.pos.is_in_field() && !self.movable.auto_despawn
    }

    /// The ship as it enters: at rest, in the middle, just above the bottom edge.
    pub open spec fn entering(win: WinSize) -> Ship {
        Ship {
            pos: Point {
                x: 0,
                y: (-(win.height / 2) + PLAYER_HEIGHT / 2 * SPRITE_SCALE / (SCALE_UNIT as int)
                    + PLAYER_BOTTOM_GAP) as i32,
            },
            size: SpriteSize { width: PLAYER_WIDTH, height: PLAYER_HEIGHT },
            scale: Scale { x: SPRITE_SCALE, y: SPRITE_SCALE },
            velocity: Velocity { x: 0, y: 0 },
            movable: Movable { auto_despawn: false },
        }
    }

    /// Makes `entering`.
    pub fn enter(win: &WinSize) -> (out: Ship)
        requires
            win.wf(),
        ensures
            out == Ship::entering(*win),
            out.wf(),
    {
        let lift: i32 = (PLAYER_HEIGHT / 2 * SPRITE_SCALE / SCALE_UNIT + PLAYER_BOTTOM_GAP) as i32;
        Ship {
            pos: Point { x: 0, y: -((win.height / 2) as i32) + lift },
            size: SpriteSize { width: PLAYER_WIDTH, height: PLAYER_HEIGHT },
            scale: Scale { x: SPRITE_SCALE, y: SPRITE_SCALE },
            velocity: Velocity { x: 0, y: 0 },
            movable: Movable { auto_despawn: false },
        }
    }

    /// How far from the ship's centre line its two lasers leave.
    pub open spec fn laser_offset() -> int {
        PLAYER_WIDTH / 2 * SPRITE_SCALE / (SCALE_UNIT as int) - PLAYER_LASER_INSET
    }

    /// The laser that leaves the ship `side` times the offset from its
    /// centre line (`side` is 1 or -1), flying upward.
    pub open spec fn laser_spec(self, side: int) -> Laser {
        Laser {
            pos: Point {
                x: (self.pos.x + side * Self::laser_offset()) as i32,
                y: (self.pos.y + LASER_MUZZLE) as i32,
            },
            size: SpriteSize { width: PLAYER_LASER_WIDTH, height: PLAYER_LASER_HEIGHT },
            scale: Scale { x: SPRITE_SCALE, y: SPRITE_SCALE },
            velocity: Velocity { x: 0, y: 1 },
            movable: Movable { auto_despawn: true },
            owner: Owner::FromPlayer,
        }
    }

    /// Makes `laser_spec`: the right laser if `right`, else the left one.
    pub fn laser(&self, right: bool) -> (out: Laser)
        requires
            self.pos.in_field(),
        ensures
            out == self.laser_spec(if right { 1int } else { -1int }),
            out.velocity.wf(),
    {
        let offset: i32 = (PLAYER_WIDTH / 2 * SPRITE_SCALE / SCALE_UNIT - PLAYER_LASER_INSET) as i32;
        Laser {
            pos: Point {
                x: if right { self.pos.x + offset } else { self.pos.x - offset },
                y: self.pos.y + LASER_MUZZLE as i32,
            },
            size: SpriteSize { width: PLAYER_LASER_WIDTH, height: PLAYER_LASER_HEIGHT },
            scale: Scale { x: SPRITE_SCALE, y: SPRITE_SCALE },
            velocity: Velocity { x: 0, y: 1 },
            movable: Movable { auto_despawn: true },
            owner: Owner::FromPlayer,
        }
    }
}

impl Enemy {
    /// The enemy is in the field, on a valid path.
    pub open spec fn wf(self) -> bool {
        self.pos.in_field() && self.formation.wf()
    }

    /// Decides `wf`.
    pub fn is_wf(&self) -> (out: bool)
        ensures
            out == self.wf(),
    {
        self.pos.is_in_field() && self.formation.is_wf()
    }

    /// An enemy as it enters, at the start of its path.
    pub open spec fn entering(formation: Formation) -> Enemy {
        Enemy {
            pos: formation.data.start,
            size: SpriteSize { width: ENEMY_WIDTH, height: ENEMY_HEIGHT },
            scale: Scale { x: SPRITE_SCALE, y: SPRITE_SCALE },
            formation,
        }
    }

    /// Makes `entering`.
    pub fn enter(formation: Formation) -> (out: Enemy)
        ensures
            out == Enemy::entering(formation),
    {
        Enemy {
            pos: formation.data.start,
            size: SpriteSize { width: ENEMY_WIDTH, height: ENEMY_HEIGHT },
            scale: Scale { x: SPRITE_SCALE, y: SPRITE_SCALE },
            formation,
        }
    }

    /// The laser that an enemy fires: from just below it, flying downward.
    pub open spec fn laser_spec(self) -> Laser {
        Laser {
            pos: Point { x: self.pos.x, y: (self.pos.y - LASER_MUZZLE) as i32 },
            size: SpriteSize { width: ENEMY_LASER_WIDTH, height: ENEMY_LASER_HEIGHT },
            scale: Scale { x: SPRITE_SCALE, y: SPRITE_SCALE },
            velocity: Velocity { x: 0, y: -1i8 },
            movable: Movable { auto_despawn: true },
            owner: Owner::FromEnemy,
        }
    }

    /// Makes `laser_spec`.
    pub fn laser(&self) -> (out: Laser)
        requires
            self.pos.in_field(),
        ensures
            out == self.laser_spec(),
            out.velocity.wf(),
    {
        Laser {
            pos: Point { x: self.pos.x, y: self.pos.y - LASER_MUZZLE as i32 },
            size: SpriteSize { width: ENEMY_LASER_WIDTH, height: ENEMY_LASER_HEIGHT },
            scale: Scale { x: SPRITE_SCALE, y: SPRITE_SCALE },
            velocity: Velocity { x: 0, y: -1 },
            movable: Movable { auto_despawn: true },
            owner: Owner::FromEnemy,
        }
    }
}

impl Explosion {
    /// The explosion has frames left to show.
    pub open spec fn wf(self) -> bool {
        self.index < EXPLOSION_LEN && self.timer.elapsed < EXPLOSION_FRAME_INTERVAL
    }

    /// Decides `wf`.
    pub fn is_wf(&self) -> (out: bool)
        ensures
            out == self.wf(),
    {
        self.index < EXPLOSION_LEN && self.timer.elapsed < EXPLOSION_FRAME_INTERVAL
    }

    /// A new explosion: first frame, timer at nought.
    pub open spec fn at(pos: Point) -> Explosion {
        Explosion { pos, timer: ExplosionTimer { elapsed: 0 }, index: 0 }
    }

    /// Makes `at`.
    pub fn start(pos: Point) -> (out: Explosion)
        ensures
            out == Explosion::at(pos),
            out.wf(),
    {
        Explosion { pos, timer: ExplosionTimer { elapsed: 0 }, index: 0 }
    }

    /// The timer runs out in a tick of `dt` milliseconds.
    pub open spec fn expires(self, dt: u32) -> bool {
        self.timer.elapsed + dt >= EXPLOSION_FRAME_INTERVAL
    }

    /// The explosion after a tick: when the timer runs out, the next frame
    /// comes up and the timer starts again, keeping what ran over.
    pub open spec fn ticked(self, dt: u32) -> Explosion {
        if self.expires(dt) {
            Explosion {
                pos: self.pos,
                timer: ExplosionTimer {
                    elapsed: ((self.timer.elapsed + dt) % (EXPLOSION_FRAME_INTERVAL as int)) as u32,
                },
                index: (self.index + 1) as usize,
            }
        } else {
            Explosion {
                pos: self.pos,
                timer: ExplosionTimer { elapsed: (self.timer.elapsed + dt) as u32 },
                index: self.index,
            }
        }
    }

    /// The explosion has shown its last frame and is to be removed.
    pub open spec fn done(self) -> bool {
        self.index >= EXPLOSION_LEN
    }

    /// One tick of an explosion: `None` when it is over.
    pub fn tick(&self, dt: u32) -> (out: Option<Explosion>)
        requires
            self.wf(),
        ensures
            self.ticked(dt).done() ==> out.is_none(),
            !self.ticked(dt).done() ==> out == Some(self.ticked(dt)) && self.ticked(dt).wf(),
    {
        let total: u64 = self.timer.elapsed as u64 + dt as u64;
        if total >= EXPLOSION_FRAME_INTERVAL as u64 {
            let index: usize = self.index + 1;
            if index >= EXPLOSION_LEN {
                None
            } else {
                Some(
                    Explosion {
                        pos: self.pos,
                        timer: ExplosionTimer {
                            elapsed: (total % EXPLOSION_FRAME_INTERVAL as u64) as u32,
                        },
                        index,
                    },
                )
            }
        } else {
            Some(Explosion { pos: self.pos, timer: ExplosionTimer { elapsed: total as u32 }, index: self.index })
        }
    }

    /// The explosion after `ticks` ticks of `dt` milliseconds each, were it
    /// never removed.
    pub open spec fn after_ticks(self, dt: u32, ticks: nat) -> Explosion
        decreases ticks,
    {
        if ticks == 0 {
            self
        } else {
            self.after_ticks(dt, (ticks - 1) as nat).ticked(dt)
        }
    }
}

/// An explosion lives for at least as many ticks as it takes the tick
/// length to add up to the whole animation: while `ticks * dt` is below the
/// number of frames times the frame interval, it is not yet done. Its frames
/// never run ahead of the time that has passed.
pub proof fn explosion_outlasts_animation(pos: Point, dt: u32, ticks: nat)
    requires
        ticks * dt < EXPLOSION_LEN * EXPLOSION_FRAME_INTERVAL,
    ensures
        !Explosion::at(pos).after_ticks(dt, ticks).done(),
        ({
            let e = Explosion::at(pos).after_ticks(dt, ticks);
            e.index * EXPLOSION_FRAME_INTERVAL + e.timer.elapsed <= ticks * dt
        }),
    decreases ticks,
{
    if ticks > 0 {
        assert(ticks * dt == (ticks - 1) * dt + dt) by (nonlinear_arith);
        explosion_outlasts_animation(pos, dt, (ticks - 1) as nat);
        let before = Explosion::at(pos).after_ticks(dt, (ticks - 1) as nat);
        let e = before.ticked(dt);
        assert((before.index + 1) * EXPLOSION_FRAME_INTERVAL == before.index
            * EXPLOSION_FRAME_INTERVAL + EXPLOSION_FRAME_INTERVAL) by (nonlinear_arith);
        assert(e.index * EXPLOSION_FRAME_INTERVAL + e.timer.elapsed <= ticks * dt);
        assert(e.index < EXPLOSION_LEN) by (nonlinear_arith)
            requires
                e.index * EXPLOSION_FRAME_INTERVAL + e.timer.elapsed <= ticks * dt,
                ticks * dt < EXPLOSION_LEN * EXPLOSION_FRAME_INTERVAL,
                0 <= e.timer.elapsed,
                EXPLOSION_FRAME_INTERVAL > 0,
        ;
    }
}

} // verus!
