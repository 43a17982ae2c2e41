//! Straight flight: what a velocity does to a position in one tick, and
//! when a thing has left the play area.

use vstd::prelude::*;
use crate::constants::{BASE_SPEED, DESPAWN_MARGIN, VIEW_MAX};
use crate::entity::{Movable, Velocity};
use crate::geometry::{Point, WinSize};

verus! {

/// Where a thing is after a tick, or that it is gone.
#[derive(Clone, Copy, Debug, PartialEq, Eq, Structural)]
pub enum Moved {
    At(Point),
    Gone,
}

/// A coordinate after `dt` milliseconds of flight.
pub open spec fn advanced(from: int, direction: int, dt: u32) -> int {
    from + direction * BASE_SPEED * dt
}

/// The point lies beyond the view by more than the margin, on some side.
pub open spec fn beyond(x: int, y: int, win: WinSize) -> bool {
    ||| y > win.height / 2 + DESPAWN_MARGIN
    ||| y < -(win.height / 2) - DESPAWN_MARGIN
    ||| x > win.width / 2 + DESPAWN_MARGIN
    ||| x < -(win.width / 2) - DESPAWN_MARGIN
}

/// A tick of `dt` milliseconds retires the thing.
pub open spec fn retires(pos: Point, velocity: Velocity, movable: Movable, dt: u32, win: WinSize) -> bool {
    movable.auto_despawn && beyond(
        advanced(pos.x as int, velocity.x as int, dt),
        advanced(pos.y as int, velocity.y as int, dt),
        win,
    )
}

/// The thing can be moved: it will be retired when it strays, or its new
/// coordinates are ones of 32 bits.
pub open spec fn can_move(pos: Point, velocity: Velocity, movable: Movable, dt: u32, win: WinSize) -> bool {
    movable.auto_despawn || (fits(advanced(pos.x as int, velocity.x as int, dt)) && fits(
        advanced(pos.y as int, velocity.y as int, dt),
    ))
}

/// The coordinate is one of 32 bits.
pub open spec fn fits(coordinate: int) -> bool {
    i32::MIN <= coordinate <= i32::MAX
}

/// The coordinate is one of the field.
pub open spec fn in_reach(coordinate: int) -> bool {
    -(VIEW_MAX as int) <= coordinate <= VIEW_MAX
}

fn advance_axis(from: i32, direction: i8, dt: u32) -> (out: i64)
    requires
        -1 <= direction <= 1,
    ensures
        out == advanced(from as int, direction as int, dt),
{
    assert(BASE_SPEED == 500);
    let way: i64 = 500i64 * dt as i64;
    assert(direction * BASE_SPEED * dt == if direction > 0 {
        way as int
    } else if direction < 0 {
        -way
    } else {
        0
    }) by (nonlinear_arith)
        requires
            BASE_SPEED == 500,
            way == 500 * dt,
            -1 <= direction <= 1,
    ;
    if direction > 0 {
        from as i64 + way
    } else if direction < 0 {
        from as i64 - way
    } else {
        from as i64
    }
}

fn is_beyond(x: i64, y: i64, win: &WinSize) -> (out: bool)
    ensures
        out == beyond(x as int, y as int, *win),
{
    let half_w: i64 = (win.width / 2) as i64 + DESPAWN_MARGIN as i64;
    let half_h: i64 = (win.height / 2) as i64 + DESPAWN_MARGIN as i64;
    y > half_h || y < -half_h || x > half_w || x < -half_w
}

/// Decides `can_move`.
pub fn movable_fits(pos: Point, velocity: Velocity, movable: Movable, dt: u32, win: &WinSize) -> (out: bool)
    requires
        velocity.wf(),
    ensures
        out == can_move(pos, velocity, movable, dt, *win),
{
    if movable.auto_despawn {
        return true;
    }
    let x: i64 = advance_axis(pos.x, velocity.x, dt);
    let y: i64 = advance_axis(pos.y, velocity.y, dt);
    -0x8000_0000i64 <= x && x <= 0x7FFF_FFFFi64 && -0x8000_0000i64 <= y && y <= 0x7FFF_FFFFi64
}

/// Moves one thing for a tick of `dt` milliseconds: each coordinate grows by
/// its direction times the base speed times `dt`. A thing with
/// `auto_despawn` that ends beyond the view and its margin is gone.
pub fn integrate(pos: Point, velocity: Velocity, movable: Movable, dt: u32, win: &WinSize) -> (out:
    Moved)
    requires
        velocity.wf(),
        win.wf(),
        can_move(pos, velocity, movable, dt, *win),
    ensures
        retires(pos, velocity, movable, dt, *win) ==> out == Moved::Gone,
        !retires(pos, velocity, movable, dt, *win) ==> (out matches Moved::At(p) && p.x == advanced(
            pos.x as int,
            velocity.x as int,
            dt,
        ) && p.y == advanced(pos.y as int, velocity.y as int, dt)),
        !movable.auto_despawn ==> out is At,
{
    let x: i64 = advance_axis(pos.x, velocity.x, dt);
    let y: i64 = advance_axis(pos.y, velocity.y, dt);
    if movable.auto_despawn && is_beyond(x, y, win) {
        Moved::Gone
    } else {
        Moved::At(Point { x: x as i32, y: y as i32 })
    }
}

} // verus!
