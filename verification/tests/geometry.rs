use invaders::constants::{BASE_SPEED, PLAYER_RESPAWN_DELAY};
use invaders::entity::{Movable, Velocity};
use invaders::geometry::{overlap, Extent, Overlap, Point, Scale, SpriteSize, WinSize};
use invaders::motion::{integrate, movable_fits, Moved};
use invaders::player::{steer, PlayerState};

fn view() -> WinSize {
    WinSize { width: 598_000, height: 676_000 }
}

#[test]
fn laser_inside_enemy_overlaps() {
    let got = overlap(
        Point { x: 100_000, y: 100_000 },
        Extent { width: 9_000, height: 54_000 },
        Point { x: 100_000, y: 100_000 },
        Extent { width: 144_000, height: 75_000 },
    );
    assert_eq!(got, Some(Overlap { x: 153_000, y: 129_000 }));
}

#[test]
fn touching_boxes_do_not_overlap() {
    let size = Extent { width: 10, height: 10 };
    assert_eq!(overlap(Point { x: 0, y: 0 }, size, Point { x: 10, y: 0 }, size), None);
    assert_eq!(overlap(Point { x: 0, y: 0 }, size, Point { x: 0, y: -10 }, size), None);
    assert_eq!(
        overlap(Point { x: 0, y: 0 }, size, Point { x: 9, y: 0 }, size),
        Some(Overlap { x: 2, y: 20 })
    );
}

#[test]
fn overlap_needs_both_axes() {
    let size = Extent { width: 10, height: 10 };
    assert_eq!(overlap(Point { x: 0, y: 0 }, size, Point { x: 3, y: 50 }, size), None);
    assert_eq!(overlap(Point { x: 0, y: 0 }, size, Point { x: 50, y: 3 }, size), None);
}

#[test]
fn overlap_does_not_depend_on_order() {
    let a = (Point { x: -40, y: 7 }, Extent { width: 30, height: 12 });
    let b = (Point { x: -20, y: 15 }, Extent { width: 16, height: 8 });
    assert_eq!(overlap(a.0, a.1, b.0, b.1), overlap(b.0, b.1, a.0, a.1));
    assert!(overlap(a.0, a.1, b.0, b.1).is_some());
}

#[test]
fn overlap_at_the_ends_of_the_coordinates() {
    let small = Extent { width: u32::MAX as u64, height: u32::MAX as u64 };
    let far = overlap(
        Point { x: i32::MIN, y: i32::MIN },
        small,
        Point { x: i32::MAX, y: i32::MAX },
        small,
    );
    assert_eq!(far, None);
    let size = Extent { width: u64::MAX, height: u64::MAX };
    let near = overlap(Point { x: i32::MAX, y: 0 }, size, Point { x: i32::MAX, y: 0 }, size);
    assert_eq!(near, Some(Overlap { x: 2 * u64::MAX as u128, y: 2 * u64::MAX as u128 }));
}

#[test]
fn a_box_is_its_size_times_its_scale() {
    let size = SpriteSize { width: 9_000, height: 54_001 };
    assert_eq!(size.scaled(Scale { x: 500, y: 500 }), Extent { width: 4_500, height: 27_000 });
    assert_eq!(size.scaled(Scale { x: 1_000, y: 2_000 }), Extent { width: 9_000, height: 108_002 });
    assert_eq!(size.scaled(Scale { x: 0, y: 1 }), Extent { width: 0, height: 54 });
    let huge = SpriteSize { width: u32::MAX, height: u32::MAX };
    assert_eq!(
        huge.scaled(Scale { x: u32::MAX, y: 1_000 }),
        Extent { width: 18_446_744_065_119_617, height: u32::MAX as u64 }
    );
}

#[test]
fn view_bounds_are_checked() {
    assert!(view().is_wf());
    assert!(!WinSize { width: 3, height: 676_000 }.is_wf());
    assert!(!WinSize { width: 598_000, height: 2 }.is_wf());
    assert!(!WinSize { width: 0x4000_0001, height: 676_000 }.is_wf());
}

#[test]
fn straight_flight_adds_speed_times_time() {
    let at = |x: i32, y: i32| Moved::At(Point { x, y });
    let keep = Movable { auto_despawn: false };
    let start = Point { x: 1_000, y: -2_000 };
    assert_eq!(BASE_SPEED, 500);
    assert_eq!(integrate(start, Velocity { x: 0, y: 1 }, keep, 16, &view()), at(1_000, 6_000));
    assert_eq!(integrate(start, Velocity { x: -1, y: 0 }, keep, 16, &view()), at(-7_000, -2_000));
    assert_eq!(integrate(start, Velocity { x: 1, y: -1 }, keep, 3, &view()), at(2_500, -3_500));
    assert_eq!(integrate(start, Velocity { x: 1, y: 1 }, keep, 0, &view()), at(1_000, -2_000));
    assert_eq!(integrate(start, Velocity { x: 0, y: 0 }, keep, 1_000, &view()), at(1_000, -2_000));
}

#[test]
fn projectiles_are_retired_beyond_the_margin() {
    let fly = Movable { auto_despawn: true };
    let up = Velocity { x: 0, y: 1 };
    // half the height plus the margin is 538_000
    assert_eq!(
        integrate(Point { x: 0, y: 530_000 }, up, fly, 16, &view()),
        Moved::At(Point { x: 0, y: 538_000 })
    );
    assert_eq!(integrate(Point { x: 0, y: 530_001 }, up, fly, 16, &view()), Moved::Gone);
    let left = Velocity { x: -1, y: 0 };
    // half the width plus the margin is 499_000
    assert_eq!(
        integrate(Point { x: -491_000, y: 0 }, left, fly, 16, &view()),
        Moved::At(Point { x: -499_000, y: 0 })
    );
    assert_eq!(integrate(Point { x: -491_001, y: 0 }, left, fly, 16, &view()), Moved::Gone);
    assert_eq!(integrate(Point { x: i32::MAX, y: 0 }, Velocity { x: 1, y: 0 }, fly, u32::MAX, &view()), Moved::Gone);
}

#[test]
fn the_ship_is_never_retired() {
    let keep = Movable { auto_despawn: false };
    let right = Velocity { x: 1, y: 0 };
    let start = Point { x: 600_000, y: 0 };
    assert!(movable_fits(start, right, keep, 16, &view()));
    assert_eq!(integrate(start, right, keep, 16, &view()), Moved::At(Point { x: 608_000, y: 0 }));
    // beyond the field, but within 32 bits
    assert_eq!(
        integrate(Point { x: 0x4000_0000, y: 0 }, right, keep, 1, &view()),
        Moved::At(Point { x: 0x4000_01F4, y: 0 })
    );
    assert!(movable_fits(Point { x: i32::MAX - 500, y: 0 }, right, keep, 1, &view()));
    assert!(!movable_fits(Point { x: i32::MAX - 499, y: 0 }, right, keep, 1, &view()));
    assert!(movable_fits(Point { x: i32::MAX, y: 0 }, right, Movable { auto_despawn: true }, 1, &view()));
}

#[test]
fn player_state_starts_away_and_unshot() {
    let state = PlayerState::default();
    assert_eq!(state, PlayerState { on: false, last_shot: None });
    assert!(state.can_spawn(0));
}

#[test]
fn player_state_records_shot_and_spawn() {
    let mut state = PlayerState::default();
    state.spawned();
    assert_eq!(state, PlayerState { on: true, last_shot: None });
    assert!(!state.can_spawn(1_000_000));
    state.shot(7_500);
    assert_eq!(state, PlayerState { on: false, last_shot: Some(7_500) });
    state.spawned();
    assert_eq!(state, PlayerState { on: true, last_shot: None });
}

#[test]
fn respawn_waits_until_the_delay_is_over() {
    let mut state = PlayerState { on: true, last_shot: None };
    state.shot(10_000);
    assert_eq!(PLAYER_RESPAWN_DELAY, 2_000);
    assert!(!state.can_spawn(0));
    assert!(!state.can_spawn(10_000));
    assert!(!state.can_spawn(11_999));
    assert!(!state.can_spawn(12_000));
    assert!(state.can_spawn(12_001));
    let mut late = PlayerState::default();
    late.shot(u64::MAX);
    assert!(!late.can_spawn(u64::MAX));
}

#[test]
fn left_key_wins_over_right() {
    assert_eq!(steer(true, false), -1);
    assert_eq!(steer(true, true), -1);
    assert_eq!(steer(false, true), 1);
    assert_eq!(steer(false, false), 0);
}
