use invaders::constants::{BASE_SPEED, FORMATION_MEMBERS_MAX};
use invaders::formation::{
    draw_wave, is_drawn_for, isqrt, normalize, point_on, wave_from_draws, Formation,
    FormationData, FormationMaker, Heading, Made, Radius,
};
use invaders::geometry::{Point, WinSize};

fn view() -> WinSize {
    WinSize { width: 598_000, height: 676_000 }
}

fn round_path() -> FormationData {
    FormationData {
        start: Point { x: 399_000, y: 0 },
        radius: Radius { x: 100_000, y: 100_000 },
        pivot: Point { x: 0, y: 0 },
        speed: 500,
    }
}

fn assert_drawn_for_view(data: &FormationData) {
    assert!(data.start.x == 399_000 || data.start.x == -399_000);
    assert!(-438_000 <= data.start.y && data.start.y < 438_000);
    assert!(-149_500 <= data.pivot.x && data.pivot.x < 149_500);
    assert!(0 <= data.pivot.y && data.pivot.y < 225_333);
    assert!(80_000 <= data.radius.x && data.radius.x < 150_000);
    assert_eq!(data.radius.y, 100_000);
    assert_eq!(data.speed, BASE_SPEED);
    assert!(data.is_wf());
    assert!(is_drawn_for(&view(), data));
}

fn fresh(made: Made) -> FormationData {
    match made {
        Made::Fresh(data) => data,
        Made::Member(_) => panic!("a phase was wanted"),
    }
}

#[test]
fn square_roots_are_rounded_down() {
    assert_eq!(isqrt(0), 0);
    assert_eq!(isqrt(1), 1);
    assert_eq!(isqrt(3), 1);
    assert_eq!(isqrt(15), 3);
    assert_eq!(isqrt(16), 4);
    assert_eq!(isqrt(25_000_000), 5_000);
    assert_eq!(isqrt(24_999_999), 4_999);
    assert_eq!(isqrt(u128::MAX), u64::MAX as u128);
}

#[test]
fn angles_are_brought_into_one_turn() {
    assert_eq!(normalize(0), 0);
    assert_eq!(normalize(6_283_185), 6_283_185);
    assert_eq!(normalize(6_283_186), 0);
    assert_eq!(normalize(7_000_000), 716_814);
    assert_eq!(normalize(-1), 6_283_185);
    assert_eq!(normalize(-6_283_186), 0);
    assert_eq!(normalize(i64::MIN), 813_714);
    assert_eq!(normalize(i64::MAX), 5_469_471);
}

#[test]
fn a_path_is_put_together_from_its_draws() {
    let right = wave_from_draws(&view(), true, -5, 7, 9, 81_000);
    assert_eq!(
        right,
        FormationData {
            start: Point { x: 399_000, y: -5 },
            radius: Radius { x: 81_000, y: 100_000 },
            pivot: Point { x: 7, y: 9 },
            speed: 500,
        }
    );
    let left = wave_from_draws(&view(), false, 11, -7, 9, 149_999);
    assert_eq!(left.start, Point { x: -399_000, y: 11 });
    assert_eq!(left.radius, Radius { x: 149_999, y: 100_000 });
}

#[test]
fn drawn_paths_lie_in_their_bounds() {
    let mut heights: Vec<i32> = Vec::new();
    let mut radii: Vec<u32> = Vec::new();
    for _ in 0..64 {
        let data = draw_wave(&view());
        assert_drawn_for_view(&data);
        heights.push(data.start.y);
        radii.push(data.radius.x);
    }
    assert!(heights.iter().any(|y| *y != -438_000));
    assert!(heights.iter().any(|y| *y != heights[0]));
    assert!(radii.iter().any(|r| *r != 80_000));
}

#[test]
fn smallest_view_can_be_drawn_for() {
    let data = draw_wave(&WinSize { width: 4, height: 3 });
    assert_eq!(data.pivot.y, 0);
    assert!(data.pivot.x == -1 || data.pivot.x == 0);
    assert!(data.start.x == 100_002 || data.start.x == -100_002);
}

#[test]
fn a_drawn_wave_is_stored_at_once() {
    assert_eq!(FORMATION_MEMBERS_MAX, 2);
    let mut maker = FormationMaker::default();
    assert_eq!(
        maker,
        FormationMaker { current_template: None, current_members: 0, phase_pending: false }
    );
    assert!(!maker.room());
    let path = fresh(maker.make(&view()));
    assert_drawn_for_view(&path);
    assert_eq!(
        maker,
        FormationMaker {
            current_template: Some(Formation { data: path, angle: 0 }),
            current_members: 1,
            phase_pending: true,
        }
    );
    assert!(maker.is_wf());
}

#[test]
fn members_of_a_wave_share_one_formation() {
    let mut maker = FormationMaker::new();
    let path = fresh(maker.make(&view()));
    let first = maker.begin_wave(1_000_000).unwrap();
    assert_eq!(first, Formation { data: path, angle: 1_000_000 });
    assert_eq!(maker.current_members, 1);
    assert!(maker.room());
    let second = maker.make(&view());
    assert_eq!(second, Made::Member(first));
    assert_eq!(maker.current_members, 2);
    assert_eq!(maker.current_template, Some(first));
}

#[test]
fn a_full_wave_is_followed_by_a_new_one() {
    let mut maker = FormationMaker::new();
    let path = fresh(maker.make(&view()));
    let first = maker.begin_wave(-1).unwrap();
    assert_eq!(first.angle, 6_283_185);
    assert_eq!(maker.make(&view()), Made::Member(first));
    assert_eq!(maker.current_members, 2);
    assert!(!maker.room());
    let next_path = fresh(maker.make(&view()));
    assert_drawn_for_view(&next_path);
    assert_ne!(next_path, path);
    assert_eq!(maker.current_members, 1);
    assert!(maker.phase_pending);
    assert_eq!(maker.current_template, Some(Formation { data: next_path, angle: 0 }));
    let next = maker.begin_wave(42).unwrap();
    assert_eq!(next, Formation { data: next_path, angle: 42 });
    assert_eq!(maker.current_members, 1);
    assert_eq!(maker.make(&view()), Made::Member(next));
}

#[test]
fn every_wave_has_as_many_members_as_the_cap() {
    let mut maker = FormationMaker::new();
    let mut paths: Vec<FormationData> = Vec::new();
    for call in 0..7u32 {
        let data = match maker.make(&view()) {
            Made::Fresh(data) => data,
            Made::Member(formation) => formation.data,
        };
        assert_eq!(maker.current_members, call % 2 + 1);
        if call % 2 == 0 {
            assert!(!paths.contains(&data));
            maker.begin_wave(5);
        } else {
            assert_eq!(data, paths[call as usize - 1]);
        }
        paths.push(data);
    }
}

#[test]
fn a_wave_can_fill_while_its_phase_is_pending() {
    let mut maker = FormationMaker::new();
    let path = fresh(maker.make(&view()));
    assert_eq!(maker.make(&view()), Made::Fresh(path));
    assert_eq!(maker.current_members, 2);
    assert!(maker.phase_pending);
    let formation = maker.begin_wave(7).unwrap();
    assert_eq!(formation, Formation { data: path, angle: 7 });
    assert_eq!(maker.current_template, Some(formation));
    assert_eq!(maker.current_members, 2);
}

#[test]
fn a_wave_begins_once() {
    let mut maker = FormationMaker::new();
    assert_eq!(maker.begin_wave(5), None);
    assert_eq!(maker, FormationMaker::new());
    fresh(maker.make(&view()));
    let first = maker.begin_wave(5).unwrap();
    let before = maker;
    assert_eq!(maker.begin_wave(99), None);
    assert_eq!(maker, before);
    assert_eq!(maker.current_template, Some(first));
}

#[test]
fn paths_off_the_view_are_told_apart() {
    let data = draw_wave(&view());
    assert!(is_drawn_for(&view(), &data));
    assert!(!is_drawn_for(&view(), &FormationData { speed: 7, ..data }));
    assert!(!is_drawn_for(&view(), &FormationData { radius: Radius { x: 1, y: 100_000 }, ..data }));
    assert!(!is_drawn_for(&view(), &FormationData { pivot: Point { x: 149_500, y: 0 }, ..data }));
    assert!(is_drawn_for(&view(), &round_path()));
}

#[test]
fn points_of_the_ellipse() {
    let data = FormationData {
        start: Point { x: 0, y: 0 },
        radius: Radius { x: 80_000, y: 100_000 },
        pivot: Point { x: 10, y: 20 },
        speed: 500,
    };
    assert_eq!(
        point_on(&data, Heading { cos: -500_000, sin: 500_000 }),
        Point { x: -39_990, y: 50_020 }
    );
    assert_eq!(
        point_on(&data, Heading { cos: 1_000_000, sin: -1_000_000 }),
        Point { x: 80_010, y: -99_980 }
    );
    let tiny = FormationData { radius: Radius { x: 3, y: 3 }, pivot: Point { x: 0, y: 0 }, ..data };
    assert_eq!(point_on(&tiny, Heading { cos: -500_000, sin: 500_000 }), Point { x: -1, y: 1 });
}

#[test]
fn the_phase_moves_back_by_the_step() {
    let formation = Formation { data: round_path(), angle: 1_000_000 };
    assert_eq!(formation.candidate(16), 949_071);
    assert_eq!(formation.candidate(0), 1_000_000);
    let narrow = Formation {
        data: FormationData { radius: Radius { x: 100_000, y: 80_000 }, ..round_path() },
        angle: 10,
    };
    assert_eq!(narrow.candidate(16), 6_219_535);
}

#[test]
fn an_enemy_far_from_its_path_closes_in() {
    let formation = Formation { data: round_path(), angle: 50_929 };
    let east = Heading { cos: 1_000_000, sin: 0 };
    let (pos, after) = formation.follow(Point { x: 300_000, y: 0 }, 16, east);
    assert_eq!(pos, Point { x: 292_000, y: 0 });
    assert_eq!(after, formation);
}

#[test]
fn an_enemy_moves_along_the_straight_line() {
    let formation = Formation { data: round_path(), angle: 0 };
    let heading = Heading { cos: 30_000, sin: -40_000 };
    let (pos, after) = formation.follow(Point { x: 0, y: 0 }, 4, heading);
    assert_eq!(pos, Point { x: 1_200, y: -1_600 });
    assert_eq!(after.angle, 0);
}

#[test]
fn an_enemy_near_its_path_snaps_and_turns() {
    let formation = Formation { data: round_path(), angle: 1_000_000 };
    let east = Heading { cos: 1_000_000, sin: 0 };
    let (pos, after) = formation.follow(Point { x: 100_100, y: 0 }, 16, east);
    assert_eq!(pos, Point { x: 100_000, y: 0 });
    assert_eq!(after, Formation { data: round_path(), angle: 949_071 });
    // a twentieth of the tick's travel is 400: at that distance the phase stays
    let (edge, kept) = formation.follow(Point { x: 100_400, y: 0 }, 16, east);
    assert_eq!(edge, Point { x: 100_000, y: 0 });
    assert_eq!(kept, formation);
    let (close, turned) = formation.follow(Point { x: 100_399, y: 0 }, 16, east);
    assert_eq!(close, Point { x: 100_000, y: 0 });
    assert_eq!(turned.angle, 949_071);
}

#[test]
fn an_enemy_on_its_target_stays() {
    let formation = Formation { data: round_path(), angle: 0 };
    let east = Heading { cos: 1_000_000, sin: 0 };
    let (pos, after) = formation.follow(Point { x: 100_000, y: 0 }, 0, east);
    assert_eq!(pos, Point { x: 100_000, y: 0 });
    assert_eq!(after, formation);
    let (held, _) = formation.follow(Point { x: 5, y: 5 }, 0, east);
    assert_eq!(held, Point { x: 5, y: 5 });
}

#[test]
fn validity_of_paths_and_headings() {
    assert!(round_path().is_wf());
    assert!(!FormationData { radius: Radius { x: 0, y: 100_000 }, ..round_path() }.is_wf());
    assert!(!FormationData { pivot: Point { x: 0x2000_0001, y: 0 }, ..round_path() }.is_wf());
    assert!(Heading { cos: -1_000_000, sin: 1_000_000 }.is_wf());
    assert!(!Heading { cos: 1_000_001, sin: 0 }.is_wf());
    assert!(Formation { data: round_path(), angle: 6_283_185 }.is_wf());
    assert!(!Formation { data: round_path(), angle: 6_283_186 }.is_wf());
    assert!(!Formation { data: round_path(), angle: -1 }.is_wf());
}
