use invaders::constants::{ENEMY_SPAWN_INTERVAL, PLAYER_SPAWN_INTERVAL};
use invaders::schedule::Countdown;

#[test]
fn a_countdown_needs_an_interval() {
    assert_eq!(Countdown::every(0), None);
    assert_eq!(Countdown::every(7), Some(Countdown { interval: 7, elapsed: 0 }));
    assert!(Countdown { interval: 7, elapsed: 6 }.is_wf());
    assert!(!Countdown { interval: 7, elapsed: 7 }.is_wf());
    assert!(!Countdown { interval: 0, elapsed: 0 }.is_wf());
}

#[test]
fn a_countdown_fires_once_per_interval() {
    assert_eq!(ENEMY_SPAWN_INTERVAL, 1_000);
    let mut clock = Countdown::every(ENEMY_SPAWN_INTERVAL).unwrap();
    let mut fired: u32 = 0;
    for tick in 1..=125u32 {
        if clock.tick(16) {
            fired += 1;
            // 63 ticks of 16 ms are the first to reach a second, 125 the first to reach two
            assert!(tick == 63 || tick == 125);
        }
    }
    assert_eq!(fired, 2);
    assert_eq!(clock, Countdown { interval: 1_000, elapsed: 0 });
}

#[test]
fn a_countdown_keeps_what_ran_over() {
    assert_eq!(PLAYER_SPAWN_INTERVAL, 500);
    let mut clock = Countdown::every(PLAYER_SPAWN_INTERVAL).unwrap();
    assert!(!clock.tick(499));
    assert_eq!(clock.elapsed, 499);
    assert!(clock.tick(1));
    assert_eq!(clock.elapsed, 0);
    assert!(clock.tick(1_716));
    assert_eq!(clock.elapsed, 216);
    assert!(clock.tick(u32::MAX));
    assert_eq!(clock.elapsed, ((216u64 + u32::MAX as u64) % 500) as u32);
    assert!(!clock.tick(0));
}
