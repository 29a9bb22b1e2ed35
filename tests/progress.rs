use drive_core::progress::{within, LapState, LapTime};
use drive_core::track::{build_track, Checkpoint};
use drive_core::vector::Vec3;

fn checkpoints() -> Vec<Checkpoint> {
    build_track().2
}

#[test]
fn within_is_strict() {
    let cp = Checkpoint { pos: Vec3::new(0, 0, -44_000), radius: 5_500 };
    assert!(within(&Vec3::new(0, 400, -44_000), &cp));
    assert!(within(&Vec3::new(5_499, 0, -44_000), &cp));
    assert!(!within(&Vec3::new(5_500, 0, -44_000), &cp));
    assert!(!within(&Vec3::new(3_900, 0, -40_100), &cp));
    assert!(within(&Vec3::new(3_800, 0, -40_100), &cp));
    assert!(!within(&Vec3::new(i64::MAX, i64::MIN, 0), &cp));
}

#[test]
fn far_from_the_checkpoint_nothing_changes() {
    let cps = checkpoints();
    let mut lap = LapState::new(0);
    let r = lap.advance(&Vec3::new(0, 400, 20_000), &cps, 1_000);
    assert_eq!(r, None);
    assert_eq!(lap, LapState { checkpoint: 0, laps: 0, lap_start: 0 });
}

#[test]
fn checkpoints_must_be_taken_in_order() {
    let cps = checkpoints();
    let mut lap = LapState::new(0);
    // the second checkpoint does not count while the first is due
    let r = lap.advance(&Vec3::new(24_000, 400, 0), &cps, 1_000);
    assert_eq!(r, None);
    assert_eq!(lap.checkpoint, 0);
}

#[test]
fn full_cycle_completes_one_lap() {
    let cps = checkpoints();
    let mut lap = LapState::new(1_000_000);
    let mut indices = Vec::new();
    let mut done = Vec::new();
    for (k, cp) in cps.iter().enumerate() {
        let pos = Vec3::new(cp.pos.x + 100, 400, cp.pos.z - 100);
        let r = lap.advance(&pos, &cps, 2_000_000 + 1_000_000 * k as i64);
        indices.push(lap.checkpoint);
        done.push(r);
    }
    assert_eq!(indices, vec![1, 2, 3, 0]);
    assert_eq!(done[..3], [None, None, None]);
    assert_eq!(done[3], Some(LapTime { lap: 1, elapsed: 4_000_000 }));
    assert_eq!(lap, LapState { checkpoint: 0, laps: 1, lap_start: 5_000_000 });
}

#[test]
fn second_lap_is_timed_from_the_first_lap_end() {
    let cps = checkpoints();
    let mut lap = LapState { checkpoint: 3, laps: 1, lap_start: 5_000_000 };
    let r = lap.advance(&Vec3::new(-24_000, 400, 0), &cps, 17_500_000);
    assert_eq!(r, Some(LapTime { lap: 2, elapsed: 12_500_000 }));
    assert_eq!(lap, LapState { checkpoint: 0, laps: 2, lap_start: 17_500_000 });
}

#[test]
fn single_checkpoint_track() {
    let cps = vec![Checkpoint { pos: Vec3::new(0, 0, 0), radius: 1_000 }];
    let mut lap = LapState::new(0);
    let r = lap.advance(&Vec3::new(0, 0, 0), &cps, 10);
    assert_eq!(r, Some(LapTime { lap: 1, elapsed: 10 }));
    assert_eq!(lap.checkpoint, 0);
}

#[test]
fn lap_times_may_start_before_zero() {
    let cps = vec![Checkpoint { pos: Vec3::new(0, 0, 0), radius: 1_000 }];
    let mut lap = LapState::new(-3_000_000);
    let r = lap.advance(&Vec3::new(0, 0, 0), &cps, -1_000_000);
    assert_eq!(r, Some(LapTime { lap: 1, elapsed: 2_000_000 }));
    assert_eq!(lap.lap_start, -1_000_000);
}
