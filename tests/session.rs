use drive_core::car::{InputState, Tuning};
use drive_core::session::Session;
use drive_core::vector::Vec3;

const FRAME: u32 = 8_333;

fn idle() -> InputState {
    InputState { accel: false, brake: false, steer_left: false, steer_right: false, handbrake: false }
}

#[test]
fn session_starts_at_the_start_line() {
    let s = Session::new(Tuning::default(), 0);
    assert_eq!(s.car.pos, Vec3::new(0, 400, 20_000));
    assert_eq!(s.car.vel, Vec3::zero());
    assert_eq!(s.lap.checkpoint, 0);
    assert_eq!(s.walls.len(), 6);
    assert_eq!(s.obstacles.len(), 9);
    assert_eq!(s.checkpoints.len(), 4);
}

#[test]
fn half_a_second_from_the_start_line() {
    let mut s = Session::new(Tuning::default(), 0);
    let accel = InputState { accel: true, ..idle() };
    for k in 1..=60 {
        let r = s.frame(&accel, FRAME, k * FRAME as i64);
        assert_eq!(r, None);
        assert_eq!(s.car.pos.y, 400);
    }
    let v = s.car.speed();
    assert!(v > 0 && v < 180_000);
    assert_eq!(v, 17_007);
    assert_eq!(s.car.pos, Vec3::new(0, 400, 15_300));
}

#[test]
fn negative_clock_values_are_accepted() {
    let mut s = Session::new(Tuning::default(), -5_000_000);
    let r = s.frame(&idle(), FRAME, -4_000_000);
    assert_eq!(r, None);
    assert_eq!(s.lap.lap_start, -5_000_000);
}

#[test]
fn driving_ahead_stops_at_the_inner_wall() {
    let mut s = Session::new(Tuning::default(), 0);
    let accel = InputState { accel: true, ..idle() };
    for k in 1..=240 {
        s.frame(&accel, FRAME, k * FRAME as i64);
    }
    // the wall spans z 5000..7000; grown by the half-length 3400 it ends at 10400
    assert_eq!(s.car.pos.z, 10_400);
    assert_eq!(s.car.vel.z, 0);
}

#[test]
fn reset_returns_to_the_start() {
    let mut s = Session::new(Tuning::default(), 0);
    let accel = InputState { accel: true, steer_left: true, ..idle() };
    for k in 1..=50 {
        s.frame(&accel, FRAME, k * FRAME as i64);
    }
    assert_ne!(s.car.pos, Vec3::new(0, 400, 20_000));
    s.reset(9_000_000);
    assert_eq!(s.car.pos, Vec3::new(0, 400, 20_000));
    assert_eq!(s.car.yaw, 0);
    assert_eq!(s.car.yaw_rate, 0);
    assert_eq!(s.car.vel, Vec3::zero());
    assert_eq!(s.lap.laps, 0);
    assert_eq!(s.lap.lap_start, 9_000_000);
}
