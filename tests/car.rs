use drive_core::car::{Car, InputState, Tuning, DRAG_COEFF, GROUND_HEIGHT, MAX_ENGINE_FORCE};
use drive_core::fixed::{cos_micro, sin_micro, ANGLE_LIMIT, HALF_PI_MICRORAD, PI_MICRORAD};
use drive_core::vector::Vec3;

const FRAME: u32 = 8_333;

fn idle() -> InputState {
    InputState { accel: false, brake: false, steer_left: false, steer_right: false, handbrake: false }
}

fn accel_only() -> InputState {
    InputState { accel: true, ..idle() }
}

fn start() -> Car {
    Car::new(Vec3::new(0, 400, 20_000))
}

#[test]
fn new_car_is_at_rest() {
    let c = start();
    assert_eq!(c.pos, Vec3::new(0, 400, 20_000));
    assert_eq!(c.yaw, 0);
    assert_eq!(c.vel, Vec3::zero());
    assert_eq!(c.yaw_rate, 0);
    assert_eq!(c.size, Vec3::new(1800, 800, 3400));
}

#[test]
fn trig_values() {
    assert_eq!(sin_micro(0), 0);
    assert_eq!(cos_micro(0), 1_000_000);
    assert_eq!(sin_micro(HALF_PI_MICRORAD), 1_000_000);
    assert_eq!(sin_micro(PI_MICRORAD), 0);
    assert_eq!(cos_micro(PI_MICRORAD), -1_000_000);
    assert_eq!(sin_micro(-HALF_PI_MICRORAD), -1_000_000);
    assert_eq!(sin_micro(523_599), 500_000);
    assert_eq!(cos_micro(1_047_198), 499_999);
    // one turn later the value repeats
    assert_eq!(sin_micro(523_599 + 6_283_185), 500_000);
}

#[test]
fn forward_and_right_at_zero_heading() {
    let c = start();
    assert_eq!(c.forward(), Vec3::new(0, 0, -1_000_000));
    assert_eq!(c.right(), Vec3::new(1_000_000, 0, 0));
}

#[test]
fn forward_and_right_at_quarter_turn() {
    let mut c = start();
    c.yaw = HALF_PI_MICRORAD;
    assert_eq!(c.forward(), Vec3::new(-1_000_000, 0, 0));
    assert_eq!(c.right(), Vec3::new(0, 0, -1_000_000));
}

#[test]
fn speed_is_signed() {
    let mut c = start();
    c.vel = Vec3::new(0, 0, -5_000);
    assert_eq!(c.speed(), 5_000);
    c.vel = Vec3::new(0, 0, 3_000);
    assert_eq!(c.speed(), -3_000);
    c.vel = Vec3::new(7_000, 0, 0);
    assert_eq!(c.speed(), 0);
}

#[test]
fn idle_car_stays_put() {
    let mut c = start();
    let before = c;
    for dt in [1_000u32, 8_333, 16_667, 100_000, 1] {
        c.update(dt, &idle());
        assert_eq!(c, before);
    }
}

#[test]
fn one_step_of_acceleration() {
    let mut c = start();
    c.update(FRAME, &accel_only());
    assert_eq!(c.vel, Vec3::new(0, 0, -371));
    assert_eq!(c.pos, Vec3::new(0, 400, 19_997));
    assert_eq!(c.speed(), 371);
}

#[test]
fn one_second_of_acceleration() {
    let mut c = start();
    let eq = drag_equilibrium();
    for _ in 0..120 {
        c.update(FRAME, &accel_only());
        assert_eq!(c.pos.y, 400);
    }
    let v = c.speed();
    assert!(v > 0 && v < eq);
    assert_eq!(v, 26_556);
    assert_eq!(c.pos, Vec3::new(0, 400, 4_168));
}

/// Smallest speed at which drag is at least the engine thrust.
fn drag_equilibrium() -> i64 {
    let mut v: i64 = 0;
    while (DRAG_COEFF as i64) * v / 1_000_000 < MAX_ENGINE_FORCE as i64 {
        v += 1;
    }
    v
}

#[test]
fn terminal_speed_is_approached_from_below() {
    let mut c = start();
    let eq = drag_equilibrium();
    assert_eq!(eq, 180_000);
    let mut last = 0;
    for _ in 0..1_000 {
        c.update(FRAME, &accel_only());
        let v = c.speed();
        assert!(v >= last);
        assert!(v <= eq);
        last = v;
    }
    // converged: further steps no longer change the speed
    let mut d = c;
    d.update(FRAME, &accel_only());
    assert_eq!(d.speed(), last);
    // rolling resistance holds the steady state below the drag equilibrium
    assert_eq!(last, 38_778);
}

#[test]
fn steering_ramps_up_gradually() {
    let mut c = start();
    let left = InputState { steer_left: true, ..idle() };
    c.update(FRAME, &left);
    assert_eq!(c.yaw_rate, 24_478);
    assert_eq!(c.yaw, 203);
    for _ in 0..59 {
        c.update(FRAME, &left);
    }
    assert_eq!(c.yaw_rate, 842_752);
    assert_eq!(c.yaw, 257_363);
}

#[test]
fn steering_right_mirrors_left() {
    let mut l = start();
    let mut r = start();
    for _ in 0..30 {
        l.update(FRAME, &InputState { steer_left: true, ..idle() });
        r.update(FRAME, &InputState { steer_right: true, ..idle() });
    }
    assert_eq!(l.yaw_rate, -r.yaw_rate);
    assert_eq!(l.yaw, -r.yaw);
}

#[test]
fn both_steering_inputs_cancel() {
    let mut c = start();
    c.update(FRAME, &InputState { steer_left: true, steer_right: true, ..idle() });
    assert_eq!(c.yaw_rate, 0);
    assert_eq!(c.yaw, 0);
}

#[test]
fn steering_decays_after_release() {
    let mut c = start();
    let left = InputState { steer_left: true, ..idle() };
    for _ in 0..60 {
        c.update(FRAME, &left);
    }
    let mut rates = vec![c.yaw_rate];
    for _ in 0..40 {
        c.update(FRAME, &idle());
        rates.push(c.yaw_rate);
    }
    assert_eq!(&rates[..5], &[842_752, 800_717, 759_558, 719_256, 679_794]);
    for w in rates.windows(2) {
        assert!(w[1] <= w[0]);
        assert!(w[1] >= 0);
    }
    assert_eq!(rates[26], 0);
    assert!(rates[25] > 0);
}

#[test]
fn accelerate_and_brake_sum() {
    let mut c = Car::new(Vec3::new(0, 400, 0));
    c.update(10_000, &InputState { accel: true, brake: true, ..idle() });
    assert_eq!(c.vel, Vec3::new(0, 0, 148));
    assert!(c.speed() < 0);
}

#[test]
fn drag_and_damping_slow_a_coasting_car() {
    let mut c = Car::new(Vec3::new(0, 400, 0));
    c.vel = Vec3::new(0, 0, -20_000);
    c.update(10_000, &idle());
    assert_eq!(c.vel, Vec3::new(0, 0, -19_770));
    assert_eq!(c.pos, Vec3::new(0, 400, -197));
}

#[test]
fn handbrake_lets_the_car_slide() {
    let mut gripping = Car::new(Vec3::new(0, 400, 0));
    gripping.vel = Vec3::new(5_000, 0, 0);
    let mut sliding = gripping;
    gripping.update(10_000, &idle());
    sliding.update(10_000, &InputState { handbrake: true, ..idle() });
    assert_eq!(gripping.vel, Vec3::new(4_657, 0, 0));
    assert_eq!(sliding.vel, Vec3::new(4_875, 0, 0));
}

#[test]
fn thrust_follows_heading() {
    let mut c = Car::new(Vec3::new(0, 400, 0));
    c.yaw = HALF_PI_MICRORAD;
    c.update(10_000, &accel_only());
    assert_eq!(c.vel, Vec3::new(-445, 0, 0));
    assert_eq!(c.pos, Vec3::new(-4, 400, 0));
}

#[test]
fn height_is_forced_to_ground() {
    let mut c = Car::new(Vec3::new(0, 2_000, 0));
    c.update(FRAME, &idle());
    assert_eq!(c.pos.y, GROUND_HEIGHT);
}

#[test]
fn custom_tuning_changes_the_response() {
    let mut t = Tuning::default();
    t.max_engine_force = 90_000;
    let mut strong = start();
    strong.update_tuned(FRAME, &accel_only(), &t);
    let mut standard = start();
    standard.update(FRAME, &accel_only());
    assert_eq!(standard.vel.z, -371);
    assert_eq!(strong.vel.z, -743);
}

#[test]
fn a_long_step_damps_to_rest() {
    let mut c = Car::new(Vec3::new(0, 400, 0));
    c.vel = Vec3::new(3_000, 0, -4_000);
    // two seconds of rolling resistance at 0.9 per second leave nothing
    c.update(2_000_000, &idle());
    assert_eq!(c.vel, Vec3::zero());
    assert_eq!(c.pos, Vec3::new(0, 400, 0));
}

#[test]
fn heading_is_brought_back_into_one_turn_at_its_limit() {
    let mut c = Car::new(Vec3::new(0, 400, 0));
    c.yaw = ANGLE_LIMIT - 10;
    c.yaw_rate = 4_000_000;
    c.update(100_000, &idle());
    assert_eq!(c.yaw_rate, 2_775_000);
    // ANGLE_LIMIT is a whole number of turns, so the heading keeps its direction
    assert_eq!(c.yaw, 277_490);
    assert_eq!(c.forward(), Vec3::new(-273_942, 0, -961_746));
}

#[test]
fn heading_is_not_wrapped_within_its_limit() {
    let mut c = Car::new(Vec3::new(0, 400, 0));
    c.yaw = 20_000_000;
    c.update(FRAME, &idle());
    assert_eq!(c.yaw, 20_000_000);
}

#[test]
fn basis_is_unit_length() {
    let mut c = start();
    for yaw in [0i64, 1, 523_599, 785_398, 1_570_796, 2_000_000, 3_141_593, -4_000_000, 6_283_184] {
        c.yaw = yaw;
        let f = c.forward();
        let r = c.right();
        let ff = f.x * f.x + f.z * f.z;
        let rr = r.x * r.x + r.z * r.z;
        assert!(ff <= 1_000_000_000_000 && ff > 1_000_000_000_000 - 2_000_001);
        assert!(rr <= 1_000_000_000_000 && rr > 1_000_000_000_000 - 2_000_001);
        // right is perpendicular to forward
        assert_eq!(f.x * r.x + f.z * r.z, 0);
    }
    c.yaw = 785_398;
    assert_eq!(c.forward(), Vec3::new(-707_107, 0, -707_106));
}
