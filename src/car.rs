use crate::fixed::{
    abs, clamp, clamp_i128, cosine, div0, div_toward_zero, lemma_div0_bound,
    lemma_mul_bound, lemma_reduce_heading_keeps_direction, lemma_scale_bound, lemma_unit, max0,
    reduce_heading, reduce_heading_exec, sin_cos_micro, sine, ANGLE_LIMIT, MICRO,
};
use crate::vector::{Vec3, COORD_LIMIT, EXTENT_LIMIT};
use vstd::arithmetic::power::pow;
use vstd::prelude::*;

verus! {

/// Forward thrust, in millimetres per second squared.
pub const MAX_ENGINE_FORCE: u32 = 45_000;

/// Braking (and reversing) thrust, in millimetres per second squared.
pub const BRAKE_FORCE: u32 = 60_000;

/// Yaw rate that full steering aims for, in micro-radians per second.
pub const STEER_RATE: u32 = 2_800_000;

/// Largest change of the yaw rate per second, in micro-radians per second
/// squared.
pub const ANGULAR_DAMP: u32 = 3_000_000;

/// Rolling resistance: share of the velocity lost per second, in parts per
/// million.
pub const LINEAR_DAMP: u32 = 900_000;

/// Drag: share of the longitudinal speed removed per second, in parts per
/// million; the deceleration is `drag_coeff * v / MICRO`.
pub const DRAG_COEFF: u32 = 250_000;

/// Lateral grip: share of the sideways speed removed per second, in parts per
/// million.
pub const GRIP: u32 = 6_000_000;

/// Lateral grip while the handbrake is held, in parts per million per second.
pub const HAND_BRAKE_GRIP: u32 = 1_600_000;

/// Rotational friction: share of the yaw rate lost per second, in parts per
/// million.
pub const ROT_FRICTION: u32 = 2_500_000;

/// Height at which the vehicle rides above the ground, in millimetres.
pub const GROUND_HEIGHT: i64 = 400;

/// Largest magnitude of a velocity component, in millimetres per second.
pub const SPEED_LIMIT: i64 = 1_000_000_000;

/// Largest magnitude of the yaw rate, in micro-radians per second.
pub const YAW_RATE_LIMIT: i64 = 4_294_967_295;

/// What the driver asks for during one frame. Accelerate and brake may both
/// be held; so may both steering directions.
#[derive(Clone, Copy, Debug, PartialEq, Eq, Structural)]
pub struct InputState {
    pub accel: bool,
    pub brake: bool,
    pub steer_left: bool,
    pub steer_right: bool,
    pub handbrake: bool,
}

/// The force model's parameters, in the units of the constants above.
#[derive(Clone, Copy, Debug, PartialEq, Eq, Structural)]
pub struct Tuning {
    pub max_engine_force: u32,
    pub brake_force: u32,
    pub steer_rate: u32,
    pub angular_damp: u32,
    pub linear_damp: u32,
    pub drag_coeff: u32,
    pub grip: u32,
    pub hand_brake_grip: u32,
    pub rot_friction: u32,
}

pub open spec fn standard_tuning() -> Tuning {
    Tuning {
        max_engine_force: MAX_ENGINE_FORCE,
        brake_force: BRAKE_FORCE,
        steer_rate: STEER_RATE,
        angular_damp: ANGULAR_DAMP,
        linear_damp: LINEAR_DAMP,
        drag_coeff: DRAG_COEFF,
        grip: GRIP,
        hand_brake_grip: HAND_BRAKE_GRIP,
        rot_friction: ROT_FRICTION,
    }
}

impl Default for Tuning {
    fn default() -> (r: Tuning)
        ensures
            r == standard_tuning(),
    {
        Tuning {
            max_engine_force: MAX_ENGINE_FORCE,
            brake_force: BRAKE_FORCE,
            steer_rate: STEER_RATE,
            angular_damp: ANGULAR_DAMP,
            linear_damp: LINEAR_DAMP,
            drag_coeff: DRAG_COEFF,
            grip: GRIP,
            hand_brake_grip: HAND_BRAKE_GRIP,
            rot_friction: ROT_FRICTION,
        }
    }
}

/// +1 for steering left alone, -1 for right alone, 0 for both or neither.
pub open spec fn steer_sign(i: InputState) -> int {
    (if i.steer_left {
        1int
    } else {
        0int
    }) - (if i.steer_right {
        1int
    } else {
        0int
    })
}

/// Engine thrust minus brake thrust.
pub open spec fn engine_accel(i: InputState, t: Tuning) -> int {
    (if i.accel {
        t.max_engine_force as int
    } else {
        0int
    }) - (if i.brake {
        t.brake_force as int
    } else {
        0int
    })
}

/// The factor `max(0, 1 - rate * dt)` in parts per million, for a rate in
/// parts per million per second and `dt` in microseconds.
pub open spec fn retain(rate: int, dt: int) -> int {
    max0(MICRO - rate * dt / (MICRO as int))
}

/// Largest change of the yaw rate within one step of `dt` microseconds.
pub open spec fn yaw_rate_step(t: Tuning, dt: int) -> int {
    t.angular_damp * dt / (MICRO as int)
}

/// The yaw rate after one step: driven toward the steering target by at most
/// `yaw_rate_step`, then attenuated by rotational friction.
pub open spec fn next_yaw_rate(yr: int, i: InputState, dt: int, t: Tuning) -> int {
    let target = steer_sign(i) * t.steer_rate;
    let step = yaw_rate_step(t, dt);
    let ramped = yr + clamp(target - yr, -step, step);
    div0(ramped * retain(t.rot_friction as int, dt), MICRO as int)
}

/// The heading after one step, turned by the new yaw rate.
pub open spec fn next_yaw(yaw: int, yr_next: int, dt: int) -> int {
    reduce_heading(yaw + div0(yr_next * dt, MICRO as int))
}

/// Velocity projected on the forward direction `(-sin yaw, 0, -cos yaw)`.
pub open spec fn long_speed(vx: int, vz: int, yaw: int) -> int {
    div0(vx * -sine(yaw) + vz * -cosine(yaw), MICRO as int)
}

/// Velocity projected on the right direction `(cos yaw, 0, -sin yaw)`.
pub open spec fn lat_speed(vx: int, vz: int, yaw: int) -> int {
    div0(vx * cosine(yaw) + vz * -sine(yaw), MICRO as int)
}

/// Engine thrust less drag, `drag_coeff * |v| * sign(v)`, which opposes the
/// longitudinal speed.
pub open spec fn long_accel(vl: int, i: InputState, t: Tuning) -> int {
    engine_accel(i, t) - div0(t.drag_coeff * vl, MICRO as int)
}

pub open spec fn grip(i: InputState, t: Tuning) -> int {
    if i.handbrake {
        t.hand_brake_grip as int
    } else {
        t.grip as int
    }
}

/// The restoring force against sideways sliding.
pub open spec fn lat_accel(vlat: int, i: InputState, t: Tuning) -> int {
    -div0(grip(i, t) * vlat, MICRO as int)
}

/// World x component of `forward * al + right * alat`.
pub open spec fn world_accel_x(yaw: int, al: int, alat: int) -> int {
    div0(-sine(yaw) * al + cosine(yaw) * alat, MICRO as int)
}

/// World z component of `forward * al + right * alat`.
pub open spec fn world_accel_z(yaw: int, al: int, alat: int) -> int {
    div0(-cosine(yaw) * al + -sine(yaw) * alat, MICRO as int)
}

/// One velocity component after one step: accelerated, then damped.
pub open spec fn next_speed(v: int, a: int, dt: int, t: Tuning) -> int {
    clamp(
        div0((v + div0(a * dt, MICRO as int)) * retain(t.linear_damp as int, dt), MICRO as int),
        -SPEED_LIMIT as int,
        SPEED_LIMIT as int,
    )
}

/// One coordinate after moving at speed `v` for `dt` microseconds.
pub open spec fn next_coord(p: int, v: int, dt: int) -> int {
    clamp(p + div0(v * dt, MICRO as int), -COORD_LIMIT as int, COORD_LIMIT as int)
}

/// The vehicle: position, heading, velocity, yaw rate and the half-extents
/// of its collision box.
#[derive(Clone, Copy, Debug, PartialEq, Eq, Structural)]
pub struct Car {
    /// Centre, in millimetres.
    pub pos: Vec3,
    /// Heading, in micro-radians.
    pub yaw: i64,
    /// Velocity, in millimetres per second.
    pub vel: Vec3,
    /// Yaw rate, in micro-radians per second.
    pub yaw_rate: i64,
    /// Half-extents of the collision box, in millimetres.
    pub size: Vec3,
}

/// The state that `stepped` gives for `input` held over the steps `dts`.
pub open spec fn run(car: Car, input: InputState, dts: Seq<int>, t: Tuning) -> Car
    decreases dts.len(),
{
    if dts.len() == 0 {
        car
    } else {
        run(car.stepped(input, dts[0], t), input, dts.drop_first(), t)
    }
}

impl Car {
    /// Every quantity lies within the range the fixed-point model holds.
    pub open spec fn wf(self) -> bool {
        &&& self.pos.in_range()
        &&& -ANGLE_LIMIT <= self.yaw <= ANGLE_LIMIT
        &&& -SPEED_LIMIT <= self.vel.x <= SPEED_LIMIT
        &&& -SPEED_LIMIT <= self.vel.y <= SPEED_LIMIT
        &&& -SPEED_LIMIT <= self.vel.z <= SPEED_LIMIT
        &&& -YAW_RATE_LIMIT <= self.yaw_rate <= YAW_RATE_LIMIT
        &&& 0 <= self.size.x <= EXTENT_LIMIT
        &&& 0 <= self.size.y <= EXTENT_LIMIT
        &&& 0 <= self.size.z <= EXTENT_LIMIT
    }

    /// The state after one step of `dt` microseconds with `input` held.
    pub open spec fn stepped(self, input: InputState, dt: int, t: Tuning) -> Car {
        let yr = next_yaw_rate(self.yaw_rate as int, input, dt, t);
        let yaw = next_yaw(self.yaw as int, yr, dt);
        let vl = long_speed(self.vel.x as int, self.vel.z as int, yaw);
        let vlat = lat_speed(self.vel.x as int, self.vel.z as int, yaw);
        let al = long_accel(vl, input, t);
        let alat = lat_accel(vlat, input, t);
        let vx = next_speed(self.vel.x as int, world_accel_x(yaw, al, alat), dt, t);
        let vy = next_speed(self.vel.y as int, 0, dt, t);
        let vz = next_speed(self.vel.z as int, world_accel_z(yaw, al, alat), dt, t);
        Car {
            pos: Vec3 {
                x: next_coord(self.pos.x as int, vx, dt) as i64,
                y: GROUND_HEIGHT,
                z: next_coord(self.pos.z as int, vz, dt) as i64,
            },
            yaw: yaw as i64,
            vel: Vec3 { x: vx as i64, y: vy as i64, z: vz as i64 },
            yaw_rate: yr as i64,
            size: self.size,
        }
    }

    /// A vehicle at rest at `pos`, heading along -z.
    pub fn new(pos: Vec3) -> (r: Car)
        requires
            pos.in_range(),
        ensures
            r == (Car {
                pos,
                yaw: 0,
                vel: Vec3 { x: 0, y: 0, z: 0 },
                yaw_rate: 0,
                size: Vec3 { x: 1800, y: 800, z: 3400 },
            }),
            r.wf(),
    {
        Car {
            pos,
            yaw: 0,
            vel: Vec3::zero(),
            yaw_rate: 0,
            size: Vec3::new(1800, 800, 3400),
        }
    }

    /// Unit vector the vehicle faces, in parts per million: its squared
    /// length is one million squared up to rounding.
    pub fn forward(&self) -> (r: Vec3)
        requires
            -ANGLE_LIMIT <= self.yaw <= ANGLE_LIMIT,
        ensures
            r.x == -sine(self.yaw as int),
            r.y == 0,
            r.z == -cosine(self.yaw as int),
            MICRO * MICRO - 2 * MICRO - 1 < r.x * r.x + r.z * r.z <= MICRO * MICRO,
    {
        let (sy, cy) = sin_cos_micro(self.yaw);
        proof {
            lemma_unit(self.yaw as int);
            assert((-sy) * (-sy) == sy * sy) by (nonlinear_arith);
            assert((-cy) * (-cy) == cy * cy) by (nonlinear_arith);
        }
        Vec3 { x: -sy, y: 0, z: -cy }
    }

    /// Unit vector to the vehicle's right: forward turned a quarter turn in
    /// the ground plane.
    pub fn right(&self) -> (r: Vec3)
        requires
            -ANGLE_LIMIT <= self.yaw <= ANGLE_LIMIT,
        ensures
            r.x == cosine(self.yaw as int),
            r.y == 0,
            r.z == -sine(self.yaw as int),
            MICRO * MICRO - 2 * MICRO - 1 < r.x * r.x + r.z * r.z <= MICRO * MICRO,
    {
        let f = self.forward();
        proof {
            lemma_unit(self.yaw as int);
            assert((-f.z) * (-f.z) == f.z * f.z) by (nonlinear_arith);
        }
        Vec3 { x: -f.z, y: 0, z: f.x }
    }

    /// Signed speed along the forward direction, in millimetres per second
    /// (negative while reversing).
    pub fn speed(&self) -> (r: i64)
        requires
            self.wf(),
        ensures
            r == long_speed(self.vel.x as int, self.vel.z as int, self.yaw as int),
    {
        let f = self.forward();
        proof {
            lemma_unit(self.yaw as int);
        }
        long_speed_exec(self.vel.x as i128, self.vel.z as i128, f.x as i128, f.z as i128) as i64
    }

    /// Advances the vehicle by `dt` microseconds with the standard tuning.
    pub fn update(&mut self, dt: u32, input: &InputState)
        requires
            old(self).wf(),
            dt > 0,
        ensures
            *final(self) == old(self).stepped(*input, dt as int, standard_tuning()),
            final(self).wf(),
    {
        let t = Tuning::default();
        self.update_tuned(dt, input, &t);
    }

    /// Advances the vehicle by `dt` microseconds with `input` held, under the
    /// force model parameters `t`.
    pub fn update_tuned(&mut self, dt: u32, input: &InputState, t: &Tuning)
        requires
            old(self).wf(),
            dt > 0,
        ensures
            *final(self) == old(self).stepped(*input, dt as int, *t),
            final(self).wf(),
    {
        let m = MICRO as i128;
        let d = dt as i128;
        let yaw_rate = next_yaw_rate_exec(self.yaw_rate as i128, input, d, t);
        proof {
            lemma_mul_bound(yaw_rate as int, d as int, YAW_RATE_LIMIT as int, u32::MAX as int);
            lemma_div0_bound(yaw_rate * d, MICRO as int, YAW_RATE_LIMIT * u32::MAX);
        }
        let turned = div_toward_zero(yaw_rate * d, m);
        let yaw = reduce_heading_exec(self.yaw as i128 + turned);
        let (sy, cy) = sin_cos_micro(yaw);
        let s = sy as i128;
        let c = cy as i128;
        let vx = self.vel.x as i128;
        let vz = self.vel.z as i128;
        let vl = long_speed_exec(vx, vz, -s, -c);
        let vlat = long_speed_exec(vx, vz, c, -s);
        let al = long_accel_exec(vl, input, t);
        let alat = lat_accel_exec(vlat, input, t);
        let ax = world_accel_exec(-s, c, al, alat);
        let az = world_accel_exec(-c, -s, al, alat);
        let keep = retain_exec(t.linear_damp, dt);
        let nvx = next_speed_exec(vx, ax, d, keep);
        let nvy = next_speed_exec(self.vel.y as i128, 0, d, keep);
        let nvz = next_speed_exec(vz, az, d, keep);
        let px = next_coord_exec(self.pos.x as i128, nvx, d);
        let pz = next_coord_exec(self.pos.z as i128, nvz, d);
        proof {
            lemma_reduce_heading_keeps_direction(self.yaw + turned);
        }
        self.yaw_rate = yaw_rate as i64;
        self.yaw = yaw;
        self.vel = Vec3 { x: nvx as i64, y: nvy as i64, z: nvz as i64 };
        self.pos = Vec3 { x: px as i64, y: GROUND_HEIGHT, z: pz as i64 };
    }
}

/// `retain` in executable form.
fn retain_exec(rate: u32, dt: u32) -> (r: i128)
    ensures
        r == retain(rate as int, dt as int),
        0 <= r <= MICRO,
{
    proof {
        lemma_mul_bound(rate as int, dt as int, u32::MAX as int, u32::MAX as int);
        lemma_div0_bound(rate * dt, MICRO as int, u32::MAX * u32::MAX);
    }
    let lost = rate as i128 * dt as i128 / MICRO as i128;
    if lost >= MICRO as i128 {
        0
    } else {
        MICRO as i128 - lost
    }
}

fn next_yaw_rate_exec(yr: i128, input: &InputState, d: i128, t: &Tuning) -> (r: i128)
    requires
        -YAW_RATE_LIMIT <= yr <= YAW_RATE_LIMIT,
        0 < d <= u32::MAX,
    ensures
        r == next_yaw_rate(yr as int, *input, d as int, *t),
        -YAW_RATE_LIMIT <= r <= YAW_RATE_LIMIT,
{
    let m = MICRO as i128;
    let sign: i128 = if input.steer_left == input.steer_right {
        0
    } else if input.steer_left {
        1
    } else {
        -1
    };
    let target = sign * t.steer_rate as i128;
    proof {
        lemma_mul_bound(t.angular_damp as int, d as int, u32::MAX as int, u32::MAX as int);
        lemma_div0_bound(t.angular_damp * d, MICRO as int, u32::MAX * u32::MAX);
    }
    let step = t.angular_damp as i128 * d / m;
    let ramped = yr + clamp_i128(target - yr, -step, step);
    let keep = retain_exec(t.rot_friction, d as u32);
    proof {
        lemma_scale_bound(ramped as int, keep as int);
        lemma_mul_bound(ramped as int, keep as int, YAW_RATE_LIMIT as int, MICRO as int);
    }
    div_toward_zero(ramped * keep, m)
}

/// Projection `div0(vx * ux + vz * uz, MICRO)` of a velocity on a unit
/// direction given in parts per million.
fn long_speed_exec(vx: i128, vz: i128, ux: i128, uz: i128) -> (r: i128)
    requires
        -SPEED_LIMIT <= vx <= SPEED_LIMIT,
        -SPEED_LIMIT <= vz <= SPEED_LIMIT,
        -MICRO <= ux <= MICRO,
        -MICRO <= uz <= MICRO,
    ensures
        r == div0(vx * ux + vz * uz, MICRO as int),
        -2 * SPEED_LIMIT <= r <= 2 * SPEED_LIMIT,
{
    proof {
        lemma_mul_bound(vx as int, ux as int, SPEED_LIMIT as int, MICRO as int);
        lemma_mul_bound(vz as int, uz as int, SPEED_LIMIT as int, MICRO as int);
        lemma_div0_bound(vx * ux + vz * uz, MICRO as int, 2 * SPEED_LIMIT * MICRO);
    }
    div_toward_zero(vx * ux + vz * uz, MICRO as i128)
}

/// Bound on the magnitude of an acceleration term along one axis.
pub open spec fn accel_bound() -> int {
    20_000_000_000_000_000_000
}

fn long_accel_exec(vl: i128, input: &InputState, t: &Tuning) -> (r: i128)
    requires
        -2 * SPEED_LIMIT <= vl <= 2 * SPEED_LIMIT,
    ensures
        r == long_accel(vl as int, *input, *t),
        -accel_bound() <= r <= accel_bound(),
{
    let mut engine: i128 = 0;
    if input.accel {
        engine = engine + t.max_engine_force as i128;
    }
    if input.brake {
        engine = engine - t.brake_force as i128;
    }
    proof {
        lemma_mul_bound(t.drag_coeff as int, vl as int, u32::MAX as int, 2 * SPEED_LIMIT);
        lemma_div0_bound(t.drag_coeff * vl, MICRO as int, u32::MAX * (2 * SPEED_LIMIT));
    }
    engine - div_toward_zero(t.drag_coeff as i128 * vl, MICRO as i128)
}

fn lat_accel_exec(vlat: i128, input: &InputState, t: &Tuning) -> (r: i128)
    requires
        -2 * SPEED_LIMIT <= vlat <= 2 * SPEED_LIMIT,
    ensures
        r == lat_accel(vlat as int, *input, *t),
        -accel_bound() <= r <= accel_bound(),
{
    let g: i128 = if input.handbrake {
        t.hand_brake_grip as i128
    } else {
        t.grip as i128
    };
    proof {
        lemma_mul_bound(g as int, vlat as int, u32::MAX as int, 2 * SPEED_LIMIT);
        lemma_div0_bound(g * vlat, MICRO as int, u32::MAX * (2 * SPEED_LIMIT));
    }
    -div_toward_zero(g * vlat, MICRO as i128)
}

/// One world component `div0(f * al + r * alat, MICRO)` of the acceleration.
fn world_accel_exec(f: i128, r: i128, al: i128, alat: i128) -> (a: i128)
    requires
        -MICRO <= f <= MICRO,
        -MICRO <= r <= MICRO,
        -accel_bound() <= al <= accel_bound(),
        -accel_bound() <= alat <= accel_bound(),
    ensures
        a == div0(f * al + r * alat, MICRO as int),
        -2 * accel_bound() <= a <= 2 * accel_bound(),
{
    proof {
        lemma_mul_bound(f as int, al as int, MICRO as int, accel_bound());
        lemma_mul_bound(r as int, alat as int, MICRO as int, accel_bound());
        lemma_div0_bound(f * al + r * alat, MICRO as int, 2 * (MICRO * accel_bound()));
        assert(2 * (MICRO * accel_bound()) / (MICRO as int) == 2 * accel_bound());
    }
    div_toward_zero(f * al + r * alat, MICRO as i128)
}

fn next_speed_exec(v: i128, a: i128, d: i128, keep: i128) -> (r: i128)
    requires
        -SPEED_LIMIT <= v <= SPEED_LIMIT,
        -2 * accel_bound() <= a <= 2 * accel_bound(),
        0 < d <= u32::MAX,
        0 <= keep <= MICRO,
    ensures
        r == clamp(
            div0((v + div0(a * d, MICRO as int)) * keep, MICRO as int),
            -SPEED_LIMIT as int,
            SPEED_LIMIT as int,
        ),
        -SPEED_LIMIT <= r <= SPEED_LIMIT,
{
    let ghost big: int = 2 * accel_bound() * u32::MAX;
    proof {
        lemma_mul_bound(a as int, d as int, 2 * accel_bound(), u32::MAX as int);
        lemma_div0_bound(a * d, MICRO as int, big);
    }
    let gained = v + div_toward_zero(a * d, MICRO as i128);
    proof {
        lemma_mul_bound(gained as int, keep as int, big, MICRO as int);
        lemma_scale_bound(gained as int, keep as int);
    }
    let damped = div_toward_zero(gained * keep, MICRO as i128);
    clamp_i128(damped, -(SPEED_LIMIT as i128), SPEED_LIMIT as i128)
}

fn next_coord_exec(p: i128, v: i128, d: i128) -> (r: i128)
    requires
        -COORD_LIMIT <= p <= COORD_LIMIT,
        -SPEED_LIMIT <= v <= SPEED_LIMIT,
        0 < d <= u32::MAX,
    ensures
        r == next_coord(p as int, v as int, d as int),
        -COORD_LIMIT <= r <= COORD_LIMIT,
{
    proof {
        lemma_mul_bound(v as int, d as int, SPEED_LIMIT as int, u32::MAX as int);
        lemma_div0_bound(v * d, MICRO as int, SPEED_LIMIT * u32::MAX);
    }
    clamp_i128(
        p + div_toward_zero(v * d, MICRO as i128),
        -(COORD_LIMIT as i128),
        COORD_LIMIT as i128,
    )
}

/// The state after `n` steps of `dt` microseconds with `input` held.
pub open spec fn run_steady(car: Car, input: InputState, dt: int, t: Tuning, n: nat) -> Car
    decreases n,
{
    if n == 0 {
        car
    } else {
        run_steady(car, input, dt, t, (n - 1) as nat).stepped(input, dt, t)
    }
}

pub open spec fn no_input(i: InputState) -> bool {
    !i.accel && !i.brake && !i.steer_left && !i.steer_right && !i.handbrake
}

proof fn lemma_retain_range(rate: int, dt: int)
    requires
        0 <= rate,
        0 <= dt,
    ensures
        0 <= retain(rate, dt) <= MICRO,
{
    assert(rate * dt >= 0) by (nonlinear_arith)
        requires
            0 <= rate,
            0 <= dt,
    ;
    lemma_div0_bound(rate * dt, MICRO as int, rate * dt);
}

proof fn lemma_yaw_rate_step_nonneg(t: Tuning, dt: int)
    requires
        0 <= dt,
    ensures
        yaw_rate_step(t, dt) >= 0,
{
    assert(t.angular_damp * dt >= 0) by (nonlinear_arith)
        requires
            0 <= dt,
            0 <= t.angular_damp,
    ;
    lemma_div0_bound(t.angular_damp * dt, MICRO as int, t.angular_damp * dt);
}

/// The yaw rate stays within `YAW_RATE_LIMIT`.
pub proof fn lemma_next_yaw_rate_bound(yr: int, i: InputState, dt: int, t: Tuning)
    requires
        -YAW_RATE_LIMIT <= yr <= YAW_RATE_LIMIT,
        0 <= dt,
    ensures
        -YAW_RATE_LIMIT <= next_yaw_rate(yr, i, dt, t) <= YAW_RATE_LIMIT,
{
    let target = steer_sign(i) * t.steer_rate;
    let step = yaw_rate_step(t, dt);
    lemma_yaw_rate_step_nonneg(t, dt);
    let sg = steer_sign(i);
    let rate = t.steer_rate as int;
    assert(-YAW_RATE_LIMIT <= sg * rate <= YAW_RATE_LIMIT) by (nonlinear_arith)
        requires
            -1 <= sg <= 1,
            0 <= rate <= YAW_RATE_LIMIT,
    ;
    let ramped = yr + clamp(target - yr, -step, step);
    assert(-YAW_RATE_LIMIT <= ramped <= YAW_RATE_LIMIT);
    lemma_retain_range(t.rot_friction as int, dt);
    lemma_scale_bound(ramped, retain(t.rot_friction as int, dt));
}

proof fn lemma_mul_zero(a: int)
    ensures
        0 * a == 0,
        a * 0 == 0,
{
    assert(0 * a == 0 && a * 0 == 0) by (nonlinear_arith);
}

/// A step keeps every quantity within the range the model holds.
pub proof fn lemma_stepped_wf(car: Car, input: InputState, dt: int, t: Tuning)
    requires
        car.wf(),
        0 <= dt,
    ensures
        car.stepped(input, dt, t).wf(),
{
    let yr = next_yaw_rate(car.yaw_rate as int, input, dt, t);
    lemma_next_yaw_rate_bound(car.yaw_rate as int, input, dt, t);
    lemma_reduce_heading_keeps_direction(car.yaw + div0(yr * dt, MICRO as int));
}

/// With no input, no velocity and no yaw rate, a step changes nothing: every
/// rate of change in the model is zero.
pub proof fn lemma_idle_step(car: Car, input: InputState, dt: int, t: Tuning)
    requires
        car.wf(),
        no_input(input),
        car.vel == (Vec3 { x: 0, y: 0, z: 0 }),
        car.yaw_rate == 0,
        car.pos.y == GROUND_HEIGHT,
        0 < dt,
    ensures
        car.stepped(input, dt, t) == car,
{
    lemma_yaw_rate_step_nonneg(t, dt);
    let yr = next_yaw_rate(car.yaw_rate as int, input, dt, t);
    assert(steer_sign(input) == 0);
    assert(steer_sign(input) * t.steer_rate == 0);
    lemma_mul_zero(t.steer_rate as int);
    lemma_mul_zero(retain(t.rot_friction as int, dt));
    lemma_mul_zero(retain(t.linear_damp as int, dt));
    lemma_mul_zero(dt);
    assert(yr == 0);
    let yaw = car.yaw as int;
    lemma_mul_zero(sine(yaw));
    lemma_mul_zero(-sine(yaw));
    lemma_mul_zero(cosine(yaw));
    lemma_mul_zero(-cosine(yaw));
    lemma_mul_zero(t.drag_coeff as int);
    lemma_mul_zero(t.grip as int);
    lemma_mul_zero(t.hand_brake_grip as int);
    assert(next_yaw(car.yaw as int, yr, dt) == car.yaw);
}

/// Idle stability: with no input, no velocity and no yaw rate, any sequence
/// of positive steps leaves position, heading, velocity and yaw rate as they
/// were.
pub proof fn lemma_idle_stability(car: Car, input: InputState, dts: Seq<int>, t: Tuning)
    requires
        car.wf(),
        no_input(input),
        car.vel == (Vec3 { x: 0, y: 0, z: 0 }),
        car.yaw_rate == 0,
        car.pos.y == GROUND_HEIGHT,
        forall|k: int| 0 <= k < dts.len() ==> #[trigger] dts[k] > 0,
    ensures
        run(car, input, dts, t) == car,
    decreases dts.len(),
{
    if dts.len() > 0 {
        lemma_idle_step(car, input, dts[0], t);
        let rest = dts.drop_first();
        assert forall|k: int| 0 <= k < rest.len() implies #[trigger] rest[k] > 0 by {
            assert(rest[k] == dts[k + 1]);
        }
        lemma_idle_stability(car, input, rest, t);
    }
}

/// With no net steering input (both keys or neither), one step moves the
/// yaw rate toward zero by at most `yaw_rate_step` without crossing it, then
/// scales it by the rotational friction factor.
pub proof fn lemma_yaw_rate_release(yr: int, i: InputState, dt: int, t: Tuning)
    requires
        i.steer_left == i.steer_right,
        0 <= dt,
    ensures
        abs(next_yaw_rate(yr, i, dt, t)) == max0(abs(yr) - yaw_rate_step(t, dt)) * retain(
            t.rot_friction as int,
            dt,
        ) / (MICRO as int),
        abs(next_yaw_rate(yr, i, dt, t)) <= max0(abs(yr) - yaw_rate_step(t, dt)),
        abs(next_yaw_rate(yr, i, dt, t)) * MICRO <= abs(yr) * retain(t.rot_friction as int, dt),
        yr >= 0 ==> next_yaw_rate(yr, i, dt, t) >= 0,
        yr <= 0 ==> next_yaw_rate(yr, i, dt, t) <= 0,
{
    let step = yaw_rate_step(t, dt);
    lemma_yaw_rate_step_nonneg(t, dt);
    lemma_mul_zero(t.steer_rate as int);
    assert(steer_sign(i) * t.steer_rate == 0);
    let ramped = yr + clamp(0 - yr, -step, step);
    let a = abs(ramped);
    assert(a == max0(abs(yr) - step));
    let k = retain(t.rot_friction as int, dt);
    lemma_retain_range(t.rot_friction as int, dt);
    lemma_scale_bound(ramped, k);
    assert(abs(ramped * k) == a * k) by (nonlinear_arith)
        requires
            0 <= k,
            a == abs(ramped),
    ;
    assert(-(a * MICRO) <= ramped * k <= a * MICRO) by (nonlinear_arith)
        requires
            0 <= k <= MICRO,
            a == abs(ramped),
    ;
    lemma_div0_bound(ramped * k, MICRO as int, a * MICRO);
    assert((a * k / (MICRO as int)) * MICRO <= a * k);
    assert(a * k <= abs(yr) * k) by (nonlinear_arith)
        requires
            0 <= a <= abs(yr),
            0 <= k,
    ;
}

/// The state after one step of `dt` microseconds for each input of
/// `inputs` in turn.
pub open spec fn drive(car: Car, inputs: Seq<InputState>, dt: int, t: Tuning) -> Car
    decreases inputs.len(),
{
    if inputs.len() == 0 {
        car
    } else {
        drive(car, inputs.drop_last(), dt, t).stepped(inputs.last(), dt, t)
    }
}

/// Steering decay: while neither steering direction wins (both keys held or
/// none), the yaw rate keeps its sign and never grows in magnitude from one
/// step to the next. After `n` steps its magnitude is at most its starting
/// magnitude less `n` times `yaw_rate_step`, so it is zero within
/// `|yaw_rate| / yaw_rate_step` steps; and at most the starting magnitude
/// times the rotational friction factor `retain / MICRO` to the `n`-th power.
#[verifier::rlimit(40)]
pub proof fn lemma_steering_decay(car: Car, inputs: Seq<InputState>, dt: int, t: Tuning, n: nat)
    requires
        car.wf(),
        0 < dt,
        n <= inputs.len(),
        forall|k: int| 0 <= k < inputs.len() ==> #[trigger] inputs[k].steer_left
            == inputs[k].steer_right,
    ensures
        ({
            let y0 = car.yaw_rate as int;
            let now = drive(car, inputs.take(n as int), dt, t);
            let y = now.yaw_rate as int;
            &&& now.wf()
            &&& n < inputs.len() ==> abs(
                drive(car, inputs.take(n + 1int), dt, t).yaw_rate as int,
            ) <= abs(y)
            &&& abs(y) <= max0(abs(y0) - n * yaw_rate_step(t, dt))
            &&& abs(y) * pow(MICRO as int, n) <= abs(y0) * pow(
                retain(t.rot_friction as int, dt),
                n,
            )
            &&& y0 >= 0 ==> y >= 0
            &&& y0 <= 0 ==> y <= 0
        }),
    decreases n,
{
    lemma_yaw_rate_step_nonneg(t, dt);
    lemma_retain_range(t.rot_friction as int, dt);
    if n == 0 {
        assert(inputs.take(0).len() == 0);
        assert(drive(car, inputs.take(0), dt, t) == car);
        lemma_pow_zero(MICRO as int, retain(t.rot_friction as int, dt));
    } else {
        lemma_steering_decay(car, inputs, dt, t, (n - 1) as nat);
        let prev = drive(car, inputs.take(n - 1), dt, t);
        let input = inputs[n - 1];
        assert(inputs.take(n as int).drop_last() =~= inputs.take(n - 1));
        assert(inputs.take(n as int).last() == input);
        assert(drive(car, inputs.take(n as int), dt, t) == prev.stepped(input, dt, t));
        lemma_decay_step(car, prev, input, dt, t, n);
    }
    if n < inputs.len() {
        let cur = drive(car, inputs.take(n as int), dt, t);
        assert(inputs.take(n + 1int).drop_last() =~= inputs.take(n as int));
        assert(inputs.take(n + 1int).last() == inputs[n as int]);
        assert(drive(car, inputs.take(n + 1int), dt, t) == cur.stepped(inputs[n as int], dt, t));
        lemma_yaw_rate_release(cur.yaw_rate as int, inputs[n as int], dt, t);
        lemma_next_yaw_rate_bound(cur.yaw_rate as int, inputs[n as int], dt, t);
        assert(abs(drive(car, inputs.take(n + 1int), dt, t).yaw_rate as int) <= abs(
            cur.yaw_rate as int,
        ));
    }
    let now = drive(car, inputs.take(n as int), dt, t);
    let y0 = car.yaw_rate as int;
    let y = now.yaw_rate as int;
    assert(now.wf());
    assert(abs(y) <= max0(abs(y0) - n * yaw_rate_step(t, dt)));
    assert(abs(y) * pow(MICRO as int, n) <= abs(y0) * pow(retain(t.rot_friction as int, dt), n));
    assert(y0 >= 0 ==> y >= 0);
    assert(y0 <= 0 ==> y <= 0);
}

proof fn lemma_pow_zero(m: int, k: int)
    ensures
        pow(m, 0) == 1,
        pow(k, 0) == 1,
{
    reveal(pow);
}

proof fn lemma_pow_step(b: int, n: nat)
    requires
        n > 0,
    ensures
        pow(b, n) == b * pow(b, (n - 1) as nat),
{
    reveal(pow);
}

/// One step of the decay: the bounds that hold of `prev` after `n - 1` steps
/// hold of its successor after `n`.
proof fn lemma_decay_step(car: Car, prev: Car, input: InputState, dt: int, t: Tuning, n: nat)
    requires
        car.wf(),
        prev.wf(),
        0 < dt,
        n > 0,
        input.steer_left == input.steer_right,
        abs(prev.yaw_rate as int) <= max0(
            abs(car.yaw_rate as int) - (n - 1) * yaw_rate_step(t, dt),
        ),
        abs(prev.yaw_rate as int) * pow(MICRO as int, (n - 1) as nat) <= abs(car.yaw_rate as int)
            * pow(retain(t.rot_friction as int, dt), (n - 1) as nat),
        car.yaw_rate >= 0 ==> prev.yaw_rate >= 0,
        car.yaw_rate <= 0 ==> prev.yaw_rate <= 0,
    ensures
        ({
            let y0 = car.yaw_rate as int;
            let next = prev.stepped(input, dt, t);
            let y = next.yaw_rate as int;
            &&& next.wf()
            &&& abs(y) <= max0(abs(y0) - n * yaw_rate_step(t, dt))
            &&& abs(y) * pow(MICRO as int, n) <= abs(y0) * pow(
                retain(t.rot_friction as int, dt),
                n,
            )
            &&& y0 >= 0 ==> y >= 0
            &&& y0 <= 0 ==> y <= 0
        }),
{
    let m = MICRO as int;
    let k = retain(t.rot_friction as int, dt);
    lemma_retain_range(t.rot_friction as int, dt);
    lemma_yaw_rate_step_nonneg(t, dt);
    lemma_stepped_wf(prev, input, dt, t);
    lemma_yaw_rate_release(prev.yaw_rate as int, input, dt, t);
    lemma_next_yaw_rate_bound(prev.yaw_rate as int, input, dt, t);
    let step = yaw_rate_step(t, dt);
    assert(n * step == (n - 1) * step + step) by (nonlinear_arith);
    let yp = abs(prev.yaw_rate as int);
    let ny = next_yaw_rate(prev.yaw_rate as int, input, dt, t);
    let yn = abs(ny);
    assert(prev.stepped(input, dt, t).yaw_rate == ny);
    let y0 = abs(car.yaw_rate as int);
    let pm = pow(m, (n - 1) as nat);
    let pk = pow(k, (n - 1) as nat);
    lemma_pow_step(m, n);
    lemma_pow_step(k, n);
    vstd::arithmetic::power::lemma_pow_positive(m, (n - 1) as nat);
    assert(yn * (m * pm) <= y0 * (k * pk)) by (nonlinear_arith)
        requires
            yn * m <= yp * k,
            yp * pm <= y0 * pk,
            0 <= k,
            0 <= pm,
            0 <= yn,
            0 <= yp,
    ;
}

} // verus!
