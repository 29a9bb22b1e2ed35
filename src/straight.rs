use crate::car::{
    long_accel, long_speed, next_speed, next_yaw, next_yaw_rate, retain, run_steady, Car,
    InputState, Tuning, SPEED_LIMIT,
};
use crate::fixed::{
    clamp, cosine, div0, lemma_reduce_heading_keeps_direction, lemma_zero_heading, sine,
    MICRO,
};
use crate::vector::Vec3;
use vstd::prelude::*;

verus! {

/// Accelerate held, nothing else.
pub open spec fn accel_only() -> InputState {
    InputState {
        accel: true,
        brake: false,
        steer_left: false,
        steer_right: false,
        handbrake: false,
    }
}

/// Drag at longitudinal speed `u`.
pub open spec fn drag(u: int, t: Tuning) -> int {
    div0(t.drag_coeff * u, MICRO as int)
}

/// Forward speed after one step with accelerate held, for a vehicle heading
/// straight along its axis at forward speed `u`.
pub open spec fn straight_next(u: int, dt: int, t: Tuning) -> int {
    let al = long_accel(u, accel_only(), t);
    clamp(
        div0((u + div0(al * dt, MICRO as int)) * retain(t.linear_damp as int, dt), MICRO as int),
        -SPEED_LIMIT as int,
        SPEED_LIMIT as int,
    )
}

/// `veq` is a speed at which drag at least matches engine thrust, and `dt`
/// is short enough that a step cannot carry a slower vehicle past a faster
/// one: the drag rate plus one, times `dt` in seconds, is at most one (the
/// one covers rounding).
pub open spec fn stable_below(veq: int, dt: int, t: Tuning) -> bool {
    &&& 0 <= veq <= SPEED_LIMIT
    &&& drag(veq, t) >= t.max_engine_force
    &&& (t.drag_coeff + MICRO) * dt <= MICRO * MICRO
}

proof fn lemma_div0_neg(x: int)
    ensures
        div0(-x, MICRO as int) == -div0(x, MICRO as int),
{
}

proof fn lemma_div0_exact(v: int)
    ensures
        div0(v * MICRO, MICRO as int) == v,
{
    if v >= 0 {
        assert((v * MICRO) / (MICRO as int) == v);
    } else {
        assert(((-v) * MICRO) / (MICRO as int) == -v);
        assert(-(v * MICRO) == (-v) * MICRO);
    }
}

proof fn lemma_div0_monotone(x: int, y: int)
    requires
        x <= y,
    ensures
        div0(x, MICRO as int) <= div0(y, MICRO as int),
{
}

/// Quotients rounded toward zero differ by at most `n` when the dividends
/// differ by at most `n` divisors.
proof fn lemma_div0_gap(x: int, y: int, n: int)
    requires
        0 <= n,
        x - y <= n * MICRO,
    ensures
        div0(x, MICRO as int) - div0(y, MICRO as int) <= n,
{
}

/// Between two speeds `a <= b`, drag differs by at most
/// `(drag_coeff * (b - a) + MICRO) / MICRO`.
proof fn lemma_drag_gap(a: int, b: int, t: Tuning)
    requires
        0 <= a <= b,
    ensures
        0 <= drag(b, t) - drag(a, t),
        (drag(b, t) - drag(a, t)) * MICRO <= t.drag_coeff * (b - a) + MICRO,
{
    let c = t.drag_coeff as int;
    let p = c * b;
    let q = c * a;
    assert(0 <= q <= p && p - q == c * (b - a)) by (nonlinear_arith)
        requires
            0 <= a <= b,
            0 <= c,
            p == c * b,
            q == c * a,
    ;
    assert(p / (MICRO as int) >= q / (MICRO as int));
    assert((p / (MICRO as int) - q / (MICRO as int)) * MICRO <= p - q + MICRO);
}

/// Under `stable_below`, a faster vehicle stays at least as fast after one
/// step.
proof fn lemma_straight_monotone(a: int, b: int, veq: int, dt: int, t: Tuning)
    requires
        0 <= a <= b <= veq,
        0 < dt,
        stable_below(veq, dt, t),
    ensures
        straight_next(a, dt, t) <= straight_next(b, dt, t),
{
    if a < b {
        let c = t.drag_coeff as int;
        let gap = drag(b, t) - drag(a, t);
        lemma_drag_gap(a, b, t);
        let m = MICRO as int;
        let d = b - a;
        assert(gap * m * dt <= (c * d + m) * dt) by (nonlinear_arith)
            requires
                gap * m <= c * d + m,
                0 < dt,
        ;
        assert((c * d + m) * dt <= d * ((c + m) * dt)) by (nonlinear_arith)
            requires
                1 <= d,
                0 <= c,
                0 < dt,
                0 < m,
        ;
        assert(d * ((c + m) * dt) <= d * (m * m)) by (nonlinear_arith)
            requires
                (c + m) * dt <= m * m,
                1 <= d,
        ;
        assert(gap * dt <= d * m) by (nonlinear_arith)
            requires
                gap * m * dt <= d * (m * m),
                m == 1_000_000,
        ;
        let al_a = long_accel(a, accel_only(), t);
        let al_b = long_accel(b, accel_only(), t);
        assert(al_a - al_b == gap);
        assert(al_a * dt - al_b * dt == gap * dt) by (nonlinear_arith)
            requires
                al_a - al_b == gap,
        ;
        lemma_div0_gap(al_a * dt, al_b * dt, b - a);
        let ga = a + div0(al_a * dt, m);
        let gb = b + div0(al_b * dt, m);
        assert(ga <= gb);
        let k = retain(t.linear_damp as int, dt);
        assert(k >= 0);
        assert(ga * k <= gb * k) by (nonlinear_arith)
            requires
                ga <= gb,
                0 <= k,
        ;
        lemma_div0_monotone(ga * k, gb * k);
    }
}

/// From rest, one step with accelerate held gives a speed of zero or more;
/// at a speed whose drag matches the thrust, it gives no more than that
/// speed.
proof fn lemma_straight_ends(veq: int, dt: int, t: Tuning)
    requires
        0 < dt,
        stable_below(veq, dt, t),
    ensures
        straight_next(0, dt, t) >= 0,
        straight_next(veq, dt, t) <= veq,
{
    let m = MICRO as int;
    let k = retain(t.linear_damp as int, dt);
    assert(0 <= k <= m);
    let e = t.max_engine_force as int;
    assert(t.drag_coeff * 0 == 0) by (nonlinear_arith);
    assert(long_accel(0, accel_only(), t) == e);
    assert(e * dt >= 0) by (nonlinear_arith)
        requires
            e >= 0,
            dt > 0,
    ;
    let g0 = 0 + div0(e * dt, m);
    assert(g0 >= 0);
    assert(g0 * k >= 0) by (nonlinear_arith)
        requires
            g0 >= 0,
            k >= 0,
    ;
    let al = long_accel(veq, accel_only(), t);
    assert(al <= 0);
    assert(al * dt <= 0) by (nonlinear_arith)
        requires
            al <= 0,
            dt > 0,
    ;
    let g = veq + div0(al * dt, m);
    assert(g <= veq);
    assert(g * k <= veq * m) by (nonlinear_arith)
        requires
            g <= veq,
            0 <= veq,
            0 <= k <= m,
    ;
    lemma_div0_monotone(g * k, veq * m);
    lemma_div0_exact(veq);
}

/// With the heading at zero, no yaw rate and a velocity of `u` along the
/// heading, a step with accelerate held keeps the heading, the yaw rate and
/// the sideways velocity at zero, and the forward speed becomes
/// `straight_next(u)`.
pub proof fn lemma_straight_step(car: Car, u: int, dt: int, t: Tuning)
    requires
        car.wf(),
        car.yaw == 0,
        car.yaw_rate == 0,
        car.vel == (Vec3 { x: 0, y: 0, z: -u as i64 }),
        0 <= u <= SPEED_LIMIT,
        0 < dt,
    ensures
        car.stepped(accel_only(), dt, t).yaw == 0,
        car.stepped(accel_only(), dt, t).yaw_rate == 0,
        car.stepped(accel_only(), dt, t).vel == (Vec3 {
            x: 0,
            y: 0,
            z: -straight_next(u, dt, t) as i64,
        }),
        long_speed(0, -straight_next(u, dt, t), 0) == straight_next(u, dt, t),
{
    let m = MICRO as int;
    lemma_zero_heading();
    let i = accel_only();
    let k = retain(t.rot_friction as int, dt);
    assert(0 * t.steer_rate == 0) by (nonlinear_arith);
    assert(0 * k == 0) by (nonlinear_arith);
    assert(0 * dt == 0) by (nonlinear_arith);
    assert(t.angular_damp * dt >= 0) by (nonlinear_arith)
        requires
            dt > 0,
            t.angular_damp >= 0,
    ;
    assert(next_yaw_rate(0, i, dt, t) == 0);
    lemma_reduce_heading_keeps_direction(0);
    assert(next_yaw(0, 0, dt) == 0);
    assert(sine(0) == 0 && cosine(0) == m);
    lemma_div0_exact(u);
    assert(0 * -sine(0) + (-u) * -cosine(0) == u * m);
    let vl = long_speed(0, -u, 0);
    assert(vl == u);
    let g = if i.handbrake {
        t.hand_brake_grip as int
    } else {
        t.grip as int
    };
    assert(0 * cosine(0) + (-u) * -sine(0) == 0);
    assert(g * 0 == 0) by (nonlinear_arith);
    let al = long_accel(u, i, t);
    assert(-sine(0) * al + cosine(0) * 0 == 0 - 0 + 0);
    assert(-cosine(0) * al + -sine(0) * 0 == -(al * m));
    lemma_div0_exact(al);
    lemma_div0_neg(al * m);
    let kd = retain(t.linear_damp as int, dt);
    assert(0 * kd == 0) by (nonlinear_arith);
    assert((-al) * dt == -(al * dt)) by (nonlinear_arith);
    lemma_div0_neg(al * dt);
    let w = u + div0(al * dt, m);
    assert((-u + div0((-al) * dt, m)) == -w);
    assert((-w) * kd == -(w * kd)) by (nonlinear_arith);
    lemma_div0_neg(w * kd);
    assert(next_speed(-u, -al, dt, t) == -straight_next(u, dt, t));
    assert(next_speed(0, 0, dt, t) == 0);
    let s = straight_next(u, dt, t);
    lemma_div0_exact(s);
    assert(0 * -sine(0) + (-s) * -cosine(0) == s * m);
}

/// Terminal speed: from rest at heading zero with accelerate held, the
/// forward speed never decreases from one step to the next and never
/// exceeds a speed `veq` at which drag matches the engine thrust, as long as
/// the step is short enough for `stable_below`.
pub proof fn lemma_terminal_speed(car: Car, veq: int, dt: int, t: Tuning, n: nat)
    requires
        car.wf(),
        car.yaw == 0,
        car.yaw_rate == 0,
        car.vel == (Vec3 { x: 0, y: 0, z: 0 }),
        0 < dt,
        stable_below(veq, dt, t),
    ensures
        ({
            let now = run_steady(car, accel_only(), dt, t, n);
            let next = run_steady(car, accel_only(), dt, t, n + 1);
            let v = long_speed(now.vel.x as int, now.vel.z as int, now.yaw as int);
            let w = long_speed(next.vel.x as int, next.vel.z as int, next.yaw as int);
            &&& now.yaw == 0
            &&& now.vel.x == 0
            &&& 0 <= v <= w <= veq
        }),
    decreases n,
{
    lemma_straight_from_rest(car, veq, dt, t, n);
    lemma_straight_from_rest(car, veq, dt, t, n + 1);
    let now = run_steady(car, accel_only(), dt, t, n);
    lemma_straight_step(now, -now.vel.z, dt, t);
}

/// The run from rest stays on the straight line, with forward speeds that
/// grow and stay within `[0, veq]`.
proof fn lemma_straight_from_rest(car: Car, veq: int, dt: int, t: Tuning, n: nat)
    requires
        car.wf(),
        car.yaw == 0,
        car.yaw_rate == 0,
        car.vel == (Vec3 { x: 0, y: 0, z: 0 }),
        0 < dt,
        stable_below(veq, dt, t),
    ensures
        ({
            let now = run_steady(car, accel_only(), dt, t, n);
            let u = -now.vel.z;
            &&& now.wf()
            &&& now.yaw == 0
            &&& now.yaw_rate == 0
            &&& now.vel.x == 0
            &&& now.vel.y == 0
            &&& 0 <= u <= veq
            &&& u <= straight_next(u, dt, t)
            &&& long_speed(now.vel.x as int, now.vel.z as int, now.yaw as int) == u
        }),
    decreases n,
{
    lemma_straight_ends(veq, dt, t);
    lemma_zero_heading();
    if n == 0 {
        lemma_div0_exact(0);
        assert(0 * -sine(0) + 0 * -cosine(0) == 0 * MICRO);
    } else {
        lemma_straight_from_rest(car, veq, dt, t, (n - 1) as nat);
        let prev = run_steady(car, accel_only(), dt, t, (n - 1) as nat);
        let u = -prev.vel.z;
        crate::car::lemma_stepped_wf(prev, accel_only(), dt, t);
        lemma_straight_step(prev, u, dt, t);
        let u2 = straight_next(u, dt, t);
        lemma_straight_monotone(u, veq, veq, dt, t);
        assert(u2 <= veq);
        assert(0 <= u2);
        lemma_straight_monotone(u, u2, veq, dt, t);
        lemma_div0_exact(u2);
        assert(0 * -sine(0) + (-u2) * -cosine(0) == u2 * MICRO);
    }
}

} // verus!
