use vstd::arithmetic::div_mod::{
    lemma_div_is_ordered, lemma_div_is_ordered_by_denominator, lemma_mod_multiples_vanish,
    lemma_mod_pos_bound, lemma_mod_twice,
};
use vstd::prelude::*;

verus! {

/// Fixed-point scale of the library: a ratio, a sine or a cosine equal to one
/// is held as one million (parts per million); a second is one million
/// microseconds.
pub const MICRO: i64 = 1_000_000;

/// Half a turn, in micro-radians (pi rounded to the nearest micro-radian).
pub const PI_MICRORAD: i64 = 3_141_593;

/// One whole turn, in micro-radians (two pi rounded to the nearest
/// micro-radian).
pub const TWO_PI_MICRORAD: i64 = 6_283_185;

/// A quarter turn, in micro-radians.
pub const HALF_PI_MICRORAD: i64 = 1_570_796;

/// How many whole turns a heading may accumulate before it is brought back
/// into a single turn.
pub const ANGLE_TURNS: i64 = 1_000_000_000;

/// Largest magnitude of a heading: `ANGLE_TURNS` whole turns.
pub const ANGLE_LIMIT: i64 = 6_283_185_000_000_000;

pub open spec fn abs(a: int) -> int {
    if a >= 0 {
        a
    } else {
        -a
    }
}

/// Division rounded toward zero, as integer division in Rust does.
pub open spec fn div0(a: int, d: int) -> int {
    if a >= 0 {
        a / d
    } else {
        -((-a) / d)
    }
}

pub open spec fn clamp(v: int, lo: int, hi: int) -> int {
    if v < lo {
        lo
    } else if v > hi {
        hi
    } else {
        v
    }
}

pub open spec fn max0(v: int) -> int {
    if v < 0 {
        0
    } else {
        v
    }
}

/// Divides `a` by a positive `d`, rounding toward zero.
pub fn div_toward_zero(a: i128, d: i128) -> (r: i128)
    requires
        0 < d,
        a > i128::MIN,
    ensures
        r == div0(a as int, d as int),
{
    if a >= 0 {
        a / d
    } else {
        -((-a) / d)
    }
}

/// Restricts `v` to the range `[lo, hi]`.
pub fn clamp_i128(v: i128, lo: i128, hi: i128) -> (r: i128)
    requires
        lo <= hi,
    ensures
        r == clamp(v as int, lo as int, hi as int),
        lo <= r <= hi,
{
    if v < lo {
        lo
    } else if v > hi {
        hi
    } else {
        v
    }
}

/// Division toward zero keeps the sign and never grows a magnitude.
pub proof fn lemma_div0_bound(a: int, d: int, bound: int)
    requires
        0 < d,
        -bound <= a <= bound,
    ensures
        abs(div0(a, d)) == abs(a) / d,
        abs(div0(a, d)) <= abs(a),
        abs(div0(a, d)) <= bound / d,
        -(bound / d) <= div0(a, d) <= bound / d,
        a >= 0 ==> div0(a, d) >= 0,
        a <= 0 ==> div0(a, d) <= 0,
{
    lemma_div_is_ordered(abs(a), bound, d);
    lemma_div_is_ordered_by_denominator(abs(a), 1, d);
    assert(abs(a) / d >= 0) by {
        lemma_div_is_ordered(0, abs(a), d);
    }
}

/// A product of two bounded factors is bounded by the product of the bounds.
pub proof fn lemma_mul_bound(a: int, b: int, ba: int, bb: int)
    requires
        -ba <= a <= ba,
        -bb <= b <= bb,
    ensures
        -(ba * bb) <= a * b <= ba * bb,
{
    assert(-(ba * bb) <= a * b <= ba * bb) by (nonlinear_arith)
        requires
            -ba <= a <= ba,
            -bb <= b <= bb,
    ;
}

/// Scaling by a factor between zero and one million keeps the magnitude.
pub proof fn lemma_scale_bound(a: int, k: int)
    requires
        0 <= k <= MICRO,
    ensures
        abs(div0(a * k, MICRO as int)) <= abs(a),
        a >= 0 ==> div0(a * k, MICRO as int) >= 0,
        a <= 0 ==> div0(a * k, MICRO as int) <= 0,
{
    assert(abs(a * k) <= abs(a) * MICRO) by (nonlinear_arith)
        requires
            0 <= k <= MICRO,
    ;
    assert(a >= 0 ==> a * k >= 0) by (nonlinear_arith)
        requires
            0 <= k,
    ;
    assert(a <= 0 ==> a * k <= 0) by (nonlinear_arith)
        requires
            0 <= k,
    ;
    lemma_div0_bound(a * k, MICRO as int, abs(a) * MICRO);
    assert((abs(a) * MICRO) / (MICRO as int) == abs(a)) by (nonlinear_arith);
}

/// An eighth of a turn, in micro-radians.
pub const QUARTER_PI_MICRORAD: i64 = 785_398;

/// Three quarters of a turn, in micro-radians.
pub const THREE_HALF_PI_MICRORAD: i64 = 4_712_389;

/// Sine of `x` micro-radians for `x` within a quarter turn, in parts per
/// million: the Taylor series up to the ninth power, evaluated in nested
/// form `x (1 - x²/6 (1 - x²/20 (1 - x²/42 (1 - x²/72))))`, held to `[0, 1]`.
pub open spec fn quarter_wave(x: int) -> int {
    let m = MICRO as int;
    let u = x * x / m;
    let t4 = m - u / 72;
    let t3 = m - u * t4 / (42 * m);
    let t2 = m - u * t3 / (20 * m);
    let t1 = m - u * t2 / (6 * m);
    clamp(x * t1 / m, 0, m)
}

/// `r` is the integer square root of `n`.
pub open spec fn is_root(n: int, r: int) -> bool {
    0 <= r && r * r <= n < (r + 1) * (r + 1)
}

/// The integer square root of a non-negative `n`.
pub open spec fn isqrt(n: int) -> int {
    choose|r: int| #[trigger] is_root(n, r)
}

/// The angle within `[0, pi/2]` that has the same sine and cosine as the
/// position `r` within a turn, up to sign.
pub open spec fn fold_angle(r: int) -> int {
    if r <= HALF_PI_MICRORAD {
        r
    } else if r <= PI_MICRORAD {
        PI_MICRORAD - r
    } else if r <= THREE_HALF_PI_MICRORAD {
        r - PI_MICRORAD
    } else {
        TWO_PI_MICRORAD - r
    }
}

/// Magnitude of the sine of a folded angle: from the series below an eighth
/// of a turn, and from the cosine by a square root above it.
pub open spec fn sin_mag(x: int) -> int {
    let m = MICRO as int;
    if x <= QUARTER_PI_MICRORAD {
        quarter_wave(x)
    } else {
        let c = quarter_wave(max0(HALF_PI_MICRORAD - x));
        isqrt(m * m - c * c)
    }
}

/// Magnitude of the cosine of a folded angle: from the sine by a square root
/// below an eighth of a turn, and from the series above it.
pub open spec fn cos_mag(x: int) -> int {
    let m = MICRO as int;
    if x <= QUARTER_PI_MICRORAD {
        let s = quarter_wave(x);
        isqrt(m * m - s * s)
    } else {
        quarter_wave(max0(HALF_PI_MICRORAD - x))
    }
}

/// Sine of an angle in micro-radians, in parts per million. It depends on the
/// angle modulo one turn.
pub open spec fn sine(a: int) -> int {
    let r = a % (TWO_PI_MICRORAD as int);
    if r <= PI_MICRORAD {
        sin_mag(fold_angle(r))
    } else {
        -sin_mag(fold_angle(r))
    }
}

/// Cosine of an angle in micro-radians, in parts per million. It depends on
/// the angle modulo one turn.
pub open spec fn cosine(a: int) -> int {
    let r = a % (TWO_PI_MICRORAD as int);
    if r <= HALF_PI_MICRORAD || r > THREE_HALF_PI_MICRORAD {
        cos_mag(fold_angle(r))
    } else {
        -cos_mag(fold_angle(r))
    }
}

proof fn lemma_root_exists(n: nat)
    ensures
        exists|r: int| #[trigger] is_root(n as int, r),
    decreases n,
{
    if n == 0 {
        assert(is_root(0, 0));
    } else {
        lemma_root_exists((n - 1) as nat);
        let r = choose|r: int| #[trigger] is_root((n - 1) as int, r);
        if (r + 1) * (r + 1) <= n {
            assert((r + 1) * (r + 1) <= n < (r + 2) * (r + 2)) by (nonlinear_arith)
                requires
                    (r + 1) * (r + 1) <= n,
                    n - 1 < (r + 1) * (r + 1),
                    0 <= r,
            ;
            assert(is_root(n as int, r + 1));
        } else {
            assert(is_root(n as int, r));
        }
    }
}

proof fn lemma_root_unique(n: int, a: int, b: int)
    requires
        is_root(n, a),
        is_root(n, b),
    ensures
        a == b,
{
    if a < b {
        assert((a + 1) * (a + 1) <= b * b) by (nonlinear_arith)
            requires
                0 <= a,
                a + 1 <= b,
        ;
    } else if b < a {
        assert((b + 1) * (b + 1) <= a * a) by (nonlinear_arith)
            requires
                0 <= b,
                b + 1 <= a,
        ;
    }
}

/// `isqrt` is the integer square root of every non-negative number.
pub proof fn lemma_isqrt(n: int)
    requires
        0 <= n,
    ensures
        is_root(n, isqrt(n)),
        forall|r: int| #[trigger] is_root(n, r) ==> r == isqrt(n),
{
    lemma_root_exists(n as nat);
    assert forall|r: int| #[trigger] is_root(n, r) implies r == isqrt(n) by {
        lemma_root_unique(n, r, isqrt(n));
    }
}

/// A component from the series and the other from the square root make a
/// vector whose squared length is one million squared, short by less than
/// two million and one.
proof fn lemma_root_pair(c: int)
    requires
        0 <= c <= MICRO,
    ensures
        0 <= isqrt(MICRO * MICRO - c * c) <= MICRO,
        MICRO * MICRO - 2 * MICRO - 1 < c * c + isqrt(MICRO * MICRO - c * c) * isqrt(
            MICRO * MICRO - c * c,
        ) <= MICRO * MICRO,
{
    let m = MICRO as int;
    assert(c * c <= m * m) by (nonlinear_arith)
        requires
            0 <= c <= m,
    ;
    lemma_isqrt(m * m - c * c);
    let r = isqrt(m * m - c * c);
    assert(r <= m) by (nonlinear_arith)
        requires
            0 <= r,
            r * r <= m * m - c * c,
            0 <= m,
    ;
    assert((r + 1) * (r + 1) == r * r + 2 * r + 1) by (nonlinear_arith);
}

proof fn lemma_fold_range(r: int)
    requires
        0 <= r < TWO_PI_MICRORAD,
    ensures
        0 <= fold_angle(r) <= HALF_PI_MICRORAD + 1,
{
}

/// Sine and cosine lie within one unit of zero, and the vector they make
/// has unit length up to rounding: its squared length is within two million
/// and one below one million squared.
pub proof fn lemma_unit(a: int)
    ensures
        -MICRO <= sine(a) <= MICRO,
        -MICRO <= cosine(a) <= MICRO,
        MICRO * MICRO - 2 * MICRO - 1 < sine(a) * sine(a) + cosine(a) * cosine(a) <= MICRO
            * MICRO,
{
    let t = TWO_PI_MICRORAD as int;
    let r = a % t;
    lemma_mod_pos_bound(a % t + t, t);
    assert(0 <= r < t);
    let x = fold_angle(r);
    lemma_fold_range(r);
    if x <= QUARTER_PI_MICRORAD {
        lemma_root_pair(quarter_wave(x));
    } else {
        lemma_root_pair(quarter_wave(max0(HALF_PI_MICRORAD - x)));
    }
    let s = sin_mag(x);
    let c = cos_mag(x);
    assert((-s) * (-s) == s * s) by (nonlinear_arith);
    assert((-c) * (-c) == c * c) by (nonlinear_arith);
    assert(s * s + c * c == c * c + s * s);
}

/// Straight ahead: the sine of a zero heading is zero and its cosine is one.
pub proof fn lemma_zero_heading()
    ensures
        sine(0) == 0,
        cosine(0) == MICRO,
{
    let m = MICRO as int;
    assert(0 * 0 == 0);
    assert(quarter_wave(0) == 0) by (nonlinear_arith);
    lemma_isqrt(m * m);
    assert(0 <= m && m * m <= m * m < (m + 1) * (m + 1)) by (nonlinear_arith)
        requires
            m == 1_000_000,
    ;
    assert(is_root(m * m, m));
    assert(cos_mag(0) == m);
}

proof fn lemma_mul_nonneg_bound(a: int, b: int, ba: int, bb: int)
    requires
        0 <= a <= ba,
        0 <= b <= bb,
    ensures
        0 <= a * b <= ba * bb,
{
    assert(0 <= a * b <= ba * bb) by (nonlinear_arith)
        requires
            0 <= a <= ba,
            0 <= b <= bb,
    ;
}

fn quarter_wave_exec(x: i128) -> (r: i128)
    requires
        0 <= x <= HALF_PI_MICRORAD + 1,
    ensures
        r == quarter_wave(x as int),
        0 <= r <= MICRO,
{
    let m = MICRO as i128;
    proof {
        lemma_mul_nonneg_bound(x as int, x as int, 1_570_797, 1_570_797);
    }
    let u = x * x / m;
    assert(u <= 2_467_403);
    let t4 = m - u / 72;
    proof {
        lemma_mul_nonneg_bound(u as int, t4 as int, 2_467_403, MICRO as int);
    }
    let t3 = m - u * t4 / (42 * m);
    proof {
        lemma_mul_nonneg_bound(u as int, t3 as int, 2_467_403, MICRO as int);
    }
    let t2 = m - u * t3 / (20 * m);
    proof {
        lemma_mul_nonneg_bound(u as int, t2 as int, 2_467_403, MICRO as int);
    }
    let t1 = m - u * t2 / (6 * m);
    proof {
        lemma_mul_nonneg_bound(x as int, t1 as int, 1_570_797, MICRO as int);
    }
    clamp_i128(x * t1 / m, 0, m)
}

/// The integer square root of `n`, by bisection.
fn isqrt_exec(n: i128) -> (r: i128)
    requires
        0 <= n <= MICRO * MICRO,
    ensures
        r == isqrt(n as int),
        0 <= r <= MICRO,
{
    let mut lo: i128 = 0;
    let mut hi: i128 = MICRO as i128 + 1;
    assert(n < hi * hi) by (nonlinear_arith)
        requires
            n <= MICRO * MICRO,
            hi == MICRO + 1,
    ;
    while hi - lo > 1
        invariant
            0 <= lo < hi <= MICRO + 1,
            lo * lo <= n < hi * hi,
        decreases hi - lo,
    {
        let mid = lo + (hi - lo) / 2;
        proof {
            lemma_mul_nonneg_bound(mid as int, mid as int, 1_000_001, 1_000_001);
        }
        if mid * mid <= n {
            lo = mid;
        } else {
            hi = mid;
        }
    }
    proof {
        lemma_isqrt(n as int);
        assert(is_root(n as int, lo as int));
        assert(lo <= MICRO) by (nonlinear_arith)
            requires
                0 <= lo,
                lo * lo <= n <= MICRO * MICRO,
        ;
    }
    lo
}

/// The position of `a` within one turn, in `[0, TWO_PI_MICRORAD)`.
fn turn_of(a: i128) -> (r: i128)
    requires
        -2 * ANGLE_LIMIT <= a <= 2 * ANGLE_LIMIT,
    ensures
        r == (a as int) % (TWO_PI_MICRORAD as int),
        0 <= r < TWO_PI_MICRORAD,
{
    let t = TWO_PI_MICRORAD as i128;
    let shifted = a + 2 * ANGLE_LIMIT as i128;
    proof {
        lemma_mod_multiples_vanish(2 * ANGLE_TURNS, a as int, t as int);
        assert(shifted == t * (2 * ANGLE_TURNS) + a);
        lemma_mod_pos_bound(shifted as int, t as int);
    }
    shifted % t
}

/// Sine and cosine of `a` micro-radians, in parts per million.
pub fn sin_cos_micro(a: i64) -> (r: (i64, i64))
    requires
        -ANGLE_LIMIT <= a <= ANGLE_LIMIT,
    ensures
        r.0 == sine(a as int),
        r.1 == cosine(a as int),
        -MICRO <= r.0 <= MICRO,
        -MICRO <= r.1 <= MICRO,
{
    let m = MICRO as i128;
    let r = turn_of(a as i128);
    let x = if r <= HALF_PI_MICRORAD as i128 {
        r
    } else if r <= PI_MICRORAD as i128 {
        PI_MICRORAD as i128 - r
    } else if r <= THREE_HALF_PI_MICRORAD as i128 {
        r - PI_MICRORAD as i128
    } else {
        TWO_PI_MICRORAD as i128 - r
    };
    let (s, c) = if x <= QUARTER_PI_MICRORAD as i128 {
        let s = quarter_wave_exec(x);
        proof {
            lemma_mul_nonneg_bound(s as int, s as int, MICRO as int, MICRO as int);
        }
        (s, isqrt_exec(m * m - s * s))
    } else {
        let rest = if x < HALF_PI_MICRORAD as i128 {
            HALF_PI_MICRORAD as i128 - x
        } else {
            0
        };
        let c = quarter_wave_exec(rest);
        proof {
            lemma_mul_nonneg_bound(c as int, c as int, MICRO as int, MICRO as int);
        }
        (isqrt_exec(m * m - c * c), c)
    };
    proof {
        lemma_unit(a as int);
    }
    let sin = if r <= PI_MICRORAD as i128 {
        s as i64
    } else {
        -(s as i64)
    };
    let cos = if r <= HALF_PI_MICRORAD as i128 || r > THREE_HALF_PI_MICRORAD as i128 {
        c as i64
    } else {
        -(c as i64)
    };
    (sin, cos)
}

/// Sine of `a` micro-radians, in parts per million.
pub fn sin_micro(a: i64) -> (r: i64)
    requires
        -ANGLE_LIMIT <= a <= ANGLE_LIMIT,
    ensures
        r == sine(a as int),
        -MICRO <= r <= MICRO,
{
    sin_cos_micro(a).0
}

/// Cosine of `a` micro-radians, in parts per million.
pub fn cos_micro(a: i64) -> (r: i64)
    requires
        -ANGLE_LIMIT <= a <= ANGLE_LIMIT,
    ensures
        r == cosine(a as int),
        -MICRO <= r <= MICRO,
{
    sin_cos_micro(a).1
}

/// A heading kept as it is while it stays within `ANGLE_LIMIT`, and brought
/// back into one turn once it leaves it.
pub open spec fn reduce_heading(a: int) -> int {
    if -ANGLE_LIMIT <= a <= ANGLE_LIMIT {
        a
    } else {
        a % (TWO_PI_MICRORAD as int)
    }
}

/// Bringing a heading back into one turn changes neither its sine nor its
/// cosine, so the direction it describes is kept exactly.
pub proof fn lemma_reduce_heading_keeps_direction(a: int)
    ensures
        -ANGLE_LIMIT <= reduce_heading(a) <= ANGLE_LIMIT,
        sine(reduce_heading(a)) == sine(a),
        cosine(reduce_heading(a)) == cosine(a),
{
    let t = TWO_PI_MICRORAD as int;
    if !(-ANGLE_LIMIT <= a <= ANGLE_LIMIT) {
        lemma_mod_twice(a, t);
        lemma_mod_pos_bound(a % t, t);
    }
}

/// Brings a heading that may have just left `ANGLE_LIMIT` back into range.
pub fn reduce_heading_exec(a: i128) -> (r: i64)
    requires
        -2 * ANGLE_LIMIT <= a <= 2 * ANGLE_LIMIT,
    ensures
        r == reduce_heading(a as int),
        -ANGLE_LIMIT <= r <= ANGLE_LIMIT,
{
    if -(ANGLE_LIMIT as i128) <= a && a <= ANGLE_LIMIT as i128 {
        a as i64
    } else {
        turn_of(a) as i64
    }
}

} // verus!
