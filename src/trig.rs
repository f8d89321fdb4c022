//! Angles and fixed-point trigonometry.
//!
//! An angle is an integer count of millidegrees, so a full turn is
//! `FULL_TURN` and the four cardinal directions are exact. Sines and cosines
//! are fixed-point numbers scaled by `UNIT` (2^30), computed from the Taylor
//! polynomials of the sine and cosine on an eighth of a turn, whose
//! truncation error there is below 1e-10; with the fixed-point roundings the
//! result is within a few units of `UNIT * sin`.
use vstd::prelude::*;

verus! {

/// A full turn, in millidegrees.
pub const FULL_TURN: i64 = 360_000;

/// Half a turn, in millidegrees.
pub const HALF_TURN: i64 = 180_000;

/// A quarter turn, in millidegrees.
pub const QUARTER_TURN: i64 = 90_000;

/// An eighth of a turn, in millidegrees.
pub const EIGHTH_TURN: i64 = 45_000;

/// The fixed-point scale of sines and cosines: `UNIT` (2^30) stands for 1.
pub const UNIT: i64 = 1_073_741_824;

/// The magnitude of an integer.
pub open spec fn iabs(v: int) -> int {
    if v < 0 {
        -v
    } else {
        v
    }
}

/// Division that truncates toward zero, as the machine's signed division does.
pub open spec fn tdiv(n: int, d: int) -> int {
    let q = iabs(n) / iabs(d);
    if (n >= 0) == (d >= 0) {
        q
    } else {
        -q
    }
}

/// The remainder of truncating division: it takes the sign of `n`.
pub open spec fn trem(n: int, d: int) -> int {
    n - tdiv(n, d) * d
}

/// An angle brought into `[0, FULL_TURN)`.
pub open spec fn norm_angle(a: int) -> int {
    a % (FULL_TURN as int)
}

/// The fixed-point value of pi: `round(pi * UNIT)`.
pub const PI_FX: i64 = 3_373_259_426;

/// An angle of at most an eighth of a turn, in fixed-point radians.
pub open spec fn rad_fx(r: int) -> int {
    r * PI_FX / (HALF_TURN as int)
}

/// One Horner step: `1 - (x2 * t) / k`, in fixed point.
pub open spec fn horner(x2: int, t: int, k: int) -> int {
    UNIT - (x2 * t / (UNIT as int)) / k
}

/// The Taylor polynomial of the sine up to `x^11`, in fixed point.
pub open spec fn poly_sin(x: int) -> int {
    let x2 = x * x / (UNIT as int);
    x * horner(x2, horner(x2, horner(x2, horner(x2, horner(x2, UNIT as int, 110), 72), 42), 20), 6) / (UNIT as int)
}

/// The Taylor polynomial of the cosine up to `x^10`, in fixed point.
pub open spec fn poly_cos(x: int) -> int {
    let x2 = x * x / (UNIT as int);
    horner(x2, horner(x2, horner(x2, horner(x2, horner(x2, UNIT as int, 90), 56), 30), 12), 2)
}

/// The sine on the first quarter turn, `0 <= r <= QUARTER_TURN`: the sine
/// polynomial up to an eighth of a turn, the cosine polynomial of the
/// complement beyond.
pub open spec fn quarter_sine(r: int) -> int {
    if r <= EIGHTH_TURN {
        poly_sin(rad_fx(r))
    } else {
        poly_cos(rad_fx(QUARTER_TURN - r))
    }
}

/// The fixed-point sine of an angle in millidegrees.
pub open spec fn sine_fx(a: int) -> int {
    let n = norm_angle(a);
    let q = n / (QUARTER_TURN as int);
    let r = n % (QUARTER_TURN as int);
    if q == 0 {
        quarter_sine(r)
    } else if q == 1 {
        quarter_sine(QUARTER_TURN - r)
    } else if q == 2 {
        -quarter_sine(r)
    } else {
        -quarter_sine(QUARTER_TURN - r)
    }
}

/// The fixed-point cosine of an angle in millidegrees.
pub open spec fn cosine_fx(a: int) -> int {
    sine_fx(norm_angle(a) + QUARTER_TURN)
}

proof fn lemma_horner(x2: int, t: int, k: int)
    requires
        0 <= x2 <= UNIT,
        0 <= t <= UNIT,
        k >= 1,
    ensures
        0 <= horner(x2, t, k) <= UNIT,
        0 <= x2 * t <= UNIT * UNIT,
{
    assert(0 <= x2 * t <= UNIT * UNIT) by (nonlinear_arith)
        requires 0 <= x2 <= UNIT, 0 <= t <= UNIT;
    let p = x2 * t / (UNIT as int);
    assert(0 <= p <= UNIT) by {
        vstd::arithmetic::div_mod::lemma_div_pos_is_pos(x2 * t, UNIT as int);
        vstd::arithmetic::div_mod::lemma_div_is_ordered(x2 * t, UNIT * UNIT, UNIT as int);
        vstd::arithmetic::div_mod::lemma_div_by_multiple(UNIT as int, UNIT as int);
    }
    assert(0 <= p / k <= p) by {
        vstd::arithmetic::div_mod::lemma_div_pos_is_pos(p, k);
        vstd::arithmetic::div_mod::lemma_div_is_ordered_by_denominator(p, 1, k);
    }
}

proof fn lemma_square_fx(x: int)
    requires
        0 <= x <= UNIT,
    ensures
        0 <= x * x <= UNIT * UNIT,
        0 <= x * x / (UNIT as int) <= UNIT,
{
    assert(0 <= x * x <= UNIT * UNIT) by (nonlinear_arith)
        requires 0 <= x <= UNIT;
    vstd::arithmetic::div_mod::lemma_div_pos_is_pos(x * x, UNIT as int);
    vstd::arithmetic::div_mod::lemma_div_is_ordered(x * x, UNIT * UNIT, UNIT as int);
    vstd::arithmetic::div_mod::lemma_div_by_multiple(UNIT as int, UNIT as int);
}

proof fn lemma_rad_fx(r: int)
    requires
        0 <= r <= EIGHTH_TURN,
    ensures
        0 <= rad_fx(r) <= UNIT,
{
    assert(0 <= r * PI_FX <= EIGHTH_TURN * PI_FX) by (nonlinear_arith)
        requires 0 <= r <= EIGHTH_TURN;
    vstd::arithmetic::div_mod::lemma_div_pos_is_pos(r * PI_FX, HALF_TURN as int);
    vstd::arithmetic::div_mod::lemma_div_is_ordered(r * PI_FX, EIGHTH_TURN * PI_FX, HALF_TURN as int);
}

proof fn lemma_poly_bounds(x: int)
    requires
        0 <= x <= UNIT,
    ensures
        0 <= poly_sin(x) <= UNIT,
        0 <= poly_cos(x) <= UNIT,
{
    lemma_square_fx(x);
    let x2 = x * x / (UNIT as int);
    lemma_horner(x2, UNIT as int, 110);
    let s1 = horner(x2, UNIT as int, 110);
    lemma_horner(x2, s1, 72);
    let s2 = horner(x2, s1, 72);
    lemma_horner(x2, s2, 42);
    let s3 = horner(x2, s2, 42);
    lemma_horner(x2, s3, 20);
    let s4 = horner(x2, s3, 20);
    lemma_horner(x2, s4, 6);
    let s5 = horner(x2, s4, 6);
    lemma_square_fx(x);
    assert(0 <= x * s5 <= UNIT * UNIT) by (nonlinear_arith)
        requires 0 <= x <= UNIT, 0 <= s5 <= UNIT;
    vstd::arithmetic::div_mod::lemma_div_pos_is_pos(x * s5, UNIT as int);
    vstd::arithmetic::div_mod::lemma_div_is_ordered(x * s5, UNIT * UNIT, UNIT as int);
    vstd::arithmetic::div_mod::lemma_div_by_multiple(UNIT as int, UNIT as int);
    lemma_horner(x2, UNIT as int, 90);
    let c1 = horner(x2, UNIT as int, 90);
    lemma_horner(x2, c1, 56);
    let c2 = horner(x2, c1, 56);
    lemma_horner(x2, c2, 30);
    let c3 = horner(x2, c2, 30);
    lemma_horner(x2, c3, 12);
    let c4 = horner(x2, c3, 12);
    lemma_horner(x2, c4, 2);
}

proof fn lemma_quarter_bounds(r: int)
    requires
        0 <= r <= QUARTER_TURN,
    ensures
        0 <= quarter_sine(r) <= UNIT,
{
    if r <= EIGHTH_TURN {
        lemma_rad_fx(r);
        lemma_poly_bounds(rad_fx(r));
    } else {
        lemma_rad_fx(QUARTER_TURN - r);
        lemma_poly_bounds(rad_fx(QUARTER_TURN - r));
    }
}

/// Sines and cosines lie within `[-UNIT, UNIT]`.
pub proof fn lemma_trig_bounds(a: int)
    ensures
        -UNIT <= sine_fx(a) <= UNIT,
        -UNIT <= cosine_fx(a) <= UNIT,
{
    lemma_sine_bounds(a);
    lemma_sine_bounds(norm_angle(a) + QUARTER_TURN);
}

proof fn lemma_sine_bounds(a: int)
    ensures
        -UNIT <= sine_fx(a) <= UNIT,
{
    let n = norm_angle(a);
    let r = n % (QUARTER_TURN as int);
    lemma_quarter_bounds(r);
    lemma_quarter_bounds(QUARTER_TURN - r);
}

/// On the upper half turn the sine is non-negative.
pub proof fn lemma_sine_upper_half(a: int)
    requires
        0 <= a <= HALF_TURN,
    ensures
        0 <= sine_fx(a) <= UNIT,
{
    assert(norm_angle(a) == a);
    let r = a % (QUARTER_TURN as int);
    lemma_quarter_bounds(r);
    lemma_quarter_bounds(QUARTER_TURN - r);
    if a == HALF_TURN {
        assert(a / (QUARTER_TURN as int) == 2);
        assert(r == 0);
        assert(rad_fx(0) == 0);
        assert(quarter_sine(0) == 0);
    }
}

/// Brings an angle into `[0, FULL_TURN)`.
pub fn normalize(angle: i64) -> (r: i64)
    ensures
        r == norm_angle(angle as int),
        0 <= r < FULL_TURN,
{
    let m = angle % FULL_TURN;
    if m < 0 {
        m + FULL_TURN
    } else {
        m
    }
}

fn horner_exec(x2: i64, t: i64, k: i64) -> (r: i64)
    requires
        0 <= x2 <= UNIT,
        0 <= t <= UNIT,
        k >= 1,
    ensures
        r == horner(x2 as int, t as int, k as int),
        0 <= r <= UNIT,
{
    proof {
        lemma_horner(x2 as int, t as int, k as int);
    }
    UNIT - (x2 * t / UNIT) / k
}

fn quarter_sine_exec(r: i64) -> (s: i64)
    requires
        0 <= r <= QUARTER_TURN,
    ensures
        s == quarter_sine(r as int),
        0 <= s <= UNIT,
{
    proof {
        lemma_quarter_bounds(r as int);
    }
    let on_sine = r <= EIGHTH_TURN;
    let e = if on_sine { r } else { QUARTER_TURN - r };
    proof {
        lemma_rad_fx(e as int);
    }
    let x = e * PI_FX / HALF_TURN;
    proof {
        lemma_square_fx(x as int);
    }
    let x2 = x * x / UNIT;
    if on_sine {
        let t = horner_exec(x2, UNIT, 110);
        let t = horner_exec(x2, t, 72);
        let t = horner_exec(x2, t, 42);
        let t = horner_exec(x2, t, 20);
        let t = horner_exec(x2, t, 6);
        assert(0 <= x * t <= UNIT * UNIT) by (nonlinear_arith)
            requires 0 <= x <= UNIT, 0 <= t <= UNIT;
        x * t / UNIT
    } else {
        let t = horner_exec(x2, UNIT, 90);
        let t = horner_exec(x2, t, 56);
        let t = horner_exec(x2, t, 30);
        let t = horner_exec(x2, t, 12);
        horner_exec(x2, t, 2)
    }
}

/// The fixed-point sine of `angle` (millidegrees).
pub fn sine(angle: i64) -> (r: i64)
    ensures
        r == sine_fx(angle as int),
        -UNIT <= r <= UNIT,
{
    let n = normalize(angle);
    let q = n / QUARTER_TURN;
    let r = n % QUARTER_TURN;
    if q == 0 {
        quarter_sine_exec(r)
    } else if q == 1 {
        quarter_sine_exec(QUARTER_TURN - r)
    } else if q == 2 {
        -quarter_sine_exec(r)
    } else {
        -quarter_sine_exec(QUARTER_TURN - r)
    }
}

/// The fixed-point cosine of `angle` (millidegrees).
pub fn cosine(angle: i64) -> (r: i64)
    ensures
        r == cosine_fx(angle as int),
        -UNIT <= r <= UNIT,
{
    let n = normalize(angle);
    sine(n + QUARTER_TURN)
}

} // verus!
