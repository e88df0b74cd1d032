//! Fixed-point units and the small arithmetic helpers the simulation uses.
//!
//! Angles are millidegrees, distances are thousandths of a range unit,
//! times are milliseconds, and angular (radial) velocities are millidegrees
//! (thousandths of a unit) per second.

use vstd::prelude::*;

verus! {

/// One full rotation, in millidegrees.
pub const FULL_TURN_MDEG: i64 = 360_000;

/// Width of the sweep beam, in millidegrees.
pub const BEAM_WIDTH_MDEG: i64 = 3_000;

/// Angular rate of the sweep beam, in millidegrees per second.
pub const SWEEP_MDEG_PER_SEC: i64 = 48_000;

/// Scale factor of the fixed-point encoding: one second in milliseconds,
/// one degree in millidegrees, full visibility in thousandths.
pub const MILLI: i64 = 1_000;

/// Largest time delta, in milliseconds, a single simulation step accepts.
/// Keeping steps below this bound means no object, and not the beam either,
/// moves a full turn in one step, so a single wrap restores the angle range.
pub const MAX_STEP_MS: i64 = 5_000;

/// Largest magnitude, in millidegrees (thousandths of a unit) per second,
/// a velocity component may have.
pub const MAX_VELOCITY: i64 = 60_000;

/// Largest configurable range, in thousandths of a unit.
pub const MAX_RANGE_LIMIT: i64 = 1_000_000_000_000;

/// Largest fade duration, in milliseconds.
pub const MAX_FADE_MS: i64 = 1_000_000_000;

/// Largest clock reading, in milliseconds, the simulation accepts.
pub const MAX_CLOCK_MS: i64 = 4_000_000_000_000;

/// Rust's truncating division of `n` by a positive `d`, over mathematical
/// integers (ghost `/` alone is Euclidean and differs on negative `n`).
pub open spec fn div_trunc(n: int, d: int) -> int {
    if n >= 0 {
        n / d
    } else {
        -((-n) / d)
    }
}

/// Distance travelled, in millidegrees or thousandths of a unit, by a
/// velocity of `v` per second over `dt` milliseconds.
pub open spec fn vel_step(v: int, dt: int) -> int {
    div_trunc(v * dt, MILLI as int)
}

/// Truncating division of `n` by a positive `d`.
pub fn div_trunc_exec(n: i64, d: i64) -> (q: i64)
    requires
        d > 0,
        -0x4000_0000_0000_0000 < n < 0x4000_0000_0000_0000,
    ensures
        q == div_trunc(n as int, d as int),
{
    if n >= 0 {
        n / d
    } else {
        -((-n) / d)
    }
}

/// Distance travelled by velocity `v` over `dt` milliseconds.
pub fn vel_step_exec(v: i64, dt: i64) -> (r: i64)
    requires
        -MAX_VELOCITY <= v <= MAX_VELOCITY,
        0 <= dt <= MAX_STEP_MS,
    ensures
        r == vel_step(v as int, dt as int),
        -FULL_TURN_MDEG < r < FULL_TURN_MDEG,
        v >= 0 ==> r >= 0,
{
    proof {
        lemma_vel_step_bound(v as int, dt as int);
    }
    let product = v * dt;
    div_trunc_exec(product, MILLI)
}

/// A velocity within bounds moves anything less than a full turn in one step.
pub proof fn lemma_vel_step_bound(v: int, dt: int)
    requires
        -MAX_VELOCITY <= v <= MAX_VELOCITY,
        0 <= dt <= MAX_STEP_MS,
    ensures
        -FULL_TURN_MDEG < vel_step(v, dt) < FULL_TURN_MDEG,
        -(MAX_VELOCITY * MAX_STEP_MS) <= v * dt <= MAX_VELOCITY * MAX_STEP_MS,
        v >= 0 ==> vel_step(v, dt) >= 0,
{
    assert(v >= 0 ==> v * dt >= 0) by (nonlinear_arith)
        requires
            dt >= 0,
    ;
    assert(-(MAX_VELOCITY * MAX_STEP_MS) <= v * dt <= MAX_VELOCITY * MAX_STEP_MS)
        by (nonlinear_arith)
        requires
            -MAX_VELOCITY <= v <= MAX_VELOCITY,
            0 <= dt <= MAX_STEP_MS,
    ;
    if v * dt >= 0 {
        assert(v * dt / (MILLI as int) <= MAX_VELOCITY * MAX_STEP_MS / (MILLI as int))
            by (nonlinear_arith)
            requires
                0 <= v * dt <= MAX_VELOCITY * MAX_STEP_MS,
        ;
        assert(v * dt / (MILLI as int) >= 0) by (nonlinear_arith)
            requires
                v * dt >= 0,
        ;
    } else {
        assert(-(v * dt) / (MILLI as int) <= MAX_VELOCITY * MAX_STEP_MS / (MILLI as int))
            by (nonlinear_arith)
            requires
                0 <= -(v * dt) <= MAX_VELOCITY * MAX_STEP_MS,
        ;
        assert(-(v * dt) / (MILLI as int) >= 0) by (nonlinear_arith)
            requires
                -(v * dt) >= 0,
        ;
    }
}

/// The value of `x`, at most one turn out of range, brought back into
/// `[0, FULL_TURN_MDEG)` by a single wrap, as the simulation does after
/// each angular step.
pub open spec fn wrap_angle(x: int) -> int {
    if x >= FULL_TURN_MDEG {
        x - FULL_TURN_MDEG
    } else if x < 0 {
        x + FULL_TURN_MDEG
    } else {
        x
    }
}

/// A single wrap restores the angle range when the step stays under a turn.
pub proof fn lemma_wrap_angle_range(x: int)
    requires
        -FULL_TURN_MDEG < x < 2 * FULL_TURN_MDEG,
    ensures
        0 <= wrap_angle(x) < FULL_TURN_MDEG,
{
}

/// Within its admissible span, the single wrap agrees with remainder
/// arithmetic on the full turn.
pub proof fn lemma_wrap_angle_is_mod(x: int)
    requires
        -FULL_TURN_MDEG < x < 2 * FULL_TURN_MDEG,
    ensures
        wrap_angle(x) == x % (FULL_TURN_MDEG as int),
{
    let f = FULL_TURN_MDEG as int;
    if x >= f {
        assert((x - f) % f == x % f) by (nonlinear_arith)
            requires
                f > 0,
        ;
        assert(0 <= x - f < f);
        assert((x - f) % f == x - f) by (nonlinear_arith)
            requires
                0 <= x - f < f,
        ;
    } else if x < 0 {
        assert((x + f) % f == x % f) by (nonlinear_arith)
            requires
                f > 0,
        ;
        assert(0 <= x + f < f);
        assert((x + f) % f == x + f) by (nonlinear_arith)
            requires
                0 <= x + f < f,
        ;
    } else {
        assert(x % f == x) by (nonlinear_arith)
            requires
                0 <= x < f,
        ;
    }
}

} // verus!
