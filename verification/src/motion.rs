//! Per-tick motion of a projectile: how far it moves along its heading and
//! how far it turns.

use crate::units::{
    div_toward_zero, normalize, normalize_angle, saturate, FULL_TURN, TICKS_PER_SECOND,
};
use vstd::prelude::*;

verus! {

/// The nominal number of ticks per second that motion is corrected for.
pub const FRAME_RATE: u64 = 60;

/// Divisor of the frame-corrected amount: `(FRAME_RATE + 1) * TICKS_PER_SECOND`.
pub const CORRECTION_DIVISOR: u64 = 61_000_000;

/// What one tick does to a projectile.
#[derive(Clone, Copy, PartialEq, Eq, Structural, Debug)]
pub struct MotionStep {
    /// Distance to move along the heading the projectile has before it turns.
    pub forward: i64,
    /// Angle to turn by, counter-clockwise positive.
    pub turn: i64,
}

/// What a rate per second amounts to over `dt` time units, scaled by the
/// frame correction `FRAME_RATE / (FRAME_RATE + 1)`, which is 60 / 61, and
/// rounded toward zero. With a million time units to the second the divisor
/// is `CORRECTION_DIVISOR`.
pub open spec fn frame_corrected(rate: int, dt: int) -> int {
    div_toward_zero(rate * dt * 60, 61_000_000)
}

/// The numbers in `frame_corrected` are the frame rate and the divisor that
/// goes with it.
pub proof fn lemma_correction_constants()
    ensures
        FRAME_RATE == 60,
        CORRECTION_DIVISOR == (FRAME_RATE + 1) * TICKS_PER_SECOND,
        CORRECTION_DIVISOR == 61_000_000,
{
}

/// The distance a projectile of the given speed covers in one tick.
pub open spec fn forward_step(speed: i64, dt: u64) -> i64 {
    saturate(frame_corrected(speed as int, dt as int))
}

/// The angle a projectile of the given angular velocity turns by in one
/// tick. While its state is instant, it turns by the whole angular velocity
/// taken as an angle, whatever the tick's length.
pub open spec fn turn_step(angular_velocity: i64, dt: u64, instant: bool) -> i64 {
    if instant {
        angular_velocity
    } else {
        saturate(frame_corrected(angular_velocity as int, dt as int))
    }
}

/// Computes the frame-corrected amount of `rate` over `dt`, saturating at the
/// bounds of `i64`.
pub fn frame_corrected_amount(rate: i64, dt: u64) -> (amount: i64)
    ensures
        amount == saturate(frame_corrected(rate as int, dt as int)),
{
    let negative = rate < 0;
    let magnitude: u128 = if negative {
        (-(rate as i128)) as u128
    } else {
        rate as u128
    };
    assert(magnitude * dt <= 0x7fff_ffff_ffff_ffff_8000_0000_0000_0000) by (nonlinear_arith)
        requires
            magnitude <= 0x8000_0000_0000_0000,
            dt <= 0xffff_ffff_ffff_ffff,
    ;
    let product: u128 = magnitude * (dt as u128);
    // Multiplying before dividing could overflow, so the quotient and the
    // remainder of the division are scaled separately.
    let divisor: u128 = CORRECTION_DIVISOR as u128;
    let factor: u128 = FRAME_RATE as u128;
    let whole: u128 = product / divisor;
    let rest: u128 = product % divisor;
    assert(whole * factor == whole * 60 && rest * factor == rest * 60);
    let scaled: u128 = whole * factor + (rest * factor) / divisor;
    assert(scaled == (product * 60) / 61_000_000);
    assert(rate * dt * 60 == if negative {
        -(product * 60)
    } else {
        product * 60
    }) by (nonlinear_arith)
        requires
            product == magnitude * dt,
            negative ==> rate == -magnitude,
            !negative ==> rate == magnitude,
    ;
    if negative {
        if scaled >= 0x8000_0000_0000_0000 {
            i64::MIN
        } else {
            -(scaled as i64)
        }
    } else {
        if scaled > 0x7fff_ffff_ffff_ffff {
            i64::MAX
        } else {
            scaled as i64
        }
    }
}

/// The motion of one tick for a projectile of the given speed and angular
/// velocity; `instant` says whether the projectile's state is instant.
pub fn motion_step(speed: i64, angular_velocity: i64, instant: bool, dt: u64) -> (step: MotionStep)
    ensures
        step.forward == forward_step(speed, dt),
        step.turn == turn_step(angular_velocity, dt, instant),
{
    let forward = frame_corrected_amount(speed, dt);
    let turn = if instant {
        angular_velocity
    } else {
        frame_corrected_amount(angular_velocity, dt)
    };
    MotionStep { forward, turn }
}

/// The heading that turning by `turn` leads to from `heading`, in
/// `0..FULL_TURN`.
pub fn turn_heading(heading: i64, turn: i64) -> (turned: i64)
    ensures
        turned == normalize_angle(heading + turn),
        0 <= turned < FULL_TURN,
{
    normalize(heading as i128 + turn as i128)
}

} // verus!
