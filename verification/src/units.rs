//! Units and integer arithmetic shared by the simulation.
//!
//! Time is counted in microseconds. Lengths, speeds, angles and angular
//! velocities are fixed-point numbers with six decimal places: a length of
//! one world unit is `1_000_000`, an angle of one degree is `1_000_000`, and
//! the same holds per second for the two kinds of velocity.

use vstd::arithmetic::div_mod::lemma_mod_multiples_vanish;
use vstd::prelude::*;

verus! {

/// Time units in one second.
pub const TICKS_PER_SECOND: u64 = 1_000_000;

/// Angle units in one degree.
pub const UNITS_PER_DEGREE: i64 = 1_000_000;

/// Angle units in one full turn.
pub const FULL_TURN: i64 = 360_000_000;

/// Integer division that rounds toward zero, for a positive divisor.
pub open spec fn div_toward_zero(a: int, b: int) -> int
    recommends
        b > 0,
{
    if a >= 0 {
        a / b
    } else {
        -((-a) / b)
    }
}

/// The value of type `i64` nearest to `v`.
pub open spec fn saturate(v: int) -> i64 {
    if v < i64::MIN {
        i64::MIN
    } else if v > i64::MAX {
        i64::MAX
    } else {
        v as i64
    }
}

/// The angle in `0..FULL_TURN` that points the same way as `angle`.
pub open spec fn normalize_angle(angle: int) -> int {
    angle % (FULL_TURN as int)
}

/// Brings an angle into `0..FULL_TURN`.
pub fn normalize(angle: i128) -> (r: i64)
    ensures
        r == normalize_angle(angle as int),
        0 <= r < FULL_TURN,
{
    let rem: i128 = angle % (FULL_TURN as i128);
    if rem < 0 {
        (rem + FULL_TURN as i128) as i64
    } else {
        rem as i64
    }
}

/// Turning on from an angle that is already normalized leads to the same
/// heading as turning on from the angle itself.
pub proof fn lemma_normalize_absorbs(angle: int, turn: int)
    ensures
        normalize_angle(normalize_angle(angle) + turn) == normalize_angle(angle + turn),
        0 <= normalize_angle(angle) < FULL_TURN,
{
    let m = FULL_TURN as int;
    let q = angle / m;
    vstd::arithmetic::div_mod::lemma_fundamental_div_mod(angle, m);
    assert(angle + turn == m * q + (angle % m + turn));
    lemma_mod_multiples_vanish(q, angle % m + turn, m);
}

/// Division without remainder gives the exact quotient, whatever the sign.
pub proof fn lemma_exact_division(a: int, b: int, q: int)
    requires
        b > 0,
        a == q * b,
    ensures
        div_toward_zero(a, b) == q,
{
    if a >= 0 {
        vstd::arithmetic::div_mod::lemma_fundamental_div_mod_converse(a, b, q, 0);
    } else {
        assert(-a == (-q) * b) by (nonlinear_arith)
            requires
                a == q * b,
        ;
        vstd::arithmetic::div_mod::lemma_fundamental_div_mod_converse(-a, b, -q, 0);
    }
}

} // verus!
