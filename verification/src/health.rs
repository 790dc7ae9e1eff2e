//! Health of a damageable entity.

use vstd::prelude::*;

verus! {

/// Current and maximum health.
#[derive(Clone, Copy, PartialEq, Eq, Structural, Debug)]
pub struct Health {
    pub max: i32,
    pub current: i32,
}

/// The value of type `i32` nearest to `v`.
pub open spec fn saturate_i32(v: int) -> i32 {
    if v < i32::MIN {
        i32::MIN
    } else if v > i32::MAX {
        i32::MAX
    } else {
        v as i32
    }
}

impl Default for Health {
    fn default() -> (h: Health)
        ensures
            h.max == 10,
            h.current == 5,
    {
        Health { max: 10, current: 5 }
    }
}

impl Health {
    /// The health after `damage` has been taken off the current value. The
    /// result stops at the bounds of `i32`; the maximum plays no part.
    pub open spec fn damaged(self, damage: i32) -> Health {
        Health { max: self.max, current: saturate_i32(self.current - damage) }
    }

    /// Takes `damage` off the current health.
    pub fn take_damage(&mut self, damage: i32)
        ensures
            *final(self) == old(self).damaged(damage),
    {
        let rest: i64 = self.current as i64 - damage as i64;
        if rest < -0x8000_0000 {
            self.current = i32::MIN;
        } else if rest > 0x7fff_ffff {
            self.current = i32::MAX;
        } else {
            self.current = rest as i32;
        }
    }
}

} // verus!
