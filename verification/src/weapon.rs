//! Weapon cooldown: accumulates elapsed time up to one attack interval and
//! gates firing on it.

use vstd::prelude::*;

verus! {

/// Attack interval of the default weapon: a tenth of a second.
pub const DEFAULT_ATTACK_SPEED: u64 = 100_000;

/// A weapon with a cooldown timer.
///
/// `attack_speed` is the interval between two shots and `attack_timer` the
/// time accumulated since the last shot, both in time units.
#[derive(Clone, Copy, Debug)]
pub struct Weapon {
    pub damage: i32,
    pub attack_speed: u64,
    pub attack_timer: u64,
}

impl Default for Weapon {
    fn default() -> (w: Weapon)
        ensures
            w.damage == 1,
            w.attack_speed == DEFAULT_ATTACK_SPEED,
            w.attack_timer == 0,
    {
        Weapon { damage: 1, attack_speed: DEFAULT_ATTACK_SPEED, attack_timer: 0 }
    }
}

impl Weapon {
    /// Whether the cooldown allows a shot: the timer has reached the attack
    /// interval.
    pub open spec fn ready(self) -> bool {
        self.attack_timer >= self.attack_speed
    }

    /// The weapon after `delta` more time units: the timer has grown by
    /// `delta`, but not beyond the attack interval.
    pub open spec fn after_tick(self, delta: u64) -> Weapon {
        Weapon {
            damage: self.damage,
            attack_speed: self.attack_speed,
            attack_timer: if self.attack_timer + delta >= self.attack_speed {
                self.attack_speed
            } else {
                (self.attack_timer + delta) as u64
            },
        }
    }

    /// The weapon after a request for a shot: a ready weapon pays one attack
    /// interval out of its timer, any other stays as it is.
    pub open spec fn after_request(self) -> Weapon {
        if self.ready() {
            Weapon {
                damage: self.damage,
                attack_speed: self.attack_speed,
                attack_timer: (self.attack_timer - self.attack_speed) as u64,
            }
        } else {
            self
        }
    }

    /// Accumulates `delta` time units of cooldown. The timer never banks
    /// more than one attack interval.
    pub fn increment_attack_timer(&mut self, delta: u64)
        ensures
            *final(self) == old(self).after_tick(delta),
            final(self).attack_timer <= final(self).attack_speed,
    {
        if self.attack_timer >= self.attack_speed {
            self.attack_timer = self.attack_speed;
        } else {
            let room: u64 = self.attack_speed - self.attack_timer;
            if delta >= room {
                self.attack_timer = self.attack_speed;
            } else {
                self.attack_timer = self.attack_timer + delta;
            }
        }
    }

    /// Asks for a shot. If the timer has reached the attack interval, the
    /// interval is taken off the timer and the answer is yes; otherwise
    /// nothing changes and the answer is no.
    pub fn can_attack(&mut self) -> (fired: bool)
        ensures
            fired == old(self).ready(),
            *final(self) == old(self).after_request(),
    {
        if self.attack_timer >= self.attack_speed {
            self.attack_timer = self.attack_timer - self.attack_speed;
            return true;
        }
        false
    }
}

/// After a tick the timer holds at most one attack interval, so a shot
/// granted then leaves the timer at zero, and with a positive attack
/// interval a second request right after it is turned down.
pub proof fn lemma_shot_uses_up_cooldown(w: Weapon, delta: u64)
    ensures
        w.after_tick(delta).attack_timer <= w.attack_speed,
        w.after_tick(delta).ready() ==> w.after_tick(delta).after_request().attack_timer == 0,
        w.after_tick(delta).ready() && w.attack_speed > 0 ==> !w.after_tick(
            delta,
        ).after_request().ready(),
{
}

} // verus!
