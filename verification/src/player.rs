//! The player's weapon handling: cooldown, fire intent and aim decide each
//! tick whether a formation is spawned.

use crate::projectile::ProjectileTargetingType;
use crate::projectilepattern::CirclePattern;
use crate::units::FULL_TURN;
use crate::weapon::Weapon;
use vstd::prelude::*;

verus! {

/// Number of projectiles in the formation that the player fires.
pub const PLAYER_PATTERN_AMOUNT: i32 = 10;

/// The formation that the player fires in the direction `dir`: a full
/// circle of projectiles that damage the other side.
pub open spec fn player_pattern(dir: i64) -> CirclePattern {
    CirclePattern {
        amount: PLAYER_PATTERN_AMOUNT,
        dir,
        max_deg: FULL_TURN,
        targeting: ProjectileTargetingType::PLAYER,
    }
}

/// The weapon after one tick: cooldown accumulates whether or not the
/// player wants to fire, and a shot is requested only if they do.
pub open spec fn weapon_after(weapon: Weapon, time_delta: u64, firing: bool) -> Weapon {
    if firing {
        weapon.after_tick(time_delta).after_request()
    } else {
        weapon.after_tick(time_delta)
    }
}

/// The formation to spawn this tick, if any: the player wants to fire, the
/// cooldown grants the shot and there is a direction to aim in.
pub open spec fn pattern_fired(weapon: Weapon, time_delta: u64, firing: bool, aim: Option<i64>) -> Option<
    CirclePattern,
> {
    if firing && weapon.after_tick(time_delta).ready() {
        match aim {
            Some(dir) => Some(player_pattern(dir)),
            None => None,
        }
    } else {
        None
    }
}

/// One tick of the player's weapon.
///
/// `firing` is the fire intent and `aim` the heading of the aim direction,
/// absent where there is no valid aim point. Without a weapon nothing
/// happens. A shot that the cooldown grants is used up even where the aim
/// is absent and nothing is spawned.
pub fn update_weapon(
    weapon: &mut Option<Weapon>,
    time_delta: u64,
    firing: bool,
    aim: Option<i64>,
) -> (pattern: Option<CirclePattern>)
    ensures
        match *old(weapon) {
            Some(w) => {
                &&& *final(weapon) == Some(weapon_after(w, time_delta, firing))
                &&& pattern == pattern_fired(w, time_delta, firing, aim)
            },
            None => *final(weapon) is None && pattern is None,
        },
{
    match weapon {
        Some(wp) => {
            wp.increment_attack_timer(time_delta);
            if firing && wp.can_attack() {
                match aim {
                    Some(dir) => Some(
                        CirclePattern {
                            amount: PLAYER_PATTERN_AMOUNT,
                            dir,
                            max_deg: FULL_TURN,
                            targeting: ProjectileTargetingType::PLAYER,
                        },
                    ),
                    None => None,
                }
            } else {
                None
            }
        },
        None => None,
    }
}

} // verus!
