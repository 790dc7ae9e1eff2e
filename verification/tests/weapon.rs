use bullet_sim::player::{update_weapon, PLAYER_PATTERN_AMOUNT};
use bullet_sim::projectile::ProjectileTargetingType;
use bullet_sim::units::FULL_TURN;
use bullet_sim::weapon::{Weapon, DEFAULT_ATTACK_SPEED};

fn weapon(attack_speed: u64) -> Weapon {
    Weapon { damage: 1, attack_speed, attack_timer: 0 }
}

#[test]
fn default_weapon_fires_every_tenth_of_a_second() {
    let w = Weapon::default();
    assert_eq!(w.damage, 1);
    assert_eq!(w.attack_speed, 100_000);
    assert_eq!(w.attack_speed, DEFAULT_ATTACK_SPEED);
    assert_eq!(w.attack_timer, 0);
}

#[test]
fn cooldown_is_capped_at_one_interval() {
    let mut w = weapon(100_000);
    for _ in 0..5 {
        w.increment_attack_timer(50_000);
    }
    assert_eq!(w.attack_timer, 100_000);
    assert!(w.can_attack());
    assert_eq!(w.attack_timer, 0);
    assert!(!w.can_attack());
    assert_eq!(w.attack_timer, 0);
}

#[test]
fn cooldown_accumulates_below_the_cap() {
    let mut w = weapon(100_000);
    w.increment_attack_timer(40_000);
    assert_eq!(w.attack_timer, 40_000);
    assert!(!w.can_attack());
    assert_eq!(w.attack_timer, 40_000);
    w.increment_attack_timer(40_000);
    assert_eq!(w.attack_timer, 80_000);
    // The third tick would reach 120_000: the surplus is not banked.
    w.increment_attack_timer(40_000);
    assert_eq!(w.attack_timer, 100_000);
}

#[test]
fn huge_tick_does_not_overflow_the_timer() {
    let mut w = weapon(u64::MAX);
    w.increment_attack_timer(u64::MAX - 1);
    w.increment_attack_timer(u64::MAX);
    assert_eq!(w.attack_timer, u64::MAX);
    let mut w = weapon(100);
    w.attack_timer = 60;
    w.increment_attack_timer(u64::MAX);
    assert_eq!(w.attack_timer, 100);
}

#[test]
fn timer_above_the_interval_carries_the_rest_over_a_shot() {
    let mut w = weapon(100);
    w.attack_timer = 130;
    assert!(w.can_attack());
    assert_eq!(w.attack_timer, 30);
    // A tick brings a timer that is too high back to the cap.
    w.attack_timer = 130;
    w.increment_attack_timer(1);
    assert_eq!(w.attack_timer, 100);
}

#[test]
fn zero_interval_always_fires() {
    let mut w = weapon(0);
    assert!(w.can_attack());
    assert!(w.can_attack());
    w.increment_attack_timer(5);
    assert_eq!(w.attack_timer, 0);
}

#[test]
fn update_weapon_without_weapon_does_nothing() {
    let mut none: Option<Weapon> = None;
    assert!(update_weapon(&mut none, 16_666, true, Some(0)).is_none());
    assert!(none.is_none());
}

#[test]
fn update_weapon_accumulates_without_fire_intent() {
    let mut w = Some(weapon(100_000));
    for _ in 0..10 {
        assert!(update_weapon(&mut w, 50_000, false, Some(0)).is_none());
    }
    // Ready, and kept ready: nothing asked for the shot.
    assert_eq!(w.unwrap().attack_timer, 100_000);
}

#[test]
fn update_weapon_fires_full_circle_at_the_aim() {
    let mut w = Some(weapon(100_000));
    assert!(update_weapon(&mut w, 50_000, true, Some(90_000_000)).is_none());
    assert_eq!(w.unwrap().attack_timer, 50_000);
    let pattern = update_weapon(&mut w, 50_000, true, Some(90_000_000)).expect("cooldown is over");
    assert_eq!(pattern.amount, 10);
    assert_eq!(pattern.amount, PLAYER_PATTERN_AMOUNT);
    assert_eq!(pattern.dir, 90_000_000);
    assert_eq!(pattern.max_deg, FULL_TURN);
    assert_eq!(pattern.targeting, ProjectileTargetingType::PLAYER);
    assert_eq!(w.unwrap().attack_timer, 0);
    assert!(update_weapon(&mut w, 50_000, true, Some(90_000_000)).is_none());
}

#[test]
fn update_weapon_without_aim_spawns_nothing_but_cooldown_goes_on() {
    let mut w = Some(weapon(100_000));
    assert!(update_weapon(&mut w, 60_000, true, None).is_none());
    assert_eq!(w.unwrap().attack_timer, 60_000);
    // The shot is granted and used up, though there is nothing to aim at.
    assert!(update_weapon(&mut w, 60_000, true, None).is_none());
    assert_eq!(w.unwrap().attack_timer, 0);
    assert!(update_weapon(&mut w, 60_000, false, None).is_none());
    assert_eq!(w.unwrap().attack_timer, 60_000);
}
