use bullet_sim::projectile::{PState, ProjectileTargetingType, DEFAULT_SPEED};
use bullet_sim::projectilepattern::{CirclePattern, PatternError, Spawned, PATTERN_DAMAGE};
use bullet_sim::stateful::{SequencerError, StateDuration, StateRepeat};
use bullet_sim::units::{FULL_TURN, UNITS_PER_DEGREE};

const DEG: i64 = UNITS_PER_DEGREE;

fn template() -> Vec<PState> {
    vec![
        PState { speed: Some(12 * DEG), angular_velocity: None, duration: StateDuration::Fixed(2_000_000) },
        PState { speed: None, angular_velocity: Some(-120 * DEG), duration: StateDuration::Fixed(1_000_000) },
        PState { speed: None, angular_velocity: Some(0), duration: StateDuration::Fixed(100_000) },
        PState { speed: None, angular_velocity: Some(120 * DEG), duration: StateDuration::Fixed(1_000_000) },
        PState { speed: None, angular_velocity: Some(0), duration: StateDuration::Fixed(100_000) },
    ]
}

fn pattern(amount: i32, dir: i64, max_deg: i64) -> CirclePattern {
    CirclePattern { amount, dir, max_deg, targeting: ProjectileTargetingType::PLAYER }
}

fn headings(batch: &[Spawned]) -> Vec<i64> {
    batch.iter().map(|s| s.heading).collect()
}

fn spawn_error(p: &CirclePattern, states: &Vec<PState>, repeat: StateRepeat) -> PatternError {
    match p.spawn(states, repeat) {
        Ok(_) => panic!("the pattern spawned"),
        Err(e) => e,
    }
}

#[test]
fn default_pattern_is_an_empty_full_circle() {
    let p = CirclePattern::default();
    assert_eq!(p.amount, 0);
    assert_eq!(p.max_deg, 360 * DEG);
    assert_eq!(p.max_deg, FULL_TURN);
    assert_eq!(p.dir, 0);
    assert_eq!(p.targeting, ProjectileTargetingType::ENVIRONMENT);
}

#[test]
fn four_slots_over_full_circle_are_quarter_turns_apart() {
    let batch = pattern(4, 0, 360 * DEG).spawn(&template(), StateRepeat::FromIndex(1)).ok().unwrap();
    assert_eq!(headings(&batch), vec![135 * DEG, 45 * DEG, 315 * DEG, 225 * DEG]);
    let h = headings(&batch);
    for i in 0..4 {
        // Each slot lies a quarter turn to the right of the one before.
        assert_eq!((h[i] - h[(i + 1) % 4]).rem_euclid(FULL_TURN), 90 * DEG);
        // None points along the aim direction.
        assert_ne!(h[i], 0);
        // The slots mirror each other about the aim direction.
        assert_eq!((h[i] + h[3 - i]).rem_euclid(FULL_TURN), 0);
    }
}

#[test]
fn ten_slots_over_full_circle() {
    let batch = pattern(10, 0, 360 * DEG).spawn(&template(), StateRepeat::FromIndex(1)).ok().unwrap();
    let expected: Vec<i64> =
        (0..10).map(|i| (162 * DEG - i * 36 * DEG).rem_euclid(FULL_TURN)).collect();
    assert_eq!(headings(&batch), expected);
    assert_eq!(batch[0].heading, 162 * DEG);
    assert_eq!(batch[9].heading, 198 * DEG);
}

#[test]
fn odd_number_of_slots_has_one_along_the_aim() {
    let batch = pattern(3, 0, 90 * DEG).spawn(&template(), StateRepeat::Never).ok().unwrap();
    assert_eq!(headings(&batch), vec![30 * DEG, 0, 330 * DEG]);
}

#[test]
fn single_slot_points_along_the_aim() {
    let batch = pattern(1, 77 * DEG, 360 * DEG).spawn(&template(), StateRepeat::Never).ok().unwrap();
    assert_eq!(headings(&batch), vec![77 * DEG]);
}

#[test]
fn formation_follows_the_aim_direction_and_wraps() {
    let batch = pattern(4, 350 * DEG, 360 * DEG).spawn(&template(), StateRepeat::Never).ok().unwrap();
    assert_eq!(headings(&batch), vec![125 * DEG, 35 * DEG, 305 * DEG, 215 * DEG]);
    let batch = pattern(2, -10 * DEG, 40 * DEG).spawn(&template(), StateRepeat::Never).ok().unwrap();
    assert_eq!(headings(&batch), vec![0, 340 * DEG]);
    let batch = pattern(2, i64::MAX, i64::MAX).spawn(&template(), StateRepeat::Never).ok().unwrap();
    assert!(batch.iter().all(|s| 0 <= s.heading && s.heading < FULL_TURN));
}

#[test]
fn step_is_rounded_toward_zero() {
    // 360 degrees in seven steps: 51.428571 degrees each, the rest is dropped.
    let batch = pattern(7, 0, 360 * DEG).spawn(&template(), StateRepeat::Never).ok().unwrap();
    let step = 51_428_571;
    let first = 180 * DEG - step / 2;
    let expected: Vec<i64> = (0..7).map(|i| (first - i * step).rem_euclid(FULL_TURN)).collect();
    assert_eq!(headings(&batch), expected);
    assert_eq!(batch[0].heading, 154_285_715);
}

#[test]
fn negative_spread_mirrors_the_formation() {
    let batch = pattern(4, 0, -360 * DEG).spawn(&template(), StateRepeat::Never).ok().unwrap();
    assert_eq!(headings(&batch), vec![225 * DEG, 315 * DEG, 45 * DEG, 135 * DEG]);
    let batch = pattern(2, 0, -3).spawn(&template(), StateRepeat::Never).ok().unwrap();
    // Spread -3, step -1, half spread -1, half step 0: offsets -1 and 0.
    assert_eq!(headings(&batch), vec![FULL_TURN - 1, 0]);
}

#[test]
fn pattern_without_slots_is_rejected() {
    assert_eq!(spawn_error(&pattern(0, 0, 360 * DEG), &template(), StateRepeat::Never), PatternError::NoSlots);
    assert_eq!(spawn_error(&pattern(-3, 0, 360 * DEG), &template(), StateRepeat::Never), PatternError::NoSlots);
    assert_eq!(spawn_error(&pattern(i32::MIN, 0, 0), &Vec::new(), StateRepeat::Never), PatternError::NoSlots);
    assert_eq!(spawn_error(&CirclePattern::default(), &template(), StateRepeat::Never), PatternError::NoSlots);
}

#[test]
fn pattern_with_unusable_template_is_rejected() {
    let p = pattern(4, 0, 360 * DEG);
    assert_eq!(
        spawn_error(&p, &Vec::new(), StateRepeat::All),
        PatternError::Template(SequencerError::NoStates)
    );
    assert_eq!(
        spawn_error(&p, &template(), StateRepeat::FromIndex(5)),
        PatternError::Template(SequencerError::RepeatOutOfRange)
    );
    assert!(p.spawn(&template(), StateRepeat::FromIndex(4)).is_ok());
}

#[test]
fn spawned_projectiles_carry_category_damage_and_first_state() {
    let mut p = pattern(3, 0, 360 * DEG);
    p.targeting = ProjectileTargetingType::ENEMY;
    let batch = p.spawn(&template(), StateRepeat::FromIndex(1)).ok().unwrap();
    assert_eq!(batch.len(), 3);
    for s in &batch {
        assert_eq!(s.projectile.targeting_type, ProjectileTargetingType::ENEMY);
        assert_eq!(s.projectile.damage, 1);
        assert_eq!(s.projectile.damage, PATTERN_DAMAGE);
        assert_eq!(s.projectile.speed, 12 * DEG);
        assert_eq!(s.projectile.angular_velocity, 0);
        assert_eq!(s.stateful.state_current, 0);
        assert_eq!(s.stateful.state_duration, StateDuration::Fixed(2_000_000));
        assert_eq!(s.stateful.state_repeat, StateRepeat::FromIndex(1));
        assert_eq!(s.stateful.states.len(), 5);
        assert!(!s.stateful.changed_this_tick());
    }
}

#[test]
fn first_state_that_sets_nothing_leaves_the_defaults() {
    let states = vec![PState { speed: None, angular_velocity: None, duration: StateDuration::Instant }];
    let batch = pattern(1, 0, 360 * DEG).spawn(&states, StateRepeat::Never).ok().unwrap();
    assert_eq!(batch[0].projectile.speed, DEFAULT_SPEED);
    assert_eq!(batch[0].projectile.speed, 15_000_000);
    assert_eq!(batch[0].projectile.angular_velocity, 0);
}

#[test]
fn each_projectile_has_a_sequencer_of_its_own() {
    let states = vec![
        PState { speed: Some(1), angular_velocity: None, duration: StateDuration::Instant },
        PState { speed: Some(2), angular_velocity: None, duration: StateDuration::Fixed(9) },
    ];
    let mut batch = pattern(3, 0, 360 * DEG).spawn(&states, StateRepeat::Never).ok().unwrap();
    assert!(batch[1].stateful.update_state(1).is_some());
    assert_eq!(batch[0].stateful.state_current, 0);
    assert_eq!(batch[1].stateful.state_current, 1);
    assert_eq!(batch[2].stateful.state_current, 0);
    // The template itself is untouched.
    assert_eq!(states.len(), 2);
}

#[test]
fn headings_agree_with_the_real_formula() {
    for &(amount, dir, spread) in &[(4, 0.0_f64, 360.0_f64), (10, 37.5, 360.0), (5, 200.0, 90.0), (7, 0.0, 360.0)] {
        let p = pattern(amount, (dir * 1e6) as i64, (spread * 1e6) as i64);
        let batch = p.spawn(&template(), StateRepeat::Never).ok().unwrap();
        let step = spread / amount as f64;
        for (i, s) in batch.iter().enumerate() {
            let exact = (dir + spread / 2.0 - step / 2.0 - i as f64 * step).rem_euclid(360.0);
            let got = s.heading as f64 / 1e6;
            let apart = (got - exact).abs();
            assert!(apart.min(360.0 - apart) < 1e-4, "slot {}: {} against {}", i, got, exact);
        }
    }
}
