use bullet_sim::projectile::{
    find_entity, increment_states, update_states, PState, Projectile, ProjectileEntity,
    ProjectileTargetingType, DEFAULT_SPEED,
};
use bullet_sim::stateful::{SequencerError, StateDuration, StateRepeat, StatefulEvent};
use bullet_sim::states::AppStates;

fn pstate(speed: Option<i64>, angular_velocity: Option<i64>, duration: StateDuration) -> PState {
    PState { angular_velocity, speed, duration }
}

fn entity(id: u64, states: Vec<PState>, repeat: StateRepeat) -> ProjectileEntity {
    let (projectile, stateful) =
        Projectile::from_states(1, ProjectileTargetingType::PLAYER, states, repeat).unwrap();
    ProjectileEntity { id, projectile, stateful }
}

#[test]
fn default_projectile() {
    let p = Projectile::default();
    assert_eq!(p.damage, 1);
    assert_eq!(p.angular_velocity, 0);
    assert_eq!(p.speed, 15_000_000);
    assert_eq!(p.speed, DEFAULT_SPEED);
    assert_eq!(p.targeting_type, ProjectileTargetingType::ENVIRONMENT);
}

#[test]
fn apply_state_overrides_only_what_is_set() {
    let mut p = Projectile::default();
    p.apply_state(&pstate(Some(7), None, StateDuration::Instant));
    assert_eq!((p.speed, p.angular_velocity), (7, 0));
    p.apply_state(&pstate(None, Some(-3), StateDuration::Instant));
    assert_eq!((p.speed, p.angular_velocity), (7, -3));
    p.apply_state(&pstate(None, None, StateDuration::Fixed(5)));
    assert_eq!((p.speed, p.angular_velocity), (7, -3));
    p.apply_state(&pstate(Some(0), Some(0), StateDuration::Fixed(5)));
    assert_eq!((p.speed, p.angular_velocity), (0, 0));
    assert_eq!(p.damage, 1);
    assert_eq!(p.targeting_type, ProjectileTargetingType::ENVIRONMENT);
}

#[test]
fn projectile_from_states_starts_with_first_state_applied() {
    let states = vec![
        pstate(Some(12_000_000), None, StateDuration::Fixed(2_000_000)),
        pstate(None, Some(-120_000_000), StateDuration::Fixed(1_000_000)),
    ];
    let (p, s) =
        Projectile::from_states(4, ProjectileTargetingType::ENEMY, states, StateRepeat::FromIndex(1))
            .unwrap();
    assert_eq!(p.damage, 4);
    assert_eq!(p.targeting_type, ProjectileTargetingType::ENEMY);
    assert_eq!(p.speed, 12_000_000);
    assert_eq!(p.angular_velocity, 0);
    assert_eq!(s.state_current, 0);
    assert_eq!(s.state_duration, StateDuration::Fixed(2_000_000));
    assert_eq!(s.state_repeat, StateRepeat::FromIndex(1));
}

#[test]
fn projectile_from_states_rejects_what_the_sequencer_rejects() {
    let r = Projectile::from_states(1, ProjectileTargetingType::ENEMY, Vec::new(), StateRepeat::All);
    assert_eq!(r.err(), Some(SequencerError::NoStates));
    let states = vec![pstate(None, None, StateDuration::Instant)];
    let r = Projectile::from_states(1, ProjectileTargetingType::ENEMY, states, StateRepeat::FromIndex(1));
    assert_eq!(r.err(), Some(SequencerError::RepeatOutOfRange));
}

#[test]
fn increment_states_ticks_every_sequencer_and_stamps_events() {
    let mut world = vec![
        entity(
            11,
            vec![pstate(Some(1), None, StateDuration::Instant), pstate(Some(2), None, StateDuration::Fixed(9))],
            StateRepeat::Never,
        ),
        entity(
            22,
            vec![pstate(Some(3), None, StateDuration::Fixed(5)), pstate(Some(4), None, StateDuration::Instant)],
            StateRepeat::Never,
        ),
        entity(
            33,
            vec![pstate(Some(5), None, StateDuration::Fixed(0)), pstate(None, Some(6), StateDuration::Instant)],
            StateRepeat::All,
        ),
    ];
    let events = increment_states(2, &mut world);
    let seen: Vec<(u64, Option<i64>, Option<i64>)> =
        events.iter().map(|e| (e.entity_id, e.state.speed, e.state.angular_velocity)).collect();
    assert_eq!(seen, vec![(11, Some(2), None), (33, None, Some(6))]);
    assert_eq!(world[0].stateful.state_current, 1);
    assert_eq!(world[1].stateful.state_current, 0);
    assert_eq!(world[1].stateful.state_duration, StateDuration::Fixed(3));
    assert_eq!(world[2].stateful.state_current, 1);
    // The projectiles themselves change only when the events are delivered.
    assert_eq!(world[0].projectile.speed, 1);
    assert_eq!(world[2].projectile.angular_velocity, 0);
    assert_eq!(world.iter().map(|e| e.id).collect::<Vec<_>>(), vec![11, 22, 33]);
}

#[test]
fn increment_states_on_empty_world() {
    let mut world: Vec<ProjectileEntity> = Vec::new();
    assert!(increment_states(16_666, &mut world).is_empty());
    assert!(world.is_empty());
}

#[test]
fn update_states_delivers_events_in_order_and_drops_stale_ones() {
    let mut world = vec![
        entity(11, vec![pstate(Some(1), Some(1), StateDuration::Instant)], StateRepeat::Never),
        entity(22, vec![pstate(Some(2), Some(2), StateDuration::Instant)], StateRepeat::Never),
    ];
    let events = vec![
        StatefulEvent { entity_id: 22, state: pstate(Some(20), None, StateDuration::Instant) },
        StatefulEvent { entity_id: 99, state: pstate(Some(90), Some(90), StateDuration::Instant) },
        StatefulEvent { entity_id: 11, state: pstate(None, Some(10), StateDuration::Instant) },
        StatefulEvent { entity_id: 22, state: pstate(Some(21), Some(22), StateDuration::Instant) },
    ];
    update_states(&events, &mut world);
    assert_eq!((world[0].projectile.speed, world[0].projectile.angular_velocity), (1, 10));
    assert_eq!((world[1].projectile.speed, world[1].projectile.angular_velocity), (21, 22));
    assert_eq!(world.len(), 2);
}

#[test]
fn tick_then_deliver_mirrors_the_sequencer_in_the_projectile() {
    let states = vec![
        pstate(Some(12), None, StateDuration::Fixed(2)),
        pstate(None, Some(-120), StateDuration::Fixed(1)),
        pstate(None, Some(0), StateDuration::Instant),
    ];
    let mut world = vec![entity(5, states, StateRepeat::FromIndex(1))];
    let mut seen = Vec::new();
    for _ in 0..8 {
        let events = increment_states(1, &mut world);
        update_states(&events, &mut world);
        seen.push((
            world[0].stateful.state_current,
            world[0].projectile.speed,
            world[0].projectile.angular_velocity,
        ));
    }
    assert_eq!(
        seen,
        vec![
            (0, 12, 0),
            (0, 12, 0),
            (1, 12, -120),
            (1, 12, -120),
            (2, 12, 0),
            (1, 12, -120),
            (1, 12, -120),
            (2, 12, 0),
        ]
    );
}

#[test]
fn find_entity_gives_first_position_with_the_id() {
    let one = || vec![pstate(None, None, StateDuration::Instant)];
    let world = vec![
        entity(4, one(), StateRepeat::Never),
        entity(7, one(), StateRepeat::Never),
        entity(4, one(), StateRepeat::Never),
    ];
    assert_eq!(find_entity(&world, 4), Some(0));
    assert_eq!(find_entity(&world, 7), Some(1));
    assert_eq!(find_entity(&world, 5), None);
    assert_eq!(find_entity(&Vec::new(), 4), None);
}

#[test]
fn app_state_switches_to_the_other_mode() {
    assert_eq!(AppStates::Editor.next(), AppStates::Gameplay);
    assert_eq!(AppStates::Gameplay.next(), AppStates::Editor);
    assert_eq!(AppStates::Gameplay.next().next(), AppStates::Gameplay);
}
