//! Simulation core of a top-down action game: timed state sequencing for
//! projectiles, weapon cooldown gating, radial spawn formations, per-tick
//! motion steps and projectile-versus-target collision resolution.
//!
//! All quantities are integers. Time is counted in microseconds, lengths and
//! angles in millionths of a world unit and of a degree (see `units`).

pub mod collision;
pub mod health;
pub mod motion;
pub mod player;
pub mod projectile;
pub mod projectilepattern;
pub mod stateful;
pub mod stateful_lemmas;
pub mod states;
pub mod units;
pub mod weapon;
