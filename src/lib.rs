//! Gameplay core of a 2D arcade space shooter: a fixed projectile pool, the
//! combat resolver, experience pickup and levelling, the timed wave director
//! and the coarse game-mode state machine with its pause-time velocity store.
//!
//! World quantities are whole numbers: positions and velocities in world
//! units, health and damage in hit points, experience in points, ratios in
//! percent, time in milliseconds.
pub mod physics;
pub mod constants;
mod random;
pub mod guns;
pub mod player;
pub mod mobs;
pub mod game_ui;
pub mod state;
