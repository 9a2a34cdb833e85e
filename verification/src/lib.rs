//! The rules of a small arcade shooter: sprite animation, timers, the player's
//! health, collisions between the player and baddies, the HUD texts and the
//! control scheme.
pub mod timer;
pub mod animation;
pub mod player;
pub mod hud;
pub mod spawning;
pub mod controls;
