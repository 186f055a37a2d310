//! Headless core of a small 2D space arcade game: timers, fixed-point motion,
//! an entity store, spawn and despawn rules, the game-state machine, and the
//! schedule that advances them one tick at a time.

pub mod chance;
pub mod game;
pub mod items;
pub mod motion;
pub mod rules;
pub mod schedule;
pub mod state;
pub mod timer;
pub mod world;
