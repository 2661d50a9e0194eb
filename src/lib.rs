//! Tick-driven combat simulation for a survival shooter: timers, an event
//! bus, an actor registry, combat resolution, spawning with difficulty
//! scaling, a debug gate and the session state machine.
//!
//! Units: time in milliseconds, lengths in millimetres, health and damage
//! in whole points, stamina in thousandths of a point.

pub mod actors;
pub mod debug;
pub mod enemy;
pub mod events;
pub mod geometry;
pub mod laws;
pub mod player;
pub mod projectile;
pub mod session;
pub mod timer;
pub mod world;
