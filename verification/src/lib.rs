//! Core of a small real-time arcade simulation: a player-controlled entity
//! moves inside a bounded 2D arena, time advances the world, collisions are
//! detected and resolved, and gameplay events are queued for presentation
//! layers (rendering, audio) that live outside this crate.
//!
//! The crate performs no I/O. It consumes a time delta in milliseconds, a set
//! of active player actions and a source of randomness, and it produces a
//! mutated world state plus an ordered sequence of gameplay events. All
//! geometry is exact integer arithmetic: positions and radii are arena units,
//! velocities are arena units per millisecond.

pub mod collisions;
pub mod events;
pub mod game_state;
pub mod geometry;
pub mod input;
pub mod models;
pub mod random;
pub mod time;
