//! Simulation core of a grid-based snake game.
//!
//! The crate keeps an ordered chain of body segments on a discrete grid,
//! advances it one cell per movement tick, detects when the head reaches
//! food, and grows the chain in response. Every operation carries a
//! contract over a mathematical view of the simulation state, and the laws
//! that relate the operations are proved in [`laws`].
//!
//! Windows, sprites, key polling and timers are the caller's business: the
//! caller hands in key flags and handles for the things it draws, and reads
//! back cells.

pub mod direction;
pub mod grid;
pub mod laws;
mod sampling;
pub mod world;

pub use direction::{Direction, SnakeHead};
pub use grid::{Position, ARENA_HEIGHT, ARENA_WIDTH, FOOD_SPAWN_MS, MOVEMENT_TICK_MS};
pub use world::{Food, GrowthEvent, Segment, World};
