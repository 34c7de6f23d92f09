//! The rules of a falling-block puzzle game, as a verified state engine.
//!
//! The crate holds the playfield, the seven-piece randomizer, the geometry of
//! the pieces, collision detection, line clearing, scoring and the gravity
//! clock. It draws nothing and reads no input device: a front end hands in
//! the player's intents and the time that has passed, and reads the state
//! back after each tick.

pub mod active;
pub mod bag;
pub mod board;
mod chance;
pub mod clock;
pub mod game;
pub mod piece;
pub mod progress;
