//! Core model of a grid snake game: the snake body, its movement and
//! growth, and the game state machine that arbitrates direction changes,
//! collisions, food consumption and movement cadence.

pub mod game;
pub mod snake;
