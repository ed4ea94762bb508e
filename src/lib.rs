//! A snakes-and-ladders engine: randomized board generation and a turn engine
//! with three multiplayer interaction modes.
pub mod board;
pub mod game;
pub mod laws;
pub mod rng;
