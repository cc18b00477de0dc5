//! A small whack-a-mole game: a board of holes, a game state machine driven by
//! events, the mapping from key presses to events and a description of what to
//! draw on screen.

pub mod board;
pub mod model;
