//! A space-invaders game as a verified simulation: the ship, its lasers, the
//! alien roster, the mystery ship and the shields, advanced one frame at a time.
//! Drawing, sound, input and the high-score file are left to the caller, who
//! hands in plain values (the keys held, the clock) and gets plain values back.

pub mod constants;
pub mod context;
pub mod geometry;
pub mod block;
pub mod laser;
pub mod obstacle;
pub mod prune;
pub mod alien;
pub mod mysteryship;
mod random;
pub mod spaceship;
pub mod highscore;
pub mod game;
pub mod collision;
pub mod frame;
