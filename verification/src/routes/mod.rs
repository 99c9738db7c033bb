//! What each endpoint computes, from plain values to plain values.

pub mod catchers;
pub mod index;
pub mod leaderboard;
pub mod seed;
pub mod submit;
