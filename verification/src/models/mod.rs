//! The values that travel between prover and server, and the records kept
//! of them.

pub mod leaderboard;
pub mod seed;
pub mod submission;
