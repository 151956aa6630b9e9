//! A small scoring service for a single-player game.
//!
//! Clients open a timed play session, then submit a final score tied to that
//! session. The service validates the score for plausibility (score accrues at
//! a fixed rate per second of play) and for viewport consistency (the display
//! may not have shrunk mid-session) before admitting the entry into a bounded,
//! rank-ordered leaderboard. Each session is consumable exactly once.

pub mod ai;
pub mod board;
pub mod outcome;
pub mod ranking;
pub mod session;
pub mod token;
