//! Verified core of a square-packing puzzle: the shapes of pieces and
//! containers, glue constraints between features, board and share codes,
//! the retry policy used when sharing a board, and the sign-in, sharing
//! and routing decisions of the site.
use vstd::prelude::*;

pub mod text;
pub mod shape;
pub mod glue;
pub mod codec;
pub mod board;
pub mod share;
pub mod api;
pub mod play;
pub mod physics;
pub mod messages;
pub mod anneal;
pub mod passkey;
pub mod account;
pub mod username;
pub mod route;
pub mod publish;
pub mod benchmark;

verus! {

/// Largest piece count accepted for play and leaderboard submissions.
pub const MAX_N: u32 = 100;

} // verus!
