//! Rules engine for a card-pulling and journaling game: identity
//! normalization, calendar arithmetic, experience levels, daily pull gating,
//! journal streaks, referrals, favorites, achievements and a weighted raffle.
//!
//! Every operation works on an in-memory snapshot of the game's relations
//! (`store::Db`) and either commits all of its writes or leaves the snapshot
//! untouched.

pub mod calendar;
pub mod entry_hash;
pub mod error;
pub mod journal;
pub mod level;
pub mod progression;
pub mod pulls;
pub mod raffle;
pub mod rng;
pub mod social;
pub mod store;
pub mod text;
