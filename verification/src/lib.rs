//! Tide chart engine: parses tide predictions from two textual encodings,
//! normalizes their timestamps, selects the points relevant to one day's
//! chart, and interpolates a smooth curve between consecutive extrema.
//! Companion modules hold the smaller standalone utilities of the crate.

pub mod addressing;
pub mod ch10;
pub mod ch12;
pub mod curve;
pub mod eatery;
pub mod errors;
pub mod guessing_game;
pub mod json;
pub mod ownit;
pub mod rectangles;
pub mod repetition;
pub mod text;
pub mod tides;
pub mod timestamp;
pub mod utils;
