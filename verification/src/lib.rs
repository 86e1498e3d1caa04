//! Verified solvers for two small text puzzles.
//!
//! The `calories` module splits a text blob into blank-line-delimited groups
//! of numbers, sums each group, and reduces the sums by maximum and by
//! top-three total. The `game` module parses two-letter round descriptions of
//! a rock-paper-scissors game and scores them by fixed rule tables.

pub mod calories;
pub mod chars;
pub mod game;
pub mod numbers;
pub mod split;
