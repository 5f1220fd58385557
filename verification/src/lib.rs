//! The engine of the guessing game "Cows and Bulls": a hidden number of four
//! pairwise different digits, the scoring of a guess in cows and bulls, and the
//! table of deductions that a player may draw from the scores so far.

pub mod digits;
pub mod score;
pub mod hint;
pub mod deduce;
pub mod secret;
pub mod game;
