//! Wordle art: find guess words whose green/non-green feedback against a
//! fixed solution draws a requested picture.
use vstd::prelude::*;

pub mod matching;
pub mod pattern;
pub mod render;
pub mod text;

verus! {

/// Letters in a word.
pub const WORD_LENGTH: usize = 5;

/// Guess rows in a picture.
pub const GUESS_COUNT: usize = 6;

} // verus!
