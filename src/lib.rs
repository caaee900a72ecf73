//! A word-guessing game: each guess is judged letter by letter against a hidden
//! answer, within a limited number of attempts.
//!
//! `judge` classifies a guess, `game` runs one round as a state machine, `word` holds
//! the vocabulary and draws answers, `config` the console colours, and `terminal`
//! the state of the interactive front end.

pub mod config;
pub mod game;
pub mod judge;
pub mod terminal;
pub mod types;
pub mod word;
