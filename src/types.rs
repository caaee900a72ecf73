use vstd::prelude::*;

verus! {

/// How one letter of a guess relates to the answer.
#[derive(Debug, PartialEq, Eq, Clone, Copy, Structural)]
pub enum LetterState {
    /// Right letter, right position.
    Matched,
    /// The letter occurs in the answer, at another position.
    Present,
    /// The letter is not in the answer, or all its occurrences are taken.
    Absent,
}

/// One classification per character of a guess.
pub type GuessResult = Vec<LetterState>;

/// How a finished round ended.
#[derive(Debug, PartialEq, Eq, Clone, Copy, Structural)]
pub enum GameResult {
    Won,
    Lost,
}

/// Where a round stands.
#[derive(Debug, PartialEq, Eq, Clone, Copy, Structural)]
pub enum GameState {
    /// Constructed, not yet playable.
    Initial,
    /// Accepting guesses.
    InProgress,
    /// Finished; no transition leaves this state.
    Over(GameResult),
}

/// Difficulty of a round; it decides the default number of attempts.
#[derive(Debug, PartialEq, Eq, Clone, Copy, Structural)]
pub enum GameDifficulty {
    Easy,
    Medium,
    Hard,
}

/// Which console front end drives the game.
#[derive(Debug, PartialEq, Eq, Clone, Copy, Structural)]
pub enum ConsoleUiType {
    Ratatui,
    Plain,
}

/// Which front end drives the game.
#[derive(Debug, PartialEq, Eq, Clone, Copy, Structural)]
pub enum UiType {
    Console(ConsoleUiType),
    Gui,
}

} // verus!
