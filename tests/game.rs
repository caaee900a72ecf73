use wordle::game::{Game, GuessError};
use wordle::types::LetterState::{Absent, Matched, Present};
use wordle::types::{GameDifficulty, GameResult, GameState};
use wordle::word::{length_for_roll, Word};

fn words(list: &[&str]) -> Vec<String> {
    list.iter().map(|w| w.to_string()).collect()
}

fn vocabulary() -> Word {
    let mut answer: Vec<Vec<String>> = vec![Vec::new(); 6];
    answer[5] = words(&["crane"]);
    Word::new(answer, words(&["crane", "slate", "trace", "react"]))
}

fn started(max_attempts: Option<u8>) -> Game {
    let mut g = Game::new(Some("crane".to_string()), None, max_attempts, vocabulary());
    g.start();
    g
}

#[test]
fn new_game_defaults() {
    let g = Game::new(Some("crane".to_string()), None, None, vocabulary());
    assert_eq!(g.get_state(), GameState::Initial);
    assert_eq!(g.get_attempts(), 0);
    assert_eq!(g.get_max_attempts(), 6);
    assert_eq!(g.get_word_length(), 5);
}

#[test]
fn new_game_attempts_by_difficulty() {
    let easy = Game::new(Some("crane".to_string()), Some(GameDifficulty::Easy), None, vocabulary());
    let hard = Game::new(Some("crane".to_string()), Some(GameDifficulty::Hard), None, vocabulary());
    let given = Game::new(Some("crane".to_string()), Some(GameDifficulty::Hard), Some(3), vocabulary());
    assert_eq!(easy.get_max_attempts(), 10);
    assert_eq!(hard.get_max_attempts(), 5);
    assert_eq!(given.get_max_attempts(), 3);
}

#[test]
fn new_game_draws_answer() {
    let mut answer: Vec<Vec<String>> = vec![Vec::new(); 16];
    for n in 4..=15 {
        answer[n] = vec!["q".repeat(n)];
    }
    let mut g = Game::new(None, None, None, Word::new(answer, Vec::new()));
    let n = g.get_word_length();
    assert!((4..=15).contains(&n));
    g.give_up();
    assert_eq!(g.get_answer(), "q".repeat(n));
}

#[test]
fn guess_before_start_is_refused() {
    let mut g = Game::new(Some("crane".to_string()), None, None, vocabulary());
    assert_eq!(g.guess("crane"), Err(GuessError::NotInProgress));
    assert_eq!(g.get_attempts(), 0);
    assert_eq!(g.get_state(), GameState::Initial);
}

#[test]
fn right_first_guess_wins() {
    let mut g = started(None);
    assert_eq!(g.guess("crane"), Ok(vec![Matched; 5]));
    assert_eq!(g.get_state(), GameState::Over(GameResult::Won));
    assert_eq!(g.get_attempts(), 1);
    assert_eq!(g.get_answer(), "crane");
}

#[test]
fn guess_is_lowercased() {
    let mut g = started(None);
    assert_eq!(g.guess("CrAnE"), Ok(vec![Matched; 5]));
    assert_eq!(g.get_state(), GameState::Over(GameResult::Won));
}

#[test]
fn single_wrong_guess_loses() {
    let mut g = started(Some(1));
    assert_eq!(g.guess("slate"), Ok(vec![Absent, Absent, Matched, Absent, Matched]));
    assert_eq!(g.get_state(), GameState::Over(GameResult::Lost));
    assert_eq!(g.get_attempts(), 1);
    assert_eq!(g.get_answer(), "crane");
}

#[test]
fn wrong_guesses_until_exhausted() {
    let mut g = started(Some(2));
    assert_eq!(g.guess("trace"), Ok(vec![Absent, Matched, Matched, Present, Matched]));
    assert_eq!(g.get_state(), GameState::InProgress);
    assert_eq!(g.guess("react"), Ok(vec![Present, Present, Matched, Present, Absent]));
    assert_eq!(g.get_state(), GameState::Over(GameResult::Lost));
    assert_eq!(g.get_attempts(), 2);
    assert_eq!(g.guess("crane"), Err(GuessError::NotInProgress));
    assert_eq!(g.get_attempts(), 2);
}

#[test]
fn short_guess_is_wrong_length() {
    let mut g = started(None);
    assert_eq!(g.guess("cra"), Err(GuessError::WrongLength));
    assert_eq!(g.guess("zzzzzz"), Err(GuessError::WrongLength));
    assert_eq!(g.get_attempts(), 0);
    assert_eq!(g.get_state(), GameState::InProgress);
}

#[test]
fn guess_with_other_characters_is_refused() {
    let mut g = started(None);
    assert_eq!(g.guess("cr4ne"), Err(GuessError::InvalidCharacters));
    assert_eq!(g.guess("cr ne"), Err(GuessError::InvalidCharacters));
    assert_eq!(g.guess("cr4"), Err(GuessError::InvalidCharacters));
    assert_eq!(g.get_attempts(), 0);
}

#[test]
fn unknown_word_is_refused() {
    let mut g = started(None);
    assert_eq!(g.guess("zzzzz"), Err(GuessError::UnknownWord));
    assert_eq!(g.get_attempts(), 0);
    assert_eq!(g.get_state(), GameState::InProgress);
}

#[test]
fn give_up_loses_at_once() {
    let mut g = started(Some(10));
    assert!(g.guess("slate").is_ok());
    g.give_up();
    assert_eq!(g.get_state(), GameState::Over(GameResult::Lost));
    assert_eq!(g.get_attempts(), 1);
    assert_eq!(g.get_answer(), "crane");
}

#[test]
fn give_up_before_start() {
    let mut g = Game::new(Some("crane".to_string()), None, None, vocabulary());
    g.give_up();
    assert_eq!(g.get_state(), GameState::Over(GameResult::Lost));
}

#[test]
fn is_valid_word_looks_up_dictionary() {
    let w = vocabulary();
    assert!(w.is_valid_word("slate"));
    assert!(!w.is_valid_word("slat"));
    assert!(!w.is_valid_word("SLATE"));
}

#[test]
fn generate_answer_of_given_length() {
    let w = vocabulary();
    assert_eq!(w.generate_answer(Some(5)), Ok("crane".to_string()));
    assert_eq!(w.generate_answer(Some(4)), Err("No words available for the given length."));
    assert_eq!(w.generate_answer(Some(6)), Err("Invalid word length."));
}

#[test]
fn generate_answer_picks_from_list() {
    let mut answer: Vec<Vec<String>> = vec![Vec::new(); 4];
    answer[3] = words(&["abc", "def", "ghi"]);
    let w = Word::new(answer, Vec::new());
    for _ in 0..20 {
        let a = w.generate_answer(Some(3)).unwrap();
        assert!(["abc", "def", "ghi"].contains(&a.as_str()));
    }
}

#[test]
fn generate_answer_of_random_length() {
    let mut answer: Vec<Vec<String>> = vec![Vec::new(); 16];
    for n in 4..=15 {
        answer[n] = vec!["x".repeat(n)];
    }
    let w = Word::new(answer, Vec::new());
    for _ in 0..20 {
        let a = w.generate_answer(None).unwrap();
        assert!((4..=15).contains(&a.len()));
    }
}

#[test]
fn length_table_buckets() {
    assert_eq!(length_for_roll(0, 0), 4);
    assert_eq!(length_for_roll(19, 0), 4);
    assert_eq!(length_for_roll(20, 0), 5);
    assert_eq!(length_for_roll(59, 0), 5);
    assert_eq!(length_for_roll(60, 0), 6);
    assert_eq!(length_for_roll(80, 0), 7);
    assert_eq!(length_for_roll(90, 0), 8);
    assert_eq!(length_for_roll(95, 0), 9);
    assert_eq!(length_for_roll(98, 4), 10);
    assert_eq!(length_for_roll(99, 0), 11);
    assert_eq!(length_for_roll(99, 4), 15);
}
