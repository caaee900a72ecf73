use wordle::config::ConsoleBackgroundColour::{Blue, Gray, Green, Yellow};
use wordle::game::{Game, GuessError};
use wordle::terminal::{App, Cell, Key, StatusLine};
use wordle::types::LetterState::{Absent, Matched, Present};
use wordle::types::{GameResult, GameState};
use wordle::word::Word;

fn app(max_attempts: u8) -> App {
    let mut answer: Vec<Vec<String>> = vec![Vec::new(); 6];
    answer[5] = vec!["crane".to_string()];
    let dictionary = ["crane", "slate", "trace"].iter().map(|w| w.to_string()).collect();
    let game = Game::new(Some("crane".to_string()), None, Some(max_attempts), Word::new(answer, dictionary));
    let mut a = App::new(game, [Green, Yellow, Gray]);
    a.start_game();
    a
}

fn type_word(a: &mut App, w: &str) {
    for c in w.chars() {
        a.handle_key(Key::Char(c), false);
    }
}

#[test]
fn new_board_is_empty() {
    let a = app(3);
    assert_eq!(a.board().len(), 3);
    assert!(a.board().iter().all(|r| r.len() == 5 && r.iter().all(|c| *c == Cell::Empty)));
    assert_eq!(a.status(), StatusLine::Blank);
    assert_eq!(a.game().get_state(), GameState::InProgress);
}

#[test]
fn typed_letters_show_in_next_row() {
    let mut a = app(3);
    type_word(&mut a, "Cr");
    a.handle_key(Key::Char('4'), false);
    a.sync_input_to_board();
    assert_eq!(a.input_len(), 2);
    assert_eq!(a.board()[0], vec![Cell::Input('c'), Cell::Input('r'), Cell::Empty, Cell::Empty, Cell::Empty]);
    a.handle_key(Key::Backspace, false);
    a.sync_input_to_board();
    assert_eq!(a.board()[0][1], Cell::Empty);
}

#[test]
fn typing_stops_at_word_length() {
    let mut a = app(3);
    type_word(&mut a, "cranes");
    assert_eq!(a.input_len(), 5);
}

#[test]
fn short_word_raises_warning_that_fades() {
    let mut a = app(3);
    type_word(&mut a, "cra");
    a.handle_key(Key::Enter, false);
    assert_eq!(a.status(), StatusLine::Warning("Error: Input length must be 5.".to_string()));
    assert_eq!(a.game().get_attempts(), 0);
    for _ in 0..5 {
        a.tick_warning();
    }
    assert_ne!(a.status(), StatusLine::Blank);
    a.tick_warning();
    assert_eq!(a.status(), StatusLine::Blank);
}

#[test]
fn accepted_guess_fills_row() {
    let mut a = app(3);
    type_word(&mut a, "trace");
    a.handle_key(Key::Enter, false);
    assert_eq!(
        a.board()[0],
        vec![
            Cell::Result('t', Absent),
            Cell::Result('r', Matched),
            Cell::Result('a', Matched),
            Cell::Result('c', Present),
            Cell::Result('e', Matched),
        ]
    );
    assert_eq!(a.input_len(), 0);
    a.handle_key(Key::Up, false);
    assert_eq!(a.input_len(), 5);
}

#[test]
fn winning_shows_congratulations() {
    let mut a = app(3);
    type_word(&mut a, "crane");
    a.handle_key(Key::Enter, false);
    a.note_game_over();
    assert_eq!(a.game().get_state(), GameState::Over(GameResult::Won));
    assert_eq!(a.status(), StatusLine::GameOver("Congratulations!".to_string()));
    type_word(&mut a, "sl");
    assert_eq!(a.input_len(), 0);
}

#[test]
fn losing_reveals_answer() {
    let mut a = app(1);
    type_word(&mut a, "slate");
    a.handle_key(Key::Enter, false);
    a.note_game_over();
    assert_eq!(a.status(), StatusLine::GameOver("Game over! The correct answer was: crane".to_string()));
}

#[test]
fn control_c_quits() {
    let mut a = app(3);
    a.handle_key(Key::Char('c'), true);
    assert!(a.should_quit());
    assert_eq!(a.input_len(), 0);
}

#[test]
fn cell_colours_follow_config() {
    let a = App::new(Game::new(Some("ab".to_string()), None, None, Word::new(Vec::new(), Vec::new())), [Blue, Green, Yellow]);
    assert_eq!(a.cell_colour(Matched), Blue);
    assert_eq!(a.cell_colour(Present), Green);
    assert_eq!(a.cell_colour(Absent), Yellow);
}

#[test]
fn error_messages() {
    assert_eq!(GuessError::WrongLength.message(5), "Input length must be 5.");
    assert_eq!(GuessError::WrongLength.message(12), "Input length must be 12.");
    assert_eq!(GuessError::NotInProgress.message(5), "Game is not in progress.");
    assert_eq!(GuessError::InvalidCharacters.message(5), "Word can only contain A-Z.");
    assert_eq!(GuessError::UnknownWord.message(5), "Word not found.");
}
