use vstd::prelude::*;

use crate::config::{ascii_lower_char, push_text, ColourConfig, ConsoleBackgroundColour};
use crate::game::{
    after_guess, error_text, guess_error, valid_letters, Game, GameView, GuessError,
};
use crate::judge::judgement;
use crate::types::{GameResult, GameState, LetterState};

verus! {

/// Relies on `Iterator::collect` of characters into a `String`: the same characters.
#[verifier::external_body]
fn string_of(chars: &Vec<char>) -> (r: String)
    ensures
        r@ == chars@,
{
    chars.iter().collect()
}

/// What one square of the board shows.
#[derive(Debug, Clone, Copy, PartialEq, Eq, Structural)]
pub enum Cell {
    Empty,
    /// A letter being typed.
    Input(char),
    /// A letter of a judged guess, with its classification.
    Result(char, LetterState),
}

/// A key press, as far as the board reacts to it.
#[derive(Debug, Clone, Copy, PartialEq, Eq, Structural)]
pub enum Key {
    Char(char),
    Backspace,
    Enter,
    Up,
    Other,
}

/// What the status line shows.
#[derive(Debug, PartialEq, Eq)]
pub enum StatusLine {
    /// The round is over; the message says how it ended.
    GameOver(String),
    /// A guess was refused; the message says why.
    Warning(String),
    Blank,
}

/// How many ticks a warning stays on screen.
pub const WARNING_TICKS: u8 = 6;

/// The abstract state of the terminal front end.
pub struct AppView {
    pub game: GameView,
    pub colours: Seq<ConsoleBackgroundColour>,
    pub board: Seq<Seq<Cell>>,
    pub input: Seq<char>,
    pub last_guess: Seq<char>,
    pub show_warning: bool,
    pub warning: Option<Seq<char>>,
    pub warning_ticks: nat,
    pub game_over: Option<Seq<char>>,
    pub should_quit: bool,
}

/// The cell in column `c` of a row showing `input`.
pub open spec fn input_cell(input: Seq<char>, c: int) -> Cell {
    if c < input.len() {
        Cell::Input(input[c])
    } else {
        Cell::Empty
    }
}

/// A board row showing `input`, padded with empty cells to `n` cells.
pub open spec fn input_row(input: Seq<char>, n: nat) -> Seq<Cell> {
    Seq::new(n, |c: int| input_cell(input, c))
}

/// The cell in column `c` of a row showing a judged guess.
pub open spec fn result_cell(guess: Seq<char>, r: Seq<LetterState>, c: int) -> Cell {
    Cell::Result(guess[c], r[c])
}

/// A board row showing a judged guess.
pub open spec fn result_row(guess: Seq<char>, r: Seq<LetterState>) -> Seq<Cell> {
    Seq::new(r.len(), |c: int| result_cell(guess, r, c))
}

/// The front end after its typed word is submitted: a refused guess raises a warning;
/// an accepted one is shown in the row of its attempt and the typing starts over.
pub open spec fn submit_step(v: AppView) -> AppView {
    match guess_error(v.game, v.input) {
        Some(e) => AppView {
            warning: Some("Error: "@ + error_text(e, v.game.word_length)),
            show_warning: true,
            warning_ticks: WARNING_TICKS as nat,
            ..v
        },
        None => {
            let row = v.game.attempts as int;
            AppView {
                game: after_guess(v.game, v.input),
                board: if row < v.board.len() {
                    v.board.update(row, result_row(v.input, judgement(v.input, v.game.answer)))
                } else {
                    v.board
                },
                last_guess: v.input,
                input: Seq::empty(),
                ..v
            }
        },
    }
}

/// Whether `c` is an ASCII letter.
pub open spec fn is_ascii_letter(c: char) -> bool {
    'a' <= c <= 'z' || 'A' <= c <= 'Z'
}

/// The front end after a key press (`ctrl` tells whether Control was held): Control-C
/// quits; Up recalls the last accepted guess; once the round is over nothing else
/// happens; otherwise a letter is typed (while the row has room), Backspace erases
/// and Enter submits.
pub open spec fn key_step(v: AppView, key: Key, ctrl: bool) -> AppView {
    if ctrl && key == Key::Char('c') {
        AppView { should_quit: true, ..v }
    } else {
        let v1 = if key == Key::Up && v.last_guess.len() > 0 {
            AppView { input: v.last_guess, ..v }
        } else {
            v
        };
        if v1.game_over is Some {
            v1
        } else {
            match key {
                Key::Char(c) => if is_ascii_letter(c) && v1.input.len() < v1.game.word_length {
                    AppView { input: v1.input.push(ascii_lower_char(c)), ..v1 }
                } else {
                    v1
                },
                Key::Backspace => if v1.input.len() > 0 {
                    AppView { input: v1.input.drop_last(), ..v1 }
                } else {
                    v1
                },
                Key::Enter => submit_step(v1),
                _ => v1,
            }
        }
    }
}

/// The message shown once the round has ended with `r`, for answer `answer`.
pub open spec fn game_over_text(r: GameResult, answer: Seq<char>) -> Seq<char> {
    match r {
        GameResult::Won => "Congratulations!"@,
        GameResult::Lost => "Game over! The correct answer was: "@ + answer,
    }
}

fn input_cells(input: &Vec<char>, n: usize) -> (r: Vec<Cell>)
    ensures
        r@ == input_row(input@, n as nat),
{
    let mut cells: Vec<Cell> = Vec::new();
    let mut c: usize = 0;
    while c < n
        invariant
            c <= n,
            cells@ == input_row(input@, n as nat).subrange(0, c as int),
        decreases n - c,
    {
        let ghost before = cells@;
        if c < input.len() {
            cells.push(Cell::Input(input[c]));
        } else {
            cells.push(Cell::Empty);
        }
        assert(cells@ == before.push(input_cell(input@, c as int)));
        assert(input_row(input@, n as nat)[c as int] == input_cell(input@, c as int));
        assert(cells@ =~= input_row(input@, n as nat).subrange(0, c + 1));
        c = c + 1;
    }
    assert(cells@ =~= input_row(input@, n as nat));
    cells
}

fn result_cells(guess: &Vec<char>, r: &Vec<LetterState>) -> (cells: Vec<Cell>)
    requires
        r@.len() <= guess@.len(),
    ensures
        cells@ == result_row(guess@, r@),
{
    let mut cells: Vec<Cell> = Vec::new();
    let mut c: usize = 0;
    while c < r.len()
        invariant
            c <= r@.len(),
            r@.len() <= guess@.len(),
            cells@ == result_row(guess@, r@).subrange(0, c as int),
        decreases r@.len() - c,
    {
        let ghost before = cells@;
        cells.push(Cell::Result(guess[c], r[c]));
        assert(cells@ == before.push(result_cell(guess@, r@, c as int)));
        assert(result_row(guess@, r@)[c as int] == result_cell(guess@, r@, c as int));
        assert(cells@ =~= result_row(guess@, r@).subrange(0, c + 1));
        c = c + 1;
    }
    assert(cells@ =~= result_row(guess@, r@));
    cells
}

fn copy_chars(v: &Vec<char>) -> (r: Vec<char>)
    ensures
        r@ == v@,
{
    let mut r: Vec<char> = Vec::new();
    let mut i: usize = 0;
    while i < v.len()
        invariant
            i <= v@.len(),
            r@ == v@.subrange(0, i as int),
        decreases v@.len() - i,
    {
        r.push(v[i]);
        assert(r@ =~= v@.subrange(0, i + 1));
        i = i + 1;
    }
    assert(r@ =~= v@);
    r
}

/// The terminal front end: a round, the colours of its letters, and what the board shows.
pub struct App {
    game: Game,
    colour_config: ColourConfig,
    board: Vec<Vec<Cell>>,
    input: Vec<char>,
    last_guess: Vec<char>,
    show_warning: bool,
    warning_message: Option<String>,
    warning_ticks: u8,
    game_over_message: Option<String>,
    should_quit: bool,
}

impl View for App {
    type V = AppView;

    closed spec fn view(&self) -> AppView {
        AppView {
            game: self.game@,
            colours: self.colour_config@,
            board: Seq::new(self.board@.len(), |r: int| self.board@[r]@),
            input: self.input@,
            last_guess: self.last_guess@,
            show_warning: self.show_warning,
            warning: match self.warning_message {
                Some(m) => Some(m@),
                None => None,
            },
            warning_ticks: self.warning_ticks as nat,
            game_over: match self.game_over_message {
                Some(m) => Some(m@),
                None => None,
            },
            should_quit: self.should_quit,
        }
    }
}

impl App {
    /// Whether the front end's fields agree: one board row per attempt, each as long
    /// as the answer, and typed words made of lowercase letters only.
    pub closed spec fn well_formed(&self) -> bool {
        &&& self.game.well_formed()
        &&& self.board@.len() == self@.game.max_attempts
        &&& forall|r: int|
            0 <= r < self.board@.len() ==> (#[trigger] self.board@[r])@.len()
                == self@.game.word_length
        &&& valid_letters(self.input@)
        &&& valid_letters(self.last_guess@)
    }

    /// A front end for `game`, with an empty board of one row per attempt.
    pub fn new(game: Game, colour_config: ColourConfig) -> (r: App)
        requires
            game.well_formed(),
        ensures
            r@.game == game@,
            r@.colours == colour_config@,
            r@.board == Seq::new(
                game@.max_attempts,
                |i: int| Seq::new(game@.word_length, |c: int| Cell::Empty),
            ),
            r@.input.len() == 0,
            r@.last_guess.len() == 0,
            !r@.show_warning,
            r@.warning is None,
            r@.warning_ticks == 0,
            r@.game_over is None,
            !r@.should_quit,
            r.well_formed(),
    {
        let n = game.get_word_length();
        let k = game.get_max_attempts();
        let mut board: Vec<Vec<Cell>> = Vec::new();
        let mut i: u8 = 0;
        while i < k
            invariant
                i <= k,
                board@.len() == i,
                forall|r: int|
                    0 <= r < i ==> (#[trigger] board@[r])@ == Seq::new(n as nat, |c: int| Cell::Empty),
            decreases k - i,
        {
            let mut row: Vec<Cell> = Vec::new();
            let mut c: usize = 0;
            while c < n
                invariant
                    c <= n,
                    row@ == Seq::new(c as nat, |j: int| Cell::Empty),
                decreases n - c,
            {
                row.push(Cell::Empty);
                assert(row@ =~= Seq::new((c + 1) as nat, |j: int| Cell::Empty));
                c = c + 1;
            }
            board.push(row);
            i = i + 1;
        }
        let app = App {
            game,
            colour_config,
            board,
            input: Vec::new(),
            last_guess: Vec::new(),
            show_warning: false,
            warning_message: None,
            warning_ticks: 0,
            game_over_message: None,
            should_quit: false,
        };
        assert(app@.board =~= Seq::new(
            game@.max_attempts,
            |i: int| Seq::new(game@.word_length, |c: int| Cell::Empty),
        ));
        app
    }

    /// The round being played.
    pub fn game(&self) -> (r: &Game)
        ensures
            r@ == self@.game,
    {
        &self.game
    }

    /// The board, one row per attempt.
    pub fn board(&self) -> (r: &Vec<Vec<Cell>>)
        ensures
            r@.len() == self@.board.len(),
            forall|i: int| 0 <= i < r@.len() ==> (#[trigger] r@[i])@ == self@.board[i],
    {
        &self.board
    }

    /// How many letters have been typed.
    pub fn input_len(&self) -> (r: usize)
        ensures
            r == self@.input.len(),
    {
        self.input.len()
    }

    /// Whether the player asked to quit.
    pub fn should_quit(&self) -> (r: bool)
        ensures
            r == self@.should_quit,
    {
        self.should_quit
    }

    /// The background colour of letters classified as `s`.
    pub fn cell_colour(&self, s: LetterState) -> (r: ConsoleBackgroundColour)
        ensures
            r == self@.colours[match s {
                LetterState::Matched => 0int,
                LetterState::Present => 1int,
                LetterState::Absent => 2int,
            }],
    {
        match s {
            LetterState::Matched => self.colour_config[0],
            LetterState::Present => self.colour_config[1],
            LetterState::Absent => self.colour_config[2],
        }
    }

    /// What the status line shows: the end of the round, else a live warning, else nothing.
    pub fn status(&self) -> (r: StatusLine)
        ensures
            self@.game_over matches Some(m) ==> (r matches StatusLine::GameOver(t) && t@ == m),
            self@.game_over is None && self@.show_warning && self@.warning is Some ==> (r matches StatusLine::Warning(t) && t@ == self@.warning->0),
            self@.game_over is None && !(self@.show_warning && self@.warning is Some) ==> r
                == StatusLine::Blank,
    {
        match &self.game_over_message {
            Some(m) => StatusLine::GameOver(m.clone()),
            None => if self.show_warning {
                match &self.warning_message {
                    Some(w) => StatusLine::Warning(w.clone()),
                    None => StatusLine::Blank,
                }
            } else {
                StatusLine::Blank
            },
        }
    }

    /// Starts the round.
    pub fn start_game(&mut self)
        requires
            old(self).well_formed(),
            old(self)@.game.state == GameState::Initial,
        ensures
            final(self).well_formed(),
            final(self)@ == (AppView {
                game: GameView { state: GameState::InProgress, ..old(self)@.game },
                ..old(self)@
            }),
    {
        self.game.start();
    }

    /// Records the message that ends the round, once the round is over.
    pub fn note_game_over(&mut self)
        requires
            old(self).well_formed(),
        ensures
            final(self).well_formed(),
            final(self)@ == if old(self)@.game_over is None && old(self)@.game.state is Over {
                AppView {
                    game_over: Some(
                        game_over_text(old(self)@.game.state->Over_0, old(self)@.game.answer),
                    ),
                    ..old(self)@
                }
            } else {
                old(self)@
            },
    {
        if self.game_over_message.is_none() {
            match self.game.get_state() {
                GameState::Over(GameResult::Won) => {
                    self.game_over_message = Some("Congratulations!".to_owned());
                },
                GameState::Over(GameResult::Lost) => {
                    let mut m = "Game over! The correct answer was: ".to_owned();
                    push_text(&mut m, self.game.get_answer());
                    self.game_over_message = Some(m);
                },
                _ => {},
            }
        }
    }

    /// Shows the current warning for a while.
    pub fn flash_warning(&mut self)
        requires
            old(self).well_formed(),
        ensures
            final(self).well_formed(),
            final(self)@ == (AppView {
                show_warning: true,
                warning_ticks: WARNING_TICKS as nat,
                ..old(self)@
            }),
    {
        self.show_warning = true;
        self.warning_ticks = WARNING_TICKS;
    }

    /// One tick of the clock: a shown warning counts down and hides at zero.
    pub fn tick_warning(&mut self)
        requires
            old(self).well_formed(),
        ensures
            final(self).well_formed(),
            final(self)@ == if old(self)@.warning_ticks > 0 {
                AppView {
                    warning_ticks: (old(self)@.warning_ticks - 1) as nat,
                    show_warning: old(self)@.show_warning && old(self)@.warning_ticks > 1,
                    ..old(self)@
                }
            } else {
                old(self)@
            },
    {
        if self.warning_ticks > 0 {
            self.warning_ticks = self.warning_ticks - 1;
            if self.warning_ticks == 0 {
                self.show_warning = false;
            }
        }
    }

    /// Shows the typed letters in the row of the next attempt, if the board has one.
    pub fn sync_input_to_board(&mut self)
        requires
            old(self).well_formed(),
        ensures
            final(self).well_formed(),
            final(self)@ == if old(self)@.game.attempts < old(self)@.board.len() {
                AppView {
                    board: old(self)@.board.update(
                        old(self)@.game.attempts as int,
                        input_row(old(self)@.input, old(self)@.game.word_length),
                    ),
                    ..old(self)@
                }
            } else {
                old(self)@
            },
    {
        let row = self.game.get_attempts() as usize;
        let n = self.game.get_word_length();
        if row >= self.board.len() {
            return;
        }
        let cells = input_cells(&self.input, n);
        let ghost pre = self@;
        self.board.set(row, cells);
        assert(self@.board =~= pre.board.update(row as int, input_row(pre.input, n as nat)));
        assert(forall|r: int|
            0 <= r < self.board@.len() ==> (#[trigger] self.board@[r])@.len() == n);
    }

    /// Submits the typed word as a guess: a refused guess raises a warning; an
    /// accepted one is shown in the row of its attempt and the typing starts over.
    pub fn submit(&mut self)
        requires
            old(self).well_formed(),
        ensures
            final(self).well_formed(),
            final(self)@ == submit_step(old(self)@),
    {
        let ghost pre = self@;
        let row = self.game.get_attempts() as usize;
        let word = string_of(&self.input);
        match self.game.guess_lowered(word.as_str()) {
            Ok(result) => {
                assert(guess_error(pre.game, pre.input) is None);
                if row < self.board.len() {
                    let cells = result_cells(&self.input, &result);
                    self.board.set(row, cells);
                    assert(self@.board =~= pre.board.update(
                        row as int,
                        result_row(pre.input, judgement(pre.input, pre.game.answer)),
                    ));
                } else {
                    assert(self@.board =~= pre.board);
                }
                std::mem::swap(&mut self.last_guess, &mut self.input);
                self.input.clear();
                assert(self@.input =~= Seq::<char>::empty());
                assert(forall|r: int|
                    0 <= r < self.board@.len() ==> (#[trigger] self.board@[r])@.len()
                        == self@.game.word_length);
            },
            Err(e) => {
                let mut m = "Error: ".to_owned();
                let msg = e.message(self.game.get_word_length());
                push_text(&mut m, msg.as_str());
                self.warning_message = Some(m);
                self.flash_warning();
                assert(self@.board =~= pre.board);
            },
        }
    }

    /// Reacts to a key press (`ctrl` tells whether Control was held): Control-C quits;
    /// Up recalls the last accepted guess; once the round is over nothing else
    /// happens; otherwise a letter is typed (while the row has room), Backspace erases
    /// and Enter submits.
    pub fn handle_key(&mut self, key: Key, ctrl: bool)
        requires
            old(self).well_formed(),
        ensures
            final(self).well_formed(),
            final(self)@ == key_step(old(self)@, key, ctrl),
    {
        let ghost pre = self@;
        if ctrl && key == Key::Char('c') {
            self.should_quit = true;
            return;
        }
        if key == Key::Up && self.last_guess.len() > 0 {
            self.input = copy_chars(&self.last_guess);
        }
        if self.game_over_message.is_some() {
            return;
        }
        let n = self.game.get_word_length();
        match key {
            Key::Char(c) => {
                if (('a' <= c && c <= 'z') || ('A' <= c && c <= 'Z')) && self.input.len() < n {
                    let l = if 'A' <= c && c <= 'Z' {
                        ((c as u8) + 32) as char
                    } else {
                        c
                    };
                    self.input.push(l);
                }
            },
            Key::Backspace => {
                if self.input.len() > 0 {
                    self.input.pop();
                }
            },
            Key::Enter => {
                self.submit();
            },
            _ => {},
        }
    }
}

} // verus!
