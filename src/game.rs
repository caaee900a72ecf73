use vstd::prelude::*;

use crate::config::push_text;
use crate::judge::{judge, judgement};
use crate::types::{GameDifficulty, GameResult, GameState, GuessResult, LetterState};
use crate::word::Word;

verus! {

/// A name for what `str::to_lowercase` makes of a string.
pub uninterp spec fn lower_of(s: Seq<char>) -> Seq<char>;

/// Relies on `str::to_lowercase`: the result depends on the characters alone.
#[verifier::external_body]
fn lowercase(s: &str) -> (r: String)
    ensures
        r@ == lower_of(s@),
{
    s.to_lowercase()
}

/// Why a guess was refused.
#[derive(Debug, PartialEq, Eq, Clone, Copy, Structural)]
pub enum GuessError {
    /// The round is not accepting guesses.
    NotInProgress,
    /// The guess holds a character outside `a`..=`z`.
    InvalidCharacters,
    /// The guess is not as long as the answer.
    WrongLength,
    /// The guess is not in the dictionary.
    UnknownWord,
}

/// The decimal digits of `n`.
pub open spec fn decimal_text(n: nat) -> Seq<char>
    decreases n,
{
    if n < 10 {
        seq![((48 + n) as u8) as char]
    } else {
        decimal_text(n / 10).push(((48 + n % 10) as u8) as char)
    }
}

/// Relies on `usize::to_string`: the decimal digits of `n`.
#[verifier::external_body]
fn decimal(n: usize) -> (r: String)
    ensures
        r@ == decimal_text(n as nat),
{
    n.to_string()
}

/// The message that explains error `e` to a player, for answers of `word_length` letters.
pub open spec fn error_text(e: GuessError, word_length: nat) -> Seq<char> {
    match e {
        GuessError::NotInProgress => "Game is not in progress."@,
        GuessError::InvalidCharacters => "Word can only contain A-Z."@,
        GuessError::WrongLength => "Input length must be "@ + decimal_text(word_length) + "."@,
        GuessError::UnknownWord => "Word not found."@,
    }
}

impl GuessError {
    /// The message that explains this error, for answers of `word_length` letters.
    pub fn message(self, word_length: usize) -> (r: String)
        ensures
            r@ == error_text(self, word_length as nat),
    {
        match self {
            GuessError::NotInProgress => "Game is not in progress.".to_owned(),
            GuessError::InvalidCharacters => "Word can only contain A-Z.".to_owned(),
            GuessError::WrongLength => {
                let mut m = "Input length must be ".to_owned();
                let digits = decimal(word_length);
                push_text(&mut m, digits.as_str());
                push_text(&mut m, ".");
                m
            },
            GuessError::UnknownWord => "Word not found.".to_owned(),
        }
    }
}

/// The abstract state of a round.
pub struct GameView {
    pub state: GameState,
    /// The length of the answer, in characters.
    pub word_length: nat,
    /// The number of guesses the round allows.
    pub max_attempts: nat,
    /// The number of guesses accepted and judged so far.
    pub attempts: nat,
    pub answer: Seq<char>,
    /// The words accepted as guesses.
    pub words: Set<Seq<char>>,
}

/// Whether every character of `s` is a lowercase ASCII letter.
pub open spec fn valid_letters(s: Seq<char>) -> bool {
    forall|i: int| 0 <= i < s.len() ==> 'a' <= #[trigger] s[i] <= 'z'
}

/// Whether every position of a classification is `Matched`.
pub open spec fn all_matched(r: Seq<LetterState>) -> bool {
    forall|i: int| 0 <= i < r.len() ==> #[trigger] r[i] == LetterState::Matched
}

/// The number of attempts a difficulty allows when none is given.
pub open spec fn default_attempts(d: GameDifficulty) -> nat {
    match d {
        GameDifficulty::Easy => 10,
        GameDifficulty::Medium => 6,
        GameDifficulty::Hard => 5,
    }
}

/// Why the (already lowercased) guess `w` is refused in round `g`, checked in order.
pub open spec fn guess_error(g: GameView, w: Seq<char>) -> Option<GuessError> {
    if g.state != GameState::InProgress {
        Some(GuessError::NotInProgress)
    } else if !valid_letters(w) {
        Some(GuessError::InvalidCharacters)
    } else if w.len() != g.word_length {
        Some(GuessError::WrongLength)
    } else if !g.words.contains(w) {
        Some(GuessError::UnknownWord)
    } else {
        None
    }
}

/// Round `g` after the accepted guess `w` has been judged.
pub open spec fn after_guess(g: GameView, w: Seq<char>) -> GameView {
    let attempts = g.attempts + 1;
    GameView {
        state: if all_matched(judgement(w, g.answer)) {
            GameState::Over(GameResult::Won)
        } else if attempts >= g.max_attempts {
            GameState::Over(GameResult::Lost)
        } else {
            GameState::InProgress
        },
        attempts,
        ..g
    }
}

/// How a round goes from `pre` to `post` when the lowercased guess `w` returns `r`:
/// a refused guess changes nothing, an accepted one is judged and counted.
pub open spec fn guess_lowered_outcome(
    pre: GameView,
    w: Seq<char>,
    post: GameView,
    r: Result<GuessResult, GuessError>,
) -> bool {
    match guess_error(pre, w) {
        Some(e) => r == Err::<GuessResult, GuessError>(e) && post == pre,
        None => r matches Ok(v) && v@ == judgement(w, pre.answer) && post == after_guess(pre, w),
    }
}

fn all_lowercase_letters(s: &str) -> (r: bool)
    ensures
        r == valid_letters(s@),
{
    let n = s.unicode_len();
    let mut i: usize = 0;
    while i < n
        invariant
            n == s@.len(),
            i <= n,
            forall|k: int| 0 <= k < i ==> 'a' <= #[trigger] s@[k] <= 'z',
        decreases n - i,
    {
        let c = s.get_char(i);
        if !('a' <= c && c <= 'z') {
            return false;
        }
        i = i + 1;
    }
    true
}

fn every_matched(r: &Vec<LetterState>) -> (b: bool)
    ensures
        b == all_matched(r@),
{
    let mut k: usize = 0;
    while k < r.len()
        invariant
            k <= r@.len(),
            forall|j: int| 0 <= j < k ==> #[trigger] r@[j] == LetterState::Matched,
        decreases r@.len() - k,
    {
        if r[k] != LetterState::Matched {
            return false;
        }
        k = k + 1;
    }
    true
}

/// One round of play.
pub struct Game {
    state: GameState,
    word_length: usize,
    max_attempts: u8,
    guess_count: u8,
    answer: String,
    dictionary: Word,
}

impl View for Game {
    type V = GameView;

    closed spec fn view(&self) -> GameView {
        GameView {
            state: self.state,
            word_length: self.word_length as nat,
            max_attempts: self.max_attempts as nat,
            attempts: self.guess_count as nat,
            answer: self.answer@,
            words: Set::new(|w: Seq<char>| self.dictionary.knows(w)),
        }
    }
}

impl Game {
    /// Whether the round's fields agree: the word length is the answer's, and the
    /// attempt count stays within the limit (one attempt may be judged when the limit
    /// is zero), below it while guesses are accepted, and zero before the start.
    pub closed spec fn well_formed(&self) -> bool {
        &&& self.word_length == self.answer@.len()
        &&& self.guess_count <= self.max_attempts || self.guess_count == 1
        &&& self.state == GameState::InProgress ==> self.guess_count < self.max_attempts
            || self.guess_count == 0
        &&& self.state == GameState::Initial ==> self.guess_count == 0
    }

    /// A new round, not yet started. The answer is `answer` where one is given, else
    /// drawn from `dictionary`; the attempt limit is `max_attempts` where one is
    /// given, else the default of `difficulty` (medium where none is given).
    pub fn new(
        answer: Option<String>,
        difficulty: Option<GameDifficulty>,
        max_attempts: Option<u8>,
        dictionary: Word,
    ) -> (r: Game)
        requires
            answer is None ==> dictionary.covers_random_lengths(),
        ensures
            r@.state == GameState::Initial,
            r@.attempts == 0,
            r@.word_length == r@.answer.len(),
            r@.max_attempts == match max_attempts {
                Some(m) => m as nat,
                None => default_attempts(
                    match difficulty {
                        Some(d) => d,
                        None => GameDifficulty::Medium,
                    },
                ),
            },
            answer matches Some(a) ==> r@.answer == a@,
            answer is None ==> exists|n: int| #[trigger] dictionary.lists(n, r@.answer),
            forall|w: Seq<char>| #[trigger] r@.words.contains(w) == dictionary.knows(w),
            r.well_formed(),
    {
        let difficulty = match difficulty {
            Some(d) => d,
            None => GameDifficulty::Medium,
        };
        let answer = match answer {
            Some(a) => a,
            None => match dictionary.generate_answer(None) {
                Ok(a) => a,
                Err(_) => {
                    proof {
                        assert(false);
                    }
                    String::new()
                },
            },
        };
        let max_attempts = match max_attempts {
            Some(m) => m,
            None => match difficulty {
                GameDifficulty::Easy => 10,
                GameDifficulty::Medium => 6,
                GameDifficulty::Hard => 5,
            },
        };
        let word_length = answer.as_str().unicode_len();
        Game {
            state: GameState::Initial,
            word_length,
            max_attempts,
            guess_count: 0,
            answer,
            dictionary,
        }
    }

    /// Submits a guess that has already been lowercased: refused with the first
    /// failing check (round in progress, letters `a`..=`z`, length, dictionary),
    /// else counted and judged against the answer.
    pub fn guess_lowered(&mut self, input: &str) -> (r: Result<GuessResult, GuessError>)
        requires
            old(self).well_formed(),
        ensures
            final(self).well_formed(),
            guess_lowered_outcome(old(self)@, input@, final(self)@, r),
    {
        if self.state != GameState::InProgress {
            return Err(GuessError::NotInProgress);
        }
        if !all_lowercase_letters(input) {
            return Err(GuessError::InvalidCharacters);
        }
        let n = input.unicode_len();
        if n != self.word_length {
            return Err(GuessError::WrongLength);
        }
        if !self.dictionary.is_valid_word(input) {
            return Err(GuessError::UnknownWord);
        }
        let result = match judge(input, self.answer.as_str()) {
            Some(v) => v,
            None => Vec::new(),
        };
        let count = self.guess_count + 1;
        if every_matched(&result) {
            self.state = GameState::Over(GameResult::Won);
        } else if count >= self.max_attempts {
            self.state = GameState::Over(GameResult::Lost);
        }
        self.guess_count = count;
        Ok(result)
    }

    /// Submits a guess: it is lowercased, then handled as by `guess_lowered`.
    pub fn guess(&mut self, input: &str) -> (r: Result<GuessResult, GuessError>)
        requires
            old(self).well_formed(),
        ensures
            final(self).well_formed(),
            guess_lowered_outcome(old(self)@, lower_of(input@), final(self)@, r),
    {
        let lowered = lowercase(input);
        self.guess_lowered(lowered.as_str())
    }

    /// Where the round stands.
    pub fn get_state(&self) -> (r: GameState)
        ensures
            r == self@.state,
    {
        self.state
    }

    /// The answer, which is only revealed once the round is over.
    pub fn get_answer(&self) -> (r: &str)
        requires
            self@.state is Over,
        ensures
            r@ == self@.answer,
    {
        self.answer.as_str()
    }

    /// Opens a constructed round for guesses.
    pub fn start(&mut self)
        requires
            old(self).well_formed(),
            old(self)@.state == GameState::Initial,
        ensures
            final(self).well_formed(),
            final(self)@ == (GameView { state: GameState::InProgress, ..old(self)@ }),
    {
        self.state = GameState::InProgress;
    }

    /// The number of guesses accepted so far.
    pub fn get_attempts(&self) -> (r: u8)
        ensures
            r == self@.attempts,
    {
        self.guess_count
    }

    /// The number of guesses the round allows.
    pub fn get_max_attempts(&self) -> (r: u8)
        ensures
            r == self@.max_attempts,
    {
        self.max_attempts
    }

    /// The length of the answer, in characters.
    pub fn get_word_length(&self) -> (r: usize)
        ensures
            r == self@.word_length,
    {
        self.word_length
    }

    /// Forfeits the round: it is over and lost, whatever state it was in.
    pub fn give_up(&mut self)
        requires
            old(self).well_formed(),
        ensures
            final(self).well_formed(),
            final(self)@ == (GameView { state: GameState::Over(GameResult::Lost), ..old(self)@ }),
    {
        self.state = GameState::Over(GameResult::Lost);
    }
}

/// A guess is judged all `Matched` exactly when it equals the answer.
pub proof fn lemma_all_matched_iff_equal(w: Seq<char>, a: Seq<char>)
    requires
        w.len() == a.len(),
    ensures
        all_matched(judgement(w, a)) <==> w == a,
{
    if all_matched(judgement(w, a)) {
        assert forall|i: int| 0 <= i < w.len() implies w[i] == a[i] by {
            assert(judgement(w, a)[i] == LetterState::Matched);
        }
        assert(w =~= a);
    }
}

/// A round in progress, with attempts left and none used, that is guessed right at
/// once is won after one attempt.
pub proof fn lemma_first_guess_right_wins(g: GameView)
    requires
        g.state == GameState::InProgress,
        g.word_length == g.answer.len(),
        g.attempts == 0,
        g.max_attempts >= 1,
        valid_letters(g.answer),
        g.words.contains(g.answer),
    ensures
        guess_error(g, g.answer) is None,
        after_guess(g, g.answer).state == GameState::Over(GameResult::Won),
        after_guess(g, g.answer).attempts == 1,
{
    lemma_all_matched_iff_equal(g.answer, g.answer);
}

/// A round in progress that allows one attempt, guessed wrong with an accepted word,
/// is lost after one attempt.
pub proof fn lemma_single_wrong_guess_loses(g: GameView, w: Seq<char>)
    requires
        g.state == GameState::InProgress,
        g.word_length == g.answer.len(),
        g.attempts == 0,
        g.max_attempts == 1,
        guess_error(g, w) is None,
        w != g.answer,
    ensures
        after_guess(g, w).state == GameState::Over(GameResult::Lost),
        after_guess(g, w).attempts == 1,
{
    lemma_all_matched_iff_equal(w, g.answer);
}

/// A round that has not been started refuses every guess as not in progress.
pub proof fn lemma_unstarted_refuses(g: GameView, w: Seq<char>)
    requires
        g.state == GameState::Initial,
    ensures
        guess_error(g, w) == Some(GuessError::NotInProgress),
{
}

/// A finished round refuses every guess, so nothing leaves the `Over` state by guessing.
pub proof fn lemma_over_is_final(g: GameView, w: Seq<char>)
    requires
        g.state is Over,
    ensures
        guess_error(g, w) == Some(GuessError::NotInProgress),
{
}

/// In a round in progress, a guess of letters only that is too short is refused for
/// its length, whether or not the dictionary knows it.
pub proof fn lemma_short_guess_wrong_length(g: GameView, w: Seq<char>)
    requires
        g.state == GameState::InProgress,
        valid_letters(w),
        w.len() < g.word_length,
    ensures
        guess_error(g, w) == Some(GuessError::WrongLength),
{
}

/// A refused guess leaves the round as it was: in particular no attempt is counted.
pub proof fn lemma_refusal_counts_nothing(
    pre: GameView,
    w: Seq<char>,
    post: GameView,
    r: Result<GuessResult, GuessError>,
)
    requires
        guess_lowered_outcome(pre, w, post, r),
        r is Err,
    ensures
        post.attempts == pre.attempts,
        post.state == pre.state,
{
}

} // verus!
