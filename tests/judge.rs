use wordle::judge::judge;
use wordle::types::LetterState::{Absent, Matched, Present};
use wordle::types::LetterState;

fn credited(guess: &str, answer: &str, c: char) -> usize {
    let r = judge(guess, answer).unwrap();
    guess
        .chars()
        .zip(r.iter())
        .filter(|(g, s)| *g == c && **s != Absent)
        .count()
}

#[test]
fn judge_keeps_length() {
    for (g, a) in [("erase", "speed"), ("ab", "ba"), ("abcdefghij", "jihgfedcba")] {
        let r = judge(g, a).unwrap();
        assert_eq!(r.len(), g.len());
        assert_eq!(r.len(), a.len());
    }
}

#[test]
fn judge_empty_words() {
    assert_eq!(judge("", ""), Some(Vec::<LetterState>::new()));
}

#[test]
fn judge_duplicate_guess_letters_speed_erase() {
    assert_eq!(judge("erase", "speed"), Some(vec![Present, Absent, Absent, Present, Present]));
}

#[test]
fn judge_letter_absent_from_answer_robot_mommy() {
    assert_eq!(judge("mommy", "robot"), Some(vec![Absent, Matched, Absent, Absent, Absent]));
}

#[test]
fn judge_exact_match_consumes_letter_sorry_roars() {
    assert_eq!(judge("roars", "sorry"), Some(vec![Present, Matched, Absent, Matched, Present]));
}

#[test]
fn judge_scarce_letter_credited_once() {
    assert_eq!(judge("eexxx", "abcde"), Some(vec![Present, Absent, Absent, Absent, Absent]));
    assert_eq!(judge("eeeee", "abcde"), Some(vec![Absent, Absent, Absent, Absent, Matched]));
}

#[test]
fn judge_credits_no_letter_beyond_its_count() {
    let cases = [("erase", "speed"), ("mommy", "robot"), ("roars", "sorry"), ("eeeee", "abcde")];
    for (g, a) in cases {
        for c in g.chars() {
            let occurs = a.chars().filter(|x| *x == c).count();
            assert!(credited(g, a, c) <= occurs);
        }
    }
}

#[test]
fn judge_full_match() {
    assert_eq!(judge("crane", "crane"), Some(vec![Matched; 5]));
    assert_eq!(judge("aaaa", "aaaa"), Some(vec![Matched; 4]));
}

#[test]
fn judge_no_shared_letters() {
    assert_eq!(judge("abcde", "vwxyz"), Some(vec![Absent; 5]));
}

#[test]
fn judge_consumed_letter_is_not_a_placeholder() {
    assert_eq!(judge("a_", "aa"), Some(vec![Matched, Absent]));
}
