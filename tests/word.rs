use wordle::word::{all_words, answer_lists, answer_lists_from_json, dictionary_from_json, Word};

fn s(w: &str) -> String {
    w.to_string()
}

#[test]
fn answer_lists_by_key() {
    let entries = vec![(s("3"), Some(vec![s("abc")])), (s("+1"), Some(vec![s("a"), s("b")])), (s("2"), None)];
    let l = answer_lists(entries).unwrap();
    assert_eq!(l, vec![vec![], vec![s("a"), s("b")], vec![], vec![s("abc")]]);
}

#[test]
fn answer_lists_refuse_bad_key() {
    assert_eq!(answer_lists(vec![(s("x"), Some(vec![s("abc")]))]), None);
    assert_eq!(answer_lists(vec![(s("-1"), None)]), None);
    assert_eq!(answer_lists(vec![(s(""), None)]), None);
}

#[test]
fn answer_lists_of_nothing() {
    assert_eq!(answer_lists(Vec::new()), Some(vec![Vec::<String>::new()]));
}

#[test]
fn answer_lists_from_json_text() {
    let l = answer_lists_from_json("{\"5\": [\"crane\", 3, \"slate\"], \"2\": [\"ab\"]}").unwrap();
    assert_eq!(l.len(), 6);
    assert_eq!(l[5], vec![s("crane"), s("slate")]);
    assert_eq!(l[2], vec![s("ab")]);
    assert!(l[0].is_empty() && l[1].is_empty() && l[3].is_empty() && l[4].is_empty());
    assert_eq!(answer_lists_from_json("[1, 2]"), Some(Vec::new()));
    assert_eq!(answer_lists_from_json("{\"five\": []}"), None);
    assert_eq!(answer_lists_from_json("{"), None);
}

#[test]
fn dictionary_from_json_text() {
    let mut d = dictionary_from_json("{\"5\": [\"crane\", \"slate\"], \"2\": [\"ab\", 1], \"x\": 4}").unwrap();
    d.sort();
    assert_eq!(d, vec![s("ab"), s("crane"), s("slate")]);
    assert_eq!(dictionary_from_json("\"word\""), Some(Vec::new()));
    assert_eq!(dictionary_from_json("nope"), None);
}

#[test]
fn all_words_in_order() {
    let entries = vec![(s("1"), Some(vec![s("a")])), (s("2"), None), (s("3"), Some(vec![s("b"), s("c")]))];
    assert_eq!(all_words(&entries), vec![s("a"), s("b"), s("c")]);
}

#[test]
fn vocabulary_from_json_lookup() {
    let text = "{\"5\": [\"crane\"], \"4\": [\"tree\"]}";
    let w = Word::new(answer_lists_from_json(text).unwrap(), dictionary_from_json(text).unwrap());
    assert!(w.is_valid_word("tree"));
    assert!(!w.is_valid_word("trees"));
    assert_eq!(w.generate_answer(Some(4)), Ok(s("tree")));
}
