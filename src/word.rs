use vstd::prelude::*;

verus! {

/// Relies on `rand::rng()` and `Rng::random_range`: a value drawn from `0..n`, which
/// panics on an empty range.
#[verifier::external_body]
fn random_below(n: usize) -> (r: usize)
    requires
        n > 0,
    ensures
        r < n,
{
    rand::Rng::random_range(&mut rand::rng(), 0..n)
}

/// `serde_json::Value`, carried through as an opaque value.
#[verifier::external_type_specification]
#[verifier::external_body]
pub struct ExJsonValue(serde_json::Value);

/// Relies on `serde_json::from_str` into a `serde_json::Value`; `None` where the text
/// is not JSON.
#[verifier::external_body]
fn parse_json(text: &str) -> Option<serde_json::Value> {
    serde_json::from_str::<serde_json::Value>(text).ok()
}

/// Relies on `serde_json::Value::as_object` and `Map::keys`: the keys of an object.
#[verifier::external_body]
fn json_keys(v: &serde_json::Value) -> Option<Vec<String>> {
    match v.as_object() {
        Some(m) => Some(m.keys().cloned().collect()),
        None => None,
    }
}

/// Relies on `serde_json::Value::get` with a string key: the entry of an object, if any.
#[verifier::external_body]
fn json_field<'a>(v: &'a serde_json::Value, key: &str) -> Option<&'a serde_json::Value> {
    v.get(key)
}

/// Relies on `serde_json::Value::as_array`: the items of an array.
#[verifier::external_body]
fn json_items(v: &serde_json::Value) -> Option<&Vec<serde_json::Value>> {
    v.as_array()
}

/// Relies on `serde_json::Value::as_str`: the text of a string value.
#[verifier::external_body]
fn json_text(v: &serde_json::Value) -> Option<&str> {
    v.as_str()
}

/// Whether `c` is an ASCII decimal digit.
pub open spec fn is_digit(c: char) -> bool {
    '0' <= c <= '9'
}

/// The value of a string of decimal digits.
pub open spec fn digits_value(d: Seq<char>) -> nat
    decreases d.len(),
{
    if d.len() == 0 {
        0
    } else {
        digits_value(d.drop_last()) * 10 + (d.last() as nat - '0' as nat) as nat
    }
}

/// The list index that a key names: an optional `+` then one or more decimal digits,
/// whose value fits in `usize`.
pub open spec fn key_index(s: Seq<char>) -> Option<usize> {
    let d = if s.len() > 0 && s[0] == '+' {
        s.drop_first()
    } else {
        s
    };
    if d.len() > 0 && (forall|i: int| 0 <= i < d.len() ==> is_digit(#[trigger] d[i]))
        && digits_value(d) <= usize::MAX {
        Some(digits_value(d) as usize)
    } else {
        None
    }
}

/// Relies on `str::parse::<usize>`: an optional `+` sign followed by decimal digits, with
/// no other character, whose value fits in `usize`.
#[verifier::external_body]
fn parse_usize(s: &str) -> (r: Option<usize>)
    ensures
        r == key_index(s@),
{
    s.parse::<usize>().ok()
}

/// The named word lists of a vocabulary file: each key with the strings of its array
/// (`None` where the entry is no array).
pub type WordEntries = Vec<(String, Option<Vec<String>>)>;

/// The largest index named by a key among the first `n` entries (0 where none names one).
pub open spec fn max_index(e: Seq<(String, Option<Vec<String>>)>, n: int) -> nat
    decreases n,
{
    if n <= 0 {
        0
    } else {
        let m = max_index(e, n - 1);
        match key_index(e[n - 1].0@) {
            Some(k) => if k > m {
                k as nat
            } else {
                m
            },
            None => m,
        }
    }
}

/// Whether every key names an index.
pub open spec fn all_keys_index(e: Seq<(String, Option<Vec<String>>)>) -> bool {
    forall|j: int| 0 <= j < e.len() ==> (#[trigger] key_index(e[j].0@)) is Some
}

/// The list placed at index `k` by the first `n` entries: that of the last entry whose
/// key names `k` and whose value is an array, else empty.
pub open spec fn list_at(e: Seq<(String, Option<Vec<String>>)>, k: nat, n: int) -> Seq<String>
    decreases n,
{
    if n <= 0 {
        Seq::empty()
    } else if key_index(e[n - 1].0@) == Some(k as usize) && e[n - 1].1 is Some {
        e[n - 1].1->0@
    } else {
        list_at(e, k, n - 1)
    }
}

/// All words of the first `n` entries, list after list.
pub open spec fn words_of(e: Seq<(String, Option<Vec<String>>)>, n: int) -> Seq<String>
    decreases n,
{
    if n <= 0 {
        Seq::empty()
    } else {
        words_of(e, n - 1) + match e[n - 1].1 {
            Some(l) => l@,
            None => Seq::empty(),
        }
    }
}

/// The candidate answers grouped by length: `r[k]` is the list whose key names `k`;
/// `None` where a key names no index.
pub fn answer_lists(entries: WordEntries) -> (r: Option<Vec<Vec<String>>>)
    ensures
        r is Some <==> all_keys_index(entries@) && max_index(entries@, entries@.len() as int)
            < usize::MAX,
        r matches Some(l) ==> {
            &&& l@.len() == max_index(entries@, entries@.len() as int) + 1
            &&& forall|k: int|
                0 <= k < l@.len() ==> #[trigger] l@[k]@ == list_at(
                    entries@,
                    k as nat,
                    entries@.len() as int,
                )
        },
{
    let ghost e = entries@;
    let n = entries.len();
    let mut max: usize = 0;
    let mut j: usize = 0;
    while j < n
        invariant
            n == e.len(),
            e == entries@,
            j <= n,
            max == max_index(e, j as int),
            forall|i: int| 0 <= i < j ==> (#[trigger] key_index(e[i].0@)) is Some,
        decreases n - j,
    {
        match parse_usize(entries[j].0.as_str()) {
            Some(k) => {
                if k > max {
                    max = k;
                }
            },
            None => {
                return None;
            },
        }
        j = j + 1;
    }
    if max == usize::MAX {
        return None;
    }
    let mut lists: Vec<Vec<String>> = Vec::new();
    while lists.len() <= max
        invariant
            lists@.len() <= max + 1,
            forall|k: int| 0 <= k < lists@.len() ==> (#[trigger] lists@[k])@ == Seq::<String>::empty(),
        decreases max + 1 - lists@.len(),
    {
        lists.push(Vec::new());
    }
    let mut rest = entries;
    let mut j: usize = 0;
    while j < n
        invariant
            n == e.len(),
            j <= n,
            rest@ == e.subrange(j as int, n as int),
            lists@.len() == max + 1,
            max == max_index(e, n as int),
            all_keys_index(e),
            forall|k: int|
                0 <= k < lists@.len() ==> #[trigger] lists@[k]@ == list_at(e, k as nat, j as int),
        decreases n - j,
    {
        let (key, list) = rest.remove(0);
        assert(key == e[j as int].0 && list == e[j as int].1);
        let k = match parse_usize(key.as_str()) {
            Some(k) => k,
            None => 0,
        };
        proof {
            lemma_max_index_bounds(e, j as int, n as int);
        }
        match list {
            Some(l) => {
                lists.set(k, l);
            },
            None => {},
        }
        j = j + 1;
    }
    Some(lists)
}

proof fn lemma_max_index_bounds(e: Seq<(String, Option<Vec<String>>)>, j: int, n: int)
    requires
        0 <= j < n <= e.len(),
        key_index(e[j].0@) is Some,
    ensures
        key_index(e[j].0@)->0 <= max_index(e, n),
    decreases n,
{
    if n - 1 > j {
        lemma_max_index_bounds(e, j, n - 1);
    }
}

/// Every word of every list, list after list.
pub fn all_words(entries: &WordEntries) -> (r: Vec<String>)
    ensures
        r@ == words_of(entries@, entries@.len() as int),
{
    let mut r: Vec<String> = Vec::new();
    let mut j: usize = 0;
    while j < entries.len()
        invariant
            j <= entries@.len(),
            r@ == words_of(entries@, j as int),
        decreases entries@.len() - j,
    {
        match &entries[j].1 {
            Some(l) => {
                let mut i: usize = 0;
                let ghost start = r@;
                while i < l.len()
                    invariant
                        i <= l@.len(),
                        r@ == start + l@.subrange(0, i as int),
                    decreases l@.len() - i,
                {
                    r.push(l[i].clone());
                    assert(r@ =~= start + l@.subrange(0, i + 1));
                    i = i + 1;
                }
                assert(l@.subrange(0, l@.len() as int) =~= l@);
            },
            None => {},
        }
        j = j + 1;
    }
    r
}

/// The strings among the items of an array; `None` where `v` is no array.
fn strings_of(v: &serde_json::Value) -> Option<Vec<String>> {
    match json_items(v) {
        Some(items) => {
            let mut r: Vec<String> = Vec::new();
            let mut i: usize = 0;
            while i < items.len()
                decreases items@.len() - i,
            {
                match json_text(&items[i]) {
                    Some(t) => r.push(t.to_owned()),
                    None => {},
                }
                i = i + 1;
            }
            Some(r)
        },
        None => None,
    }
}

/// The entries of a top-level JSON object: each key with the strings of its array.
/// `None` where `v` is no object.
fn object_entries(v: &serde_json::Value) -> Option<WordEntries> {
    let keys = match json_keys(v) {
        Some(k) => k,
        None => return None,
    };
    let mut entries: WordEntries = Vec::new();
    let mut i: usize = 0;
    while i < keys.len()
        decreases keys@.len() - i,
    {
        let list = match json_field(v, keys[i].as_str()) {
            Some(f) => strings_of(f),
            None => None,
        };
        entries.push((keys[i].clone(), list));
        i = i + 1;
    }
    Some(entries)
}

/// The dictionary of a vocabulary file: every string of every array under its
/// top-level object (none where it is no object). `None` where the text is not JSON.
pub fn dictionary_from_json(text: &str) -> Option<Vec<String>> {
    let v = match parse_json(text) {
        Some(v) => v,
        None => return None,
    };
    match object_entries(&v) {
        Some(e) => Some(all_words(&e)),
        None => Some(Vec::new()),
    }
}

/// The candidate answers of a vocabulary file, grouped by the length that each key of
/// its top-level object names (no list where it is no object). `None` where the text
/// is not JSON or a key names no index.
pub fn answer_lists_from_json(text: &str) -> Option<Vec<Vec<String>>> {
    let v = match parse_json(text) {
        Some(v) => v,
        None => return None,
    };
    match object_entries(&v) {
        Some(e) => answer_lists(e),
        None => Some(Vec::new()),
    }
}

/// Longest answer length that the random length table can pick.
pub const LONGEST_RANDOM_LENGTH: usize = 15;

/// Shortest answer length that the random length table can pick.
pub const SHORTEST_RANDOM_LENGTH: usize = 4;

/// The answer length for a percentile `roll` (`0..100`); in the top percentile,
/// `extra` (`0..5`) spreads the length over 11 to 15.
pub open spec fn length_table(roll: int, extra: int) -> int {
    if roll < 20 {
        4
    } else if roll < 60 {
        5
    } else if roll < 80 {
        6
    } else if roll < 90 {
        7
    } else if roll < 95 {
        8
    } else if roll < 98 {
        9
    } else if roll < 99 {
        10
    } else {
        11 + extra
    }
}

/// The answer length that the table gives for a percentile `roll` and a spread `extra`.
pub fn length_for_roll(roll: usize, extra: usize) -> (r: usize)
    requires
        roll < 100,
        extra < 5,
    ensures
        r == length_table(roll as int, extra as int),
        SHORTEST_RANDOM_LENGTH <= r <= LONGEST_RANDOM_LENGTH,
{
    if roll < 20 {
        4
    } else if roll < 60 {
        5
    } else if roll < 80 {
        6
    } else if roll < 90 {
        7
    } else if roll < 95 {
        8
    } else if roll < 98 {
        9
    } else if roll < 99 {
        10
    } else {
        11 + extra
    }
}

/// The vocabulary of the game: candidate answers grouped by length, and every word
/// accepted as a guess.
pub struct Word {
    /// `answer[n]` lists the candidate answers of length `n`.
    pub answer: Vec<Vec<String>>,
    /// Every word accepted as a guess.
    pub dictionary: Vec<String>,
}

impl Word {
    /// Whether `w` is a word of the dictionary.
    pub open spec fn knows(&self, w: Seq<char>) -> bool {
        exists|i: int| 0 <= i < self.dictionary@.len() && #[trigger] self.dictionary@[i]@ == w
    }

    /// Whether `w` is a candidate answer listed under length `n`.
    pub open spec fn lists(&self, n: int, w: Seq<char>) -> bool {
        0 <= n < self.answer@.len() && exists|i: int|
            0 <= i < self.answer@[n]@.len() && #[trigger] self.answer@[n]@[i]@ == w
    }

    /// Whether the list of candidate answers of length `n` exists and is not empty.
    pub open spec fn has_answers_of_length(&self, n: int) -> bool {
        0 <= n < self.answer@.len() && self.answer@[n]@.len() > 0
    }

    /// Whether every length that the random table can pick has candidate answers.
    pub open spec fn covers_random_lengths(&self) -> bool {
        forall|n: int|
            SHORTEST_RANDOM_LENGTH <= n <= LONGEST_RANDOM_LENGTH ==> #[trigger] self.has_answers_of_length(n)
    }

    /// A vocabulary from its candidate answers, grouped by length, and its dictionary.
    pub fn new(answer: Vec<Vec<String>>, dictionary: Vec<String>) -> (r: Word)
        ensures
            r.answer == answer,
            r.dictionary == dictionary,
    {
        Word { answer, dictionary }
    }

    /// Whether `word` is in the dictionary.
    pub fn is_valid_word(&self, word: &str) -> (r: bool)
        ensures
            r == self.knows(word@),
    {
        let w = word.to_owned();
        let mut i: usize = 0;
        while i < self.dictionary.len()
            invariant
                i <= self.dictionary@.len(),
                w@ == word@,
                forall|k: int| 0 <= k < i ==> #[trigger] self.dictionary@[k]@ != word@,
            decreases self.dictionary@.len() - i,
        {
            if self.dictionary[i] == w {
                return true;
            }
            i = i + 1;
        }
        false
    }

    /// Draws a candidate answer of length `n` at random.
    fn pick_of_length(&self, n: usize) -> (r: Result<String, &'static str>)
        ensures
            r is Ok <==> self.has_answers_of_length(n as int),
            r matches Ok(w) ==> self.lists(n as int, w@),
            r matches Err(e) ==> e == if n < self.answer@.len() {
                "No words available for the given length."
            } else {
                "Invalid word length."
            },
    {
        if n >= self.answer.len() {
            return Err("Invalid word length.");
        }
        let words = &self.answer[n];
        if words.len() == 0 {
            return Err("No words available for the given length.");
        }
        let index = random_below(words.len());
        let w = words[index].clone();
        assert(self.answer@[n as int]@[index as int]@ == w@);
        Ok(w)
    }

    /// Draws a candidate answer: of length `word_length` where one is given, else of a
    /// length drawn from the random length table.
    pub fn generate_answer(&self, word_length: Option<usize>) -> (r: Result<String, &'static str>)
        ensures
            word_length matches Some(n) ==> {
                &&& (r is Ok <==> self.has_answers_of_length(n as int))
                &&& (r matches Ok(w) ==> self.lists(n as int, w@))
                &&& (r matches Err(e) ==> e == if n < self.answer@.len() {
                    "No words available for the given length."
                } else {
                    "Invalid word length."
                })
            },
            word_length is None ==> {
                &&& (r matches Ok(w) ==> exists|n: int|
                    SHORTEST_RANDOM_LENGTH <= n <= LONGEST_RANDOM_LENGTH && #[trigger] self.lists(
                        n,
                        w@,
                    ))
                &&& (self.covers_random_lengths() ==> r is Ok)
            },
    {
        let n = match word_length {
            Some(n) => n,
            None => {
                let roll = random_below(100);
                let extra = if roll >= 99 {
                    random_below(5)
                } else {
                    0
                };
                length_for_roll(roll, extra)
            },
        };
        proof {
            if word_length is None && self.covers_random_lengths() {
                assert(self.has_answers_of_length(n as int));
            }
        }
        self.pick_of_length(n)
    }
}

} // verus!
