use vstd::prelude::*;

use crate::types::{GuessResult, LetterState};

verus! {

/// Answer positions taken by exact matches, before any misplaced letter is credited.
pub open spec fn exact_used(g: Seq<char>, a: Seq<char>) -> Seq<bool> {
    Seq::new(a.len(), |j: int| j < g.len() && g[j] == a[j])
}

/// The first answer position at or after `j` that holds `c` and is not yet taken.
pub open spec fn first_free_from(a: Seq<char>, used: Seq<bool>, c: char, j: int) -> Option<int>
    decreases a.len() - j,
{
    if j < 0 || j >= a.len() {
        None
    } else if !used[j] && a[j] == c {
        Some(j)
    } else {
        first_free_from(a, used, c, j + 1)
    }
}

/// The first answer position that holds `c` and is not yet taken.
pub open spec fn first_free(a: Seq<char>, used: Seq<bool>, c: char) -> Option<int> {
    first_free_from(a, used, c, 0)
}

/// Answer positions taken once the guess positions before `i` have been classified.
pub open spec fn used_before(g: Seq<char>, a: Seq<char>, i: int) -> Seq<bool>
    decreases i,
{
    if i <= 0 {
        exact_used(g, a)
    } else {
        let u = used_before(g, a, i - 1);
        let k = i - 1;
        if g[k] == a[k] {
            u
        } else {
            match first_free(a, u, g[k]) {
                Some(j) => u.update(j, true),
                None => u,
            }
        }
    }
}

/// The classification of guess position `i`.
pub open spec fn letter_state(g: Seq<char>, a: Seq<char>, i: int) -> LetterState {
    if g[i] == a[i] {
        LetterState::Matched
    } else if first_free(a, used_before(g, a, i), g[i]) is Some {
        LetterState::Present
    } else {
        LetterState::Absent
    }
}

/// The classification of a whole guess against an answer of the same length.
pub open spec fn judgement(g: Seq<char>, a: Seq<char>) -> Seq<LetterState> {
    Seq::new(g.len(), |i: int| letter_state(g, a, i))
}

fn chars_of(s: &str) -> (r: Vec<char>)
    ensures
        r@ == s@,
{
    let n = s.unicode_len();
    let mut r: Vec<char> = Vec::new();
    let mut i: usize = 0;
    while i < n
        invariant
            n == s@.len(),
            i <= n,
            r@ == s@.subrange(0, i as int),
        decreases n - i,
    {
        r.push(s.get_char(i));
        i = i + 1;
    }
    assert(r@ =~= s@);
    r
}

fn find_free(a: &Vec<char>, used: &Vec<bool>, c: char) -> (r: Option<usize>)
    requires
        used@.len() == a@.len(),
    ensures
        r matches Some(j) ==> j < a@.len() && first_free(a@, used@, c) == Some(j as int),
        r is None ==> first_free(a@, used@, c) is None,
{
    let mut j: usize = 0;
    while j < a.len()
        invariant
            used@.len() == a@.len(),
            j <= a@.len(),
            first_free(a@, used@, c) == first_free_from(a@, used@, c, j as int),
        decreases a@.len() - j,
    {
        if !used[j] && a[j] == c {
            return Some(j);
        }
        j = j + 1;
    }
    None
}

/// Classifies each letter of `guess` against `answer`: exact matches first, then
/// misplaced letters, each answer letter credited at most once.
pub fn judge(guess: &str, answer: &str) -> (r: Option<GuessResult>)
    requires
        guess@.len() == answer@.len(),
    ensures
        r is Some,
        r->0@ == judgement(guess@, answer@),
        r->0@.len() == guess@.len(),
{
    let g = chars_of(guess);
    let a = chars_of(answer);
    let n = g.len();
    let mut used: Vec<bool> = Vec::new();
    let mut j: usize = 0;
    while j < n
        invariant
            n == g@.len(),
            n == a@.len(),
            j <= n,
            used@ == exact_used(g@, a@).subrange(0, j as int),
        decreases n - j,
    {
        used.push(g[j] == a[j]);
        j = j + 1;
    }
    assert(used@ =~= used_before(g@, a@, 0));
    let mut result: Vec<LetterState> = Vec::new();
    let mut i: usize = 0;
    while i < n
        invariant
            n == g@.len(),
            n == a@.len(),
            i <= n,
            used@ == used_before(g@, a@, i as int),
            used@.len() == n,
            result@ == judgement(g@, a@).subrange(0, i as int),
        decreases n - i,
    {
        proof {
            lemma_used_before_len(g@, a@, i as int + 1);
        }
        if g[i] == a[i] {
            result.push(LetterState::Matched);
        } else {
            match find_free(&a, &used, g[i]) {
                Some(k) => {
                    result.push(LetterState::Present);
                    used.set(k, true);
                },
                None => {
                    result.push(LetterState::Absent);
                },
            }
        }
        i = i + 1;
    }
    assert(result@ =~= judgement(g@, a@));
    Some(result)
}

proof fn lemma_first_free_from(a: Seq<char>, used: Seq<bool>, c: char, j: int)
    requires
        used.len() == a.len(),
    ensures
        first_free_from(a, used, c, j) matches Some(k) ==> (j <= k && 0 <= k < a.len() && a[k]
            == c && !used[k]),
    decreases a.len() - j,
{
    if 0 <= j < a.len() && !(!used[j] && a[j] == c) {
        lemma_first_free_from(a, used, c, j + 1);
    }
}

proof fn lemma_used_before_len(g: Seq<char>, a: Seq<char>, i: int)
    ensures
        used_before(g, a, i).len() == a.len(),
    decreases i,
{
    if i > 0 {
        lemma_used_before_len(g, a, i - 1);
        lemma_first_free_from(a, used_before(g, a, i - 1), g[i - 1], 0);
    }
}

/// Number of indices below `n` at which `p` holds.
pub open spec fn count_below(p: spec_fn(int) -> bool, n: int) -> nat
    decreases n,
{
    if n <= 0 {
        0
    } else {
        count_below(p, n - 1) + if p(n - 1) {
            1nat
        } else {
            0nat
        }
    }
}

/// How often `c` occurs among the first `n` letters of `a`.
pub open spec fn occurrences_below(a: Seq<char>, c: char, n: int) -> nat
    decreases n,
{
    if n <= 0 {
        0
    } else {
        occurrences_below(a, c, n - 1) + if a[n - 1] == c {
            1nat
        } else {
            0nat
        }
    }
}

/// How often `c` occurs in `a`.
pub open spec fn occurrences(a: Seq<char>, c: char) -> nat {
    occurrences_below(a, c, a.len() as int)
}

/// How many of the first `n` positions of guess `g` hold `c` and are credited
/// (`Matched` or `Present`).
pub open spec fn credited_below(g: Seq<char>, a: Seq<char>, c: char, n: int) -> nat
    decreases n,
{
    if n <= 0 {
        0
    } else {
        credited_below(g, a, c, n - 1) + if g[n - 1] == c && judgement(g, a)[n - 1]
            != LetterState::Absent {
            1nat
        } else {
            0nat
        }
    }
}

/// How many positions of guess `g` hold `c` and are credited (`Matched` or `Present`).
pub open spec fn credited(g: Seq<char>, a: Seq<char>, c: char) -> nat {
    credited_below(g, a, c, g.len() as int)
}

/// Judging a word against itself marks every position `Matched`.
pub proof fn lemma_judge_self_all_matched(a: Seq<char>)
    ensures
        judgement(a, a).len() == a.len(),
        forall|i: int| 0 <= i < a.len() ==> #[trigger] judgement(a, a)[i] == LetterState::Matched,
{
}

/// When guess and answer share no letter, every position is `Absent`.
pub proof fn lemma_disjoint_all_absent(g: Seq<char>, a: Seq<char>)
    requires
        g.len() == a.len(),
        forall|i: int, j: int| 0 <= i < g.len() && 0 <= j < a.len() ==> g[i] != a[j],
    ensures
        forall|i: int| 0 <= i < g.len() ==> #[trigger] judgement(g, a)[i] == LetterState::Absent,
{
    assert forall|i: int| 0 <= i < g.len() implies #[trigger] judgement(g, a)[i]
        == LetterState::Absent by {
        lemma_used_before_len(g, a, i);
        lemma_first_free_from(a, used_before(g, a, i), g[i], 0);
        assert(g[i] != a[i]);
    }
}

proof fn lemma_count_ext(p: spec_fn(int) -> bool, q: spec_fn(int) -> bool, n: int)
    requires
        forall|i: int| 0 <= i < n ==> #[trigger] p(i) == q(i),
    ensures
        count_below(p, n) == count_below(q, n),
    decreases n,
{
    if n > 0 {
        lemma_count_ext(p, q, n - 1);
    }
}

proof fn lemma_count_mono(p: spec_fn(int) -> bool, q: spec_fn(int) -> bool, n: int)
    requires
        forall|i: int| 0 <= i < n && #[trigger] p(i) ==> q(i),
    ensures
        count_below(p, n) <= count_below(q, n),
    decreases n,
{
    if n > 0 {
        lemma_count_mono(p, q, n - 1);
    }
}

proof fn lemma_count_one_more(p: spec_fn(int) -> bool, q: spec_fn(int) -> bool, n: int, k: int)
    requires
        0 <= k < n,
        !p(k),
        q(k),
        forall|i: int| 0 <= i < n && i != k ==> #[trigger] p(i) == q(i),
    ensures
        count_below(q, n) == count_below(p, n) + 1,
    decreases n,
{
    if n - 1 == k {
        lemma_count_ext(p, q, n - 1);
    } else {
        lemma_count_one_more(p, q, n - 1, k);
    }
}

proof fn lemma_credit_balance(g: Seq<char>, a: Seq<char>, c: char, i: int)
    requires
        g.len() == a.len(),
        0 <= i <= a.len(),
    ensures
        count_below(|j: int| used_before(g, a, i)[j] && a[j] == c, a.len() as int)
            + count_below(|k: int| g[k] == a[k] && a[k] == c, i) == count_below(
            |k: int| g[k] == c && judgement(g, a)[k] != LetterState::Absent,
            i,
        ) + count_below(|k: int| g[k] == a[k] && a[k] == c, a.len() as int),
    decreases i,
{
    let n = a.len() as int;
    if i == 0 {
        lemma_count_ext(
            |j: int| used_before(g, a, 0)[j] && a[j] == c,
            |k: int| g[k] == a[k] && a[k] == c,
            n,
        );
    } else {
        let h = i - 1;
        lemma_credit_balance(g, a, c, h);
        let u = used_before(g, a, h);
        let u2 = used_before(g, a, i);
        lemma_used_before_len(g, a, h);
        let pu = |j: int| u[j] && a[j] == c;
        let pu2 = |j: int| u2[j] && a[j] == c;
        if g[h] == a[h] {
            lemma_count_ext(pu, pu2, n);
        } else {
            match first_free(a, u, g[h]) {
                Some(k) => {
                    lemma_first_free_from(a, u, g[h], 0);
                    if g[h] == c {
                        lemma_count_one_more(pu, pu2, n, k);
                    } else {
                        lemma_count_ext(pu, pu2, n);
                    }
                },
                None => {
                    lemma_count_ext(pu, pu2, n);
                },
            }
        }
    }
}

/// No letter of the answer is credited more often than it occurs there.
pub proof fn lemma_credit_bounded(g: Seq<char>, a: Seq<char>, c: char)
    requires
        g.len() == a.len(),
    ensures
        credited(g, a, c) <= occurrences(a, c),
{
    let n = a.len() as int;
    let pu = |j: int| used_before(g, a, n)[j] && a[j] == c;
    let pc = |k: int| g[k] == c && judgement(g, a)[k] != LetterState::Absent;
    let pa = |j: int| a[j] == c;
    lemma_credit_balance(g, a, c, n);
    assert(count_below(pu, n) == count_below(pc, n));
    lemma_count_mono(pu, pa, n);
    lemma_credited_count(g, a, c, n);
    lemma_occurrences_count(a, c, n);
}

proof fn lemma_occurrences_count(a: Seq<char>, c: char, n: int)
    ensures
        occurrences_below(a, c, n) == count_below(|j: int| a[j] == c, n),
    decreases n,
{
    if n > 0 {
        lemma_occurrences_count(a, c, n - 1);
    }
}

proof fn lemma_credited_count(g: Seq<char>, a: Seq<char>, c: char, n: int)
    ensures
        credited_below(g, a, c, n) == count_below(
            |k: int| g[k] == c && judgement(g, a)[k] != LetterState::Absent,
            n,
        ),
    decreases n,
{
    if n > 0 {
        lemma_credited_count(g, a, c, n - 1);
    }
}

} // verus!
