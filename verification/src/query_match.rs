//! Matching a typed query against headwords: folding, edit distance and the
//! plausibility of a German spelling.

use vstd::prelude::*;
use crate::text::{
    chars_of, contains, contains_exec, is_alphabetic, is_alphanumeric, is_uppercase, same,
    string_of, to_lowercase, trim, trim_exec, trim_str, unicode_alphabetic, unicode_alphanumeric,
    unicode_lower, unicode_uppercase,
};

verus! {

// ---------------------------------------------------------------------------
// Folding for comparison
// ---------------------------------------------------------------------------

/// What a lowercased character contributes to the folded form: umlauts lose
/// their dots, `ß` becomes `ss`, other letters and digits stay, the rest is
/// dropped.
pub open spec fn fold_char(c: char) -> Seq<char> {
    if c == 'ä' {
        seq!['a']
    } else if c == 'ö' {
        seq!['o']
    } else if c == 'ü' {
        seq!['u']
    } else if c == 'ß' {
        seq!['s', 's']
    } else if unicode_alphanumeric(c) {
        seq![c]
    } else {
        Seq::empty()
    }
}

pub open spec fn fold_all(s: Seq<char>) -> Seq<char>
    decreases s.len(),
{
    if s.len() == 0 {
        Seq::empty()
    } else {
        fold_all(s.drop_last()) + fold_char(s.last())
    }
}

/// The folded, lowercased, trimmed form used to compare spellings.
pub open spec fn match_form(v: Seq<char>) -> Seq<char> {
    fold_all(unicode_lower(trim(v)))
}

/// Folding a text folds its parts one after the other.
pub proof fn lemma_fold_all_concat(a: Seq<char>, b: Seq<char>)
    ensures
        fold_all(a + b) == fold_all(a) + fold_all(b),
    decreases b.len(),
{
    if b.len() == 0 {
        assert(a + b =~= a);
        assert(fold_all(b) == Seq::<char>::empty());
        assert(fold_all(a) + fold_all(b) =~= fold_all(a));
    } else {
        lemma_fold_all_concat(a, b.drop_last());
        assert((a + b).drop_last() =~= a + b.drop_last());
        assert((a + b).last() == b.last());
        assert(fold_all(a + b) =~= fold_all(a) + (fold_all(b.drop_last()) + fold_char(b.last())));
    }
}

/// Folding keeps every umlaut letter as its plain letter and `ß` as `ss`,
/// wherever it stands: the folded form of a text with `ä`, `ö` or `ü`
/// between two parts is the folded parts with `a`, `o` or `u` between
/// them, and with `ß` between them, `ss`.
pub proof fn law_fold_spells_out_umlauts(a: Seq<char>, b: Seq<char>)
    ensures
        fold_all(a + seq!['ä'] + b) == fold_all(a) + seq!['a'] + fold_all(b),
        fold_all(a + seq!['ö'] + b) == fold_all(a) + seq!['o'] + fold_all(b),
        fold_all(a + seq!['ü'] + b) == fold_all(a) + seq!['u'] + fold_all(b),
        fold_all(a + seq!['ß'] + b) == fold_all(a) + seq!['s', 's'] + fold_all(b),
{
    let e = Seq::<char>::empty();
    let cs = seq!['ä', 'ö', 'ü', 'ß'];
    assert forall|i: int| 0 <= i < 4 implies fold_all(a + seq![#[trigger] cs[i]] + b) == fold_all(a)
        + fold_char(cs[i]) + fold_all(b) by {
        let c = cs[i];
        lemma_fold_all_concat(a + seq![c], b);
        lemma_fold_all_concat(a, seq![c]);
        assert(seq![c].drop_last() =~= e);
        assert(fold_all(e) == e);
        assert(fold_all(seq![c]) =~= fold_char(c));
    }
    assert(cs[0] == 'ä' && cs[1] == 'ö' && cs[2] == 'ü' && cs[3] == 'ß');
}

/// Any other character is kept as it is when it is a letter or digit and
/// dropped otherwise, wherever it stands.
pub proof fn law_fold_keeps_letters_and_digits(a: Seq<char>, c: char, b: Seq<char>)
    requires
        c != 'ä' && c != 'ö' && c != 'ü' && c != 'ß',
    ensures
        unicode_alphanumeric(c) ==> fold_all(a + seq![c] + b) == fold_all(a) + seq![c] + fold_all(b),
        !unicode_alphanumeric(c) ==> fold_all(a + seq![c] + b) == fold_all(a) + fold_all(b),
{
    let e = Seq::<char>::empty();
    lemma_fold_all_concat(a + seq![c], b);
    lemma_fold_all_concat(a, seq![c]);
    assert(seq![c].drop_last() =~= e);
    assert(fold_all(e) == e);
    assert(fold_all(seq![c]) =~= fold_char(c));
    if !unicode_alphanumeric(c) {
        assert(fold_all(a) + e =~= fold_all(a));
    }
}

/// A character that may stand in a folded form: no umlaut and no `ß`,
/// and a letter or digit (the plain letters that umlauts and `ß` become
/// among them).
pub open spec fn plain_folded_char(c: char) -> bool {
    &&& c != 'ä' && c != 'ö' && c != 'ü' && c != 'ß'
    &&& (c == 'a' || c == 'o' || c == 'u' || c == 's' || unicode_alphanumeric(c))
}

proof fn lemma_fold_all_plain(s: Seq<char>)
    ensures
        forall|i: int| 0 <= i < fold_all(s).len() ==> plain_folded_char(#[trigger] fold_all(s)[i]),
    decreases s.len(),
{
    if s.len() > 0 {
        lemma_fold_all_plain(s.drop_last());
        let a = fold_all(s.drop_last());
        let b = fold_char(s.last());
        assert(fold_all(s) == a + b);
        assert forall|i: int| 0 <= i < fold_all(s).len() implies plain_folded_char(#[trigger] fold_all(s)[i]) by {
            if i >= a.len() {
                assert(fold_all(s)[i] == b[i - a.len()]);
            } else {
                assert(fold_all(s)[i] == a[i]);
            }
        }
    }
}

/// The form a query is compared by never holds an umlaut or `ß`, and holds
/// only letters and digits, whatever was typed.
pub proof fn law_folded_form_is_plain(v: Seq<char>)
    ensures
        forall|i: int| 0 <= i < match_form(v).len() ==> plain_folded_char(#[trigger] match_form(v)[i]),
{
    lemma_fold_all_plain(unicode_lower(trim(v)));
}

pub fn fold_match_char(c: char) -> (r: Vec<char>)
    ensures
        r@ == fold_char(c),
{
    let mut r: Vec<char> = Vec::new();
    if c == 'ä' {
        r.push('a');
    } else if c == 'ö' {
        r.push('o');
    } else if c == 'ü' {
        r.push('u');
    } else if c == 'ß' {
        r.push('s');
        r.push('s');
    } else if is_alphanumeric(c) {
        r.push(c);
    }
    assert(r@ =~= fold_char(c));
    r
}

fn match_form_chars(value: &str) -> (r: Vec<char>)
    ensures
        r@ == match_form(value@),
{
    let t = trim_str(value);
    let l = to_lowercase(t.as_str());
    let cs = chars_of(l.as_str());
    let mut r: Vec<char> = Vec::new();
    let mut i: usize = 0;
    while i < cs.len()
        invariant
            0 <= i <= cs@.len(),
            r@ == fold_all(cs@.take(i as int)),
        decreases cs@.len() - i,
    {
        assert(cs@.take(i + 1).drop_last() =~= cs@.take(i as int));
        let f = fold_match_char(cs[i]);
        crate::text::extend(&mut r, &f);
        i = i + 1;
    }
    assert(cs@.take(cs@.len() as int) =~= cs@);
    r
}

/// The spelling folded for comparison: trimmed, lowercased, umlauts and `ß`
/// spelled out in plain letters, everything but letters and digits dropped.
pub fn normalize_for_match(value: &str) -> (r: String)
    ensures
        r@ == match_form(value@),
{
    let r = match_form_chars(value);
    string_of(&r)
}

// ---------------------------------------------------------------------------
// Plausible German spellings
// ---------------------------------------------------------------------------

pub open spec fn is_german_letter(c: char) -> bool {
    ('a' <= c && c <= 'z') || ('A' <= c && c <= 'Z') || c == 'ä' || c == 'ö' || c == 'ü' || c
        == 'Ä' || c == 'Ö' || c == 'Ü' || c == 'ß'
}

/// Characters that may stand between the letters of a German term.
pub open spec fn is_german_filler(c: char) -> bool {
    c == ' ' || c == '-' || c == '\'' || c == '/' || c == '.' || ('0' <= c && c <= '9')
}

/// A non-blank text of German letters, digits and a few separators, with at
/// least one letter.
pub open spec fn german_candidate(v: Seq<char>) -> bool {
    let t = trim(v);
    &&& t.len() > 0
    &&& forall|i: int| 0 <= i < t.len() ==> is_german_letter(#[trigger] t[i]) || is_german_filler(t[i])
    &&& exists|i: int| 0 <= i < t.len() && is_german_letter(#[trigger] t[i])
}

pub fn looks_like_german_candidate(value: &str) -> (r: bool)
    ensures
        r == german_candidate(value@),
{
    let c = chars_of(value);
    let t = trim_exec(&c);
    if t.len() == 0 {
        return false;
    }
    let mut has_letter = false;
    let mut i: usize = 0;
    while i < t.len()
        invariant
            0 <= i <= t@.len(),
            t@ == trim(value@),
            forall|j: int| 0 <= j < i ==> is_german_letter(#[trigger] t@[j]) || is_german_filler(t@[j]),
            has_letter <==> exists|j: int| 0 <= j < i && is_german_letter(#[trigger] t@[j]),
        decreases t@.len() - i,
    {
        let ch = t[i];
        if ('a' <= ch && ch <= 'z') || ('A' <= ch && ch <= 'Z') || ch == 'ä' || ch == 'ö' || ch
            == 'ü' || ch == 'Ä' || ch == 'Ö' || ch == 'Ü' || ch == 'ß' {
            has_letter = true;
        } else if ch == ' ' || ch == '-' || ch == '\'' || ch == '/' || ch == '.' || ('0' <= ch
            && ch <= '9') {
        } else {
            assert(!(is_german_letter(t@[i as int]) || is_german_filler(t@[i as int])));
            assert(!german_candidate(value@)) by {
                let tt = trim(value@);
                assert(tt == t@);
                assert(!(is_german_letter(tt[i as int]) || is_german_filler(tt[i as int])));
            }
            return false;
        }
        i = i + 1;
    }
    has_letter
}

// ---------------------------------------------------------------------------
// Edit distance
// ---------------------------------------------------------------------------

pub open spec fn min3(a: nat, b: nat, c: nat) -> nat {
    if a <= b && a <= c {
        a
    } else if b <= c {
        b
    } else {
        c
    }
}

/// The Levenshtein distance: the fewest insertions, deletions and
/// substitutions of single characters that turn `a` into `b`.
pub open spec fn lev(a: Seq<char>, b: Seq<char>) -> nat
    decreases a.len() + b.len(),
{
    if a.len() == 0 {
        b.len()
    } else if b.len() == 0 {
        a.len()
    } else {
        min3(
            lev(a.drop_last(), b) + 1,
            lev(a, b.drop_last()) + 1,
            lev(a.drop_last(), b.drop_last()) + if a.last() == b.last() {
                0nat
            } else {
                1nat
            },
        )
    }
}

/// The distance is at most the longer length.
pub proof fn lemma_lev_bound(a: Seq<char>, b: Seq<char>)
    ensures
        lev(a, b) <= if a.len() >= b.len() { a.len() } else { b.len() },
    decreases a.len() + b.len(),
{
    if a.len() > 0 && b.len() > 0 {
        lemma_lev_bound(a.drop_last(), b.drop_last());
    }
}

/// A text is at distance 0 from itself.
pub proof fn lemma_lev_self(a: Seq<char>)
    ensures
        lev(a, a) == 0,
    decreases a.len(),
{
    if a.len() > 0 {
        lemma_lev_self(a.drop_last());
    }
}

/// The Levenshtein distance between two texts, row by row.
pub fn levenshtein_distance(left: &Vec<char>, right: &Vec<char>) -> (r: usize)
    requires
        left@.len() < usize::MAX,
        right@.len() < usize::MAX,
    ensures
        r == lev(left@, right@),
{
    let n = right.len();
    let mut prev: Vec<usize> = Vec::new();
    let mut j: usize = 0;
    while j <= n
        invariant
            n == right@.len(),
            n < usize::MAX,
            0 <= j <= n + 1,
            prev@.len() == j,
            forall|k: int| 0 <= k < j ==> prev@[k] == lev(Seq::<char>::empty(), right@.take(k)),
        decreases n + 1 - j,
    {
        prev.push(j);
        j = j + 1;
    }
    let mut i: usize = 0;
    while i < left.len()
        invariant
            n == right@.len(),
            n < usize::MAX,
            left@.len() < usize::MAX,
            0 <= i <= left@.len(),
            prev@.len() == n + 1,
            forall|k: int| 0 <= k <= n ==> prev@[k] == lev(left@.take(i as int), right@.take(k)),
        decreases left@.len() - i,
    {
        let ghost a = left@.take(i + 1);
        assert(a.drop_last() =~= left@.take(i as int));
        let mut curr: Vec<usize> = Vec::new();
        curr.push(i + 1);
        assert(right@.take(0) =~= Seq::<char>::empty());
        let mut j: usize = 0;
        while j < n
            invariant
                n == right@.len(),
                n < usize::MAX,
                left@.len() < usize::MAX,
                0 <= i < left@.len(),
                a == left@.take(i + 1),
                a.drop_last() == left@.take(i as int),
                prev@.len() == n + 1,
                forall|k: int| 0 <= k <= n ==> prev@[k] == lev(left@.take(i as int), right@.take(k)),
                0 <= j <= n,
                curr@.len() == j + 1,
                forall|k: int| 0 <= k <= j ==> curr@[k] == lev(a, right@.take(k)),
            decreases n - j,
        {
            let ghost b = right@.take(j + 1);
            assert(b.drop_last() =~= right@.take(j as int));
            assert(a.last() == left@[i as int]);
            assert(b.last() == right@[j as int]);
            proof {
                lemma_lev_bound(left@.take(i as int), right@.take(j + 1));
                lemma_lev_bound(a, right@.take(j as int));
                lemma_lev_bound(left@.take(i as int), right@.take(j as int));
            }
            let cost: usize = if left[i] != right[j] { 1 } else { 0 };
            let del = prev[j + 1] + 1;
            let ins = curr[j] + 1;
            let sub = prev[j] + cost;
            let best = if del <= ins && del <= sub {
                del
            } else if ins <= sub {
                ins
            } else {
                sub
            };
            curr.push(best);
            j = j + 1;
        }
        prev = curr;
        i = i + 1;
    }
    assert(left@.take(left@.len() as int) =~= left@);
    assert(right@.take(n as int) =~= right@);
    prev[n]
}

/// How far a spelling of a given length may be from a match.
pub open spec fn threshold_for(len: nat) -> nat {
    if len <= 4 {
        1
    } else if len <= 7 {
        2
    } else {
        3
    }
}

pub fn fuzzy_threshold(term_len: usize) -> (r: usize)
    ensures
        r == threshold_for(term_len as nat),
{
    if term_len <= 4 {
        1
    } else if term_len <= 7 {
        2
    } else {
        3
    }
}

/// The edit distance, one more when the last characters differ, two more
/// when the first ones differ, and one more when the candidate does not
/// start with the input's first two characters.
pub open spec fn score_of(input: Seq<char>, candidate: Seq<char>) -> nat {
    lev(input, candidate) + (if (input.len() > 0) != (candidate.len() > 0) || (input.len() > 0
        && input[0] != candidate[0]) {
        2nat
    } else {
        0nat
    }) + (if (input.len() > 0) != (candidate.len() > 0) || (input.len() > 0 && input.last()
        != candidate.last()) {
        1nat
    } else {
        0nat
    }) + (if !crate::text::starts_with(
        candidate,
        input.take(if input.len() < 2 { input.len() as int } else { 2 }),
    ) {
        1nat
    } else {
        0nat
    })
}

pub fn fuzzy_score(input: &Vec<char>, candidate: &Vec<char>) -> (r: usize)
    requires
        input@.len() < usize::MAX - 4,
        candidate@.len() < usize::MAX - 4,
    ensures
        r == score_of(input@, candidate@),
{
    let mut score = levenshtein_distance(input, candidate);
    proof {
        lemma_lev_bound(input@, candidate@);
    }
    let ni = input.len();
    let nc = candidate.len();
    if (ni > 0) != (nc > 0) || (ni > 0 && input[0] != candidate[0]) {
        score = score + 2;
    }
    if (ni > 0) != (nc > 0) || (ni > 0 && input[ni - 1] != candidate[nc - 1]) {
        score = score + 1;
    }
    let k = if ni < 2 { ni } else { 2 };
    let head = crate::text::slice_of(input, 0, k);
    assert(head@ =~= input@.take(k as int));
    if !crate::text::starts_with_exec(candidate, &head) {
        score = score + 1;
    }
    score
}

} // verus!
