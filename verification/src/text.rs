//! Character-level text primitives shared by the markdown and JSON helpers.
//!
//! Every operation is specified over `Seq<char>`, the view of `String` and
//! `str`, and implemented over `Vec<char>`.

use vstd::prelude::*;

verus! {

// ---------------------------------------------------------------------------
// Character classes
// ---------------------------------------------------------------------------

/// Unicode `White_Space`, the class that `char::is_whitespace` tests.
pub open spec fn is_ws(c: char) -> bool {
    ||| c == '\t'
    ||| c == '\n'
    ||| c == '\u{0B}'
    ||| c == '\u{0C}'
    ||| c == '\r'
    ||| c == ' '
    ||| c == '\u{85}'
    ||| c == '\u{A0}'
    ||| c == '\u{1680}'
    ||| ('\u{2000}' <= c && c <= '\u{200A}')
    ||| c == '\u{2028}'
    ||| c == '\u{2029}'
    ||| c == '\u{202F}'
    ||| c == '\u{205F}'
    ||| c == '\u{3000}'
}

pub fn is_whitespace(c: char) -> (r: bool)
    ensures
        r == is_ws(c),
{
    c == '\t' || c == '\n' || c == '\u{0B}' || c == '\u{0C}' || c == '\r' || c == ' ' || c
        == '\u{85}' || c == '\u{A0}' || c == '\u{1680}' || ('\u{2000}' <= c && c <= '\u{200A}')
        || c == '\u{2028}' || c == '\u{2029}' || c == '\u{202F}' || c == '\u{205F}' || c
        == '\u{3000}'
}

/// Membership in a character class: whitespace (when `ws`) or one of `set`.
pub open spec fn in_class(c: char, ws: bool, set: Seq<char>) -> bool {
    (ws && is_ws(c)) || set.contains(c)
}

pub fn in_class_exec(c: char, ws: bool, set: &[char]) -> (r: bool)
    ensures
        r == in_class(c, ws, set@),
{
    if ws && is_whitespace(c) {
        return true;
    }
    let mut i: usize = 0;
    while i < set.len()
        invariant
            0 <= i <= set@.len(),
            forall|j: int| 0 <= j < i ==> set@[j] != c,
        decreases set@.len() - i,
    {
        if set[i] == c {
            assert(set@.contains(c)) by {
                assert(set@[i as int] == c);
            }
            return true;
        }
        i = i + 1;
    }
    false
}

pub open spec fn is_ascii_upper(c: char) -> bool {
    'A' <= c && c <= 'Z'
}

/// `char::to_ascii_lowercase`.
pub open spec fn ascii_lower_char(c: char) -> char {
    if is_ascii_upper(c) {
        ((c as u32) + 32) as char
    } else {
        c
    }
}

/// `str::to_ascii_lowercase`.
pub open spec fn ascii_lower(s: Seq<char>) -> Seq<char> {
    s.map_values(|c: char| ascii_lower_char(c))
}

pub fn ascii_lower_char_exec(c: char) -> (r: char)
    ensures
        r == ascii_lower_char(c),
{
    if 'A' <= c && c <= 'Z' {
        let b: u8 = ((c as u32) + 32) as u8;
        b as char
    } else {
        c
    }
}

pub fn ascii_lower_exec(s: &Vec<char>) -> (r: Vec<char>)
    ensures
        r@ == ascii_lower(s@),
{
    let mut r: Vec<char> = Vec::new();
    let mut i: usize = 0;
    while i < s.len()
        invariant
            0 <= i <= s@.len(),
            r@ == ascii_lower(s@.take(i as int)),
        decreases s@.len() - i,
    {
        let c = ascii_lower_char_exec(s[i]);
        r.push(c);
        assert(ascii_lower(s@.take(i + 1)) =~= ascii_lower(s@.take(i as int)).push(
            ascii_lower_char(s@[i as int]),
        ));
        i = i + 1;
    }
    assert(s@.take(s@.len() as int) =~= s@);
    r
}

// ---------------------------------------------------------------------------
// Characters that std classifies with Unicode tables.
// ---------------------------------------------------------------------------

/// What `char::is_alphabetic` answers for a character.
pub uninterp spec fn unicode_alphabetic(c: char) -> bool;

/// What `char::is_alphanumeric` answers for a character.
pub uninterp spec fn unicode_alphanumeric(c: char) -> bool;

/// What `char::is_uppercase` answers for a character.
pub uninterp spec fn unicode_uppercase(c: char) -> bool;

/// What `char::is_lowercase` answers for a character.
pub uninterp spec fn unicode_lowercase_char(c: char) -> bool;

/// What `str::to_lowercase` gives for a string.
pub uninterp spec fn unicode_lower(s: Seq<char>) -> Seq<char>;

/// Calls `char::is_alphabetic`; the contract names its answer.
#[verifier::external_body]
pub(crate) fn is_alphabetic(c: char) -> (r: bool)
    ensures
        r == unicode_alphabetic(c),
{
    c.is_alphabetic()
}

/// Calls `char::is_alphanumeric`; the contract names its answer.
#[verifier::external_body]
pub(crate) fn is_alphanumeric(c: char) -> (r: bool)
    ensures
        r == unicode_alphanumeric(c),
{
    c.is_alphanumeric()
}

/// Calls `char::is_uppercase`; the contract names its answer.
#[verifier::external_body]
pub(crate) fn is_uppercase(c: char) -> (r: bool)
    ensures
        r == unicode_uppercase(c),
{
    c.is_uppercase()
}

/// Calls `char::is_lowercase`; the contract names its answer.
#[verifier::external_body]
pub(crate) fn is_lowercase(c: char) -> (r: bool)
    ensures
        r == unicode_lowercase_char(c),
{
    c.is_lowercase()
}

/// Calls `str::to_lowercase`; the contract names its result.
#[verifier::external_body]
pub(crate) fn to_lowercase(s: &str) -> (r: String)
    ensures
        r@ == unicode_lower(s@),
{
    s.to_lowercase()
}

// ---------------------------------------------------------------------------
// Conversions between strings and character vectors
// ---------------------------------------------------------------------------

/// Appends one character to a string (`String::push`).
#[verifier::external_body]
pub(crate) fn push_char(s: &mut String, c: char)
    ensures
        final(s)@ == old(s)@.push(c),
{
    s.push(c);
}

/// The characters of a string slice, in order.
pub fn chars_of(s: &str) -> (r: Vec<char>)
    ensures
        r@ == s@,
{
    let mut r: Vec<char> = Vec::new();
    for c in it: s.chars()
        invariant
            r@ == it.seq().take(it.index() as int),
    {
        r.push(c);
    }
    r
}

/// The string made of the given characters.
pub fn string_of(v: &Vec<char>) -> (r: String)
    ensures
        r@ == v@,
{
    let mut r = String::new();
    let mut i: usize = 0;
    while i < v.len()
        invariant
            0 <= i <= v@.len(),
            r@ == v@.take(i as int),
        decreases v@.len() - i,
    {
        push_char(&mut r, v[i]);
        assert(v@.take(i + 1) =~= v@.take(i as int).push(v@[i as int]));
        i = i + 1;
    }
    assert(v@.take(v@.len() as int) =~= v@);
    r
}

/// A copy of a string.
pub fn copy_string(s: &String) -> (r: String)
    ensures
        r@ == s@,
{
    s.clone()
}

/// The string of a string slice.
pub fn owned(s: &str) -> (r: String)
    ensures
        r@ == s@,
{
    s.to_owned()
}

/// Concatenation of two strings.
pub fn cat(a: &str, b: &str) -> (r: String)
    ensures
        r@ == a@ + b@,
{
    let mut r = a.to_owned();
    r.append(b);
    r
}

/// Appends a slice to the end of a character vector.
pub fn extend(v: &mut Vec<char>, w: &Vec<char>)
    ensures
        final(v)@ == old(v)@ + w@,
{
    let mut i: usize = 0;
    while i < w.len()
        invariant
            0 <= i <= w@.len(),
            v@ == old(v)@ + w@.take(i as int),
        decreases w@.len() - i,
    {
        v.push(w[i]);
        assert(w@.take(i + 1) =~= w@.take(i as int).push(w@[i as int]));
        i = i + 1;
    }
    assert(w@.take(w@.len() as int) =~= w@);
}

/// Appends the characters of a string slice to a character vector.
pub fn extend_str(v: &mut Vec<char>, s: &str)
    ensures
        final(v)@ == old(v)@ + s@,
{
    let w = chars_of(s);
    extend(v, &w);
}

/// The characters `from..to` of a vector.
pub fn slice_of(v: &Vec<char>, from: usize, to: usize) -> (r: Vec<char>)
    requires
        from <= to <= v@.len(),
    ensures
        r@ == v@.subrange(from as int, to as int),
{
    let mut r: Vec<char> = Vec::new();
    let mut i: usize = from;
    while i < to
        invariant
            from <= i <= to <= v@.len(),
            r@ == v@.subrange(from as int, i as int),
        decreases to - i,
    {
        r.push(v[i]);
        assert(v@.subrange(from as int, i + 1) =~= v@.subrange(from as int, i as int).push(
            v@[i as int],
        ));
        i = i + 1;
    }
    r
}

/// A copy of a character vector.
pub fn clone_chars(v: &Vec<char>) -> (r: Vec<char>)
    ensures
        r@ == v@,
{
    let r = slice_of(v, 0, v.len());
    assert(r@ =~= v@);
    r
}

/// Whether two character vectors are equal.
pub fn same(a: &Vec<char>, b: &Vec<char>) -> (r: bool)
    ensures
        r == (a@ == b@),
{
    if a.len() != b.len() {
        return false;
    }
    let mut i: usize = 0;
    while i < a.len()
        invariant
            a@.len() == b@.len(),
            0 <= i <= a@.len(),
            forall|j: int| 0 <= j < i ==> a@[j] == b@[j],
        decreases a@.len() - i,
    {
        if a[i] != b[i] {
            return false;
        }
        i = i + 1;
    }
    assert(a@ =~= b@);
    true
}

// ---------------------------------------------------------------------------
// Trimming
// ---------------------------------------------------------------------------

/// How many leading characters belong to the class.
pub open spec fn lead(s: Seq<char>, ws: bool, set: Seq<char>) -> nat
    decreases s.len(),
{
    if s.len() > 0 && in_class(s[0], ws, set) {
        1 + lead(s.drop_first(), ws, set)
    } else {
        0
    }
}

/// How many trailing characters belong to the class.
pub open spec fn trail(s: Seq<char>, ws: bool, set: Seq<char>) -> nat
    decreases s.len(),
{
    if s.len() > 0 && in_class(s.last(), ws, set) {
        1 + trail(s.drop_last(), ws, set)
    } else {
        0
    }
}

/// `trim_start_matches` for a class of characters.
pub open spec fn strip_start(s: Seq<char>, ws: bool, set: Seq<char>) -> Seq<char> {
    s.skip(lead(s, ws, set) as int)
}

/// `trim_end_matches` for a class of characters.
pub open spec fn strip_end(s: Seq<char>, ws: bool, set: Seq<char>) -> Seq<char> {
    s.take(s.len() - trail(s, ws, set))
}

/// `trim_matches` for a class of characters.
pub open spec fn strip_both(s: Seq<char>, ws: bool, set: Seq<char>) -> Seq<char> {
    strip_end(strip_start(s, ws, set), ws, set)
}

/// `str::trim`.
pub open spec fn trim(s: Seq<char>) -> Seq<char> {
    strip_both(s, true, Seq::empty())
}

/// `str::trim_start`.
pub open spec fn trim_start(s: Seq<char>) -> Seq<char> {
    strip_start(s, true, Seq::empty())
}

/// `str::trim_end`.
pub open spec fn trim_end(s: Seq<char>) -> Seq<char> {
    strip_end(s, true, Seq::empty())
}

pub proof fn lemma_lead_bound(s: Seq<char>, ws: bool, set: Seq<char>)
    ensures
        lead(s, ws, set) <= s.len(),
    decreases s.len(),
{
    if s.len() > 0 && in_class(s[0], ws, set) {
        lemma_lead_bound(s.drop_first(), ws, set);
    }
}

pub proof fn lemma_trail_bound(s: Seq<char>, ws: bool, set: Seq<char>)
    ensures
        trail(s, ws, set) <= s.len(),
    decreases s.len(),
{
    if s.len() > 0 && in_class(s.last(), ws, set) {
        lemma_trail_bound(s.drop_last(), ws, set);
    }
}

proof fn lemma_lead_stop(s: Seq<char>, ws: bool, set: Seq<char>)
    ensures
        lead(s, ws, set) < s.len() ==> !in_class(s[lead(s, ws, set) as int], ws, set),
    decreases s.len(),
{
    if s.len() > 0 && in_class(s[0], ws, set) {
        let t = s.drop_first();
        lemma_lead_stop(t, ws, set);
        if lead(t, ws, set) < t.len() {
            assert(t[lead(t, ws, set) as int] == s[lead(s, ws, set) as int]);
        }
    }
}

proof fn lemma_trail_stop(s: Seq<char>, ws: bool, set: Seq<char>)
    ensures
        trail(s, ws, set) < s.len() ==> !in_class(s[s.len() - 1 - trail(s, ws, set)], ws, set),
    decreases s.len(),
{
    if s.len() > 0 && in_class(s.last(), ws, set) {
        let t = s.drop_last();
        lemma_trail_stop(t, ws, set);
        if trail(t, ws, set) < t.len() {
            assert(t[t.len() - 1 - trail(t, ws, set)] == s[s.len() - 1 - trail(s, ws, set)]);
        }
    }
}

/// Stripping a class twice strips nothing more.
pub proof fn lemma_strip_both_idempotent(s: Seq<char>, ws: bool, set: Seq<char>)
    ensures
        strip_both(strip_both(s, ws, set), ws, set) == strip_both(s, ws, set),
{
    let a = strip_start(s, ws, set);
    lemma_lead_bound(s, ws, set);
    lemma_lead_stop(s, ws, set);
    lemma_trail_bound(a, ws, set);
    lemma_trail_stop(a, ws, set);
    let t = strip_end(a, ws, set);
    if t.len() == 0 {
        assert(strip_start(t, ws, set) =~= t);
        assert(strip_end(strip_start(t, ws, set), ws, set) =~= t);
    } else {
        assert(a[0] == s[lead(s, ws, set) as int]);
        assert(t[0] == a[0]);
        assert(t.last() == a[a.len() - 1 - trail(a, ws, set)]);
        assert(lead(t, ws, set) == 0);
        assert(strip_start(t, ws, set) =~= t);
        assert(trail(t, ws, set) == 0);
        assert(strip_end(t, ws, set) =~= t);
    }
}

/// `str::trim` twice trims nothing more.
pub proof fn lemma_trim_idempotent(s: Seq<char>)
    ensures
        trim(trim(s)) == trim(s),
{
    lemma_strip_both_idempotent(s, true, Seq::empty());
}

/// Index of the first character outside the class.
pub fn lead_exec(s: &Vec<char>, ws: bool, set: &[char]) -> (r: usize)
    ensures
        r == lead(s@, ws, set@),
        r <= s@.len(),
{
    let mut i: usize = 0;
    assert(s@.skip(0) =~= s@);
    while i < s.len() && in_class_exec(s[i], ws, set)
        invariant
            0 <= i <= s@.len(),
            lead(s@, ws, set@) == i + lead(s@.skip(i as int), ws, set@),
        decreases s@.len() - i,
    {
        assert(s@.skip(i as int).drop_first() =~= s@.skip(i + 1));
        i = i + 1;
    }
    i
}

/// How many characters at the end belong to the class.
pub fn trail_exec(s: &Vec<char>, ws: bool, set: &[char]) -> (r: usize)
    ensures
        r == trail(s@, ws, set@),
        r <= s@.len(),
{
    let mut j: usize = s.len();
    assert(s@.take(s@.len() as int) =~= s@);
    while j > 0 && in_class_exec(s[j - 1], ws, set)
        invariant
            0 <= j <= s@.len(),
            trail(s@, ws, set@) == (s@.len() - j) + trail(s@.take(j as int), ws, set@),
        decreases j,
    {
        assert(s@.take(j as int).drop_last() =~= s@.take(j - 1));
        j = j - 1;
    }
    assert(s@.take(s@.len() as int) =~= s@);
    (s.len() - j) as usize
}

pub fn strip_start_exec(s: &Vec<char>, ws: bool, set: &[char]) -> (r: Vec<char>)
    ensures
        r@ == strip_start(s@, ws, set@),
{
    let i = lead_exec(s, ws, set);
    let r = slice_of(s, i, s.len());
    assert(r@ =~= s@.skip(i as int));
    r
}

pub fn strip_end_exec(s: &Vec<char>, ws: bool, set: &[char]) -> (r: Vec<char>)
    ensures
        r@ == strip_end(s@, ws, set@),
{
    let n = trail_exec(s, ws, set);
    let r = slice_of(s, 0, s.len() - n);
    assert(r@ =~= s@.take(s@.len() - n));
    r
}

pub fn strip_both_exec(s: &Vec<char>, ws: bool, set: &[char]) -> (r: Vec<char>)
    ensures
        r@ == strip_both(s@, ws, set@),
{
    let a = strip_start_exec(s, ws, set);
    strip_end_exec(&a, ws, set)
}

pub fn trim_exec(s: &Vec<char>) -> (r: Vec<char>)
    ensures
        r@ == trim(s@),
{
    let empty: [char; 0] = [];
    assert(empty@ =~= Seq::<char>::empty());
    strip_both_exec(s, true, &empty)
}

pub fn trim_start_exec(s: &Vec<char>) -> (r: Vec<char>)
    ensures
        r@ == trim_start(s@),
{
    let empty: [char; 0] = [];
    assert(empty@ =~= Seq::<char>::empty());
    strip_start_exec(s, true, &empty)
}

pub fn trim_end_exec(s: &Vec<char>) -> (r: Vec<char>)
    ensures
        r@ == trim_end(s@),
{
    let empty: [char; 0] = [];
    assert(empty@ =~= Seq::<char>::empty());
    strip_end_exec(s, true, &empty)
}

/// `s.trim().to_string()`.
pub fn trim_str(s: &str) -> (r: String)
    ensures
        r@ == trim(s@),
{
    let v = chars_of(s);
    let t = trim_exec(&v);
    string_of(&t)
}

/// Whether the trimmed string is empty.
pub fn is_blank(s: &str) -> (r: bool)
    ensures
        r == (trim(s@).len() == 0),
{
    let t = trim_str(s);
    t.as_str().is_empty()
}

// ---------------------------------------------------------------------------
// Prefixes, suffixes and search
// ---------------------------------------------------------------------------

pub open spec fn starts_with(s: Seq<char>, p: Seq<char>) -> bool {
    p.len() <= s.len() && s.take(p.len() as int) == p
}

pub open spec fn ends_with(s: Seq<char>, p: Seq<char>) -> bool {
    p.len() <= s.len() && s.skip(s.len() - p.len()) == p
}

/// Whether `p` occurs in `s` at index `i`.
pub open spec fn match_at(s: Seq<char>, p: Seq<char>, i: int) -> bool {
    0 <= i && i + p.len() <= s.len() && s.subrange(i, i + p.len()) == p
}

/// The first index at or after `i` where `p` occurs.
pub open spec fn find_from(s: Seq<char>, p: Seq<char>, i: int) -> Option<int>
    decreases s.len() + 1 - i,
{
    if i < 0 || i + p.len() > s.len() {
        None
    } else if match_at(s, p, i) {
        Some(i)
    } else {
        find_from(s, p, i + 1)
    }
}

/// `str::find` for a string pattern, in characters.
pub open spec fn find(s: Seq<char>, p: Seq<char>) -> Option<int> {
    find_from(s, p, 0)
}

/// `str::contains` for a string pattern.
pub open spec fn contains(s: Seq<char>, p: Seq<char>) -> bool {
    find(s, p) is Some
}

pub proof fn lemma_find_from_props(s: Seq<char>, p: Seq<char>, i: int)
    requires
        0 <= i,
    ensures
        find_from(s, p, i) matches Some(k) ==> i <= k && match_at(s, p, k) && forall|j: int|
            i <= j < k ==> !#[trigger] match_at(s, p, j),
        find_from(s, p, i) is None ==> forall|j: int| i <= j ==> !#[trigger] match_at(s, p, j),
    decreases s.len() + 1 - i,
{
    if i + p.len() > s.len() {
    } else if match_at(s, p, i) {
    } else {
        lemma_find_from_props(s, p, i + 1);
    }
}

pub fn starts_with_at(s: &Vec<char>, p: &Vec<char>, i: usize) -> (r: bool)
    requires
        i <= s@.len(),
    ensures
        r == match_at(s@, p@, i as int),
{
    let n = s.len();
    if p.len() > n - i {
        return false;
    }
    let mut k: usize = 0;
    while k < p.len()
        invariant
            n == s@.len(),
            i + p@.len() <= s@.len(),
            0 <= k <= p@.len(),
            forall|j: int| 0 <= j < k ==> s@[i + j] == p@[j],
        decreases p@.len() - k,
    {
        if s[i + k] != p[k] {
            assert(s@.subrange(i as int, i + p@.len())[k as int] != p@[k as int]);
            return false;
        }
        k = k + 1;
    }
    assert(s@.subrange(i as int, i + p@.len()) =~= p@);
    true
}

pub fn starts_with_exec(s: &Vec<char>, p: &Vec<char>) -> (r: bool)
    ensures
        r == starts_with(s@, p@),
{
    let r = starts_with_at(s, p, 0);
    assert(s@.subrange(0, p@.len() as int) =~= s@.take(p@.len() as int));
    r
}

pub fn ends_with_exec(s: &Vec<char>, p: &Vec<char>) -> (r: bool)
    ensures
        r == ends_with(s@, p@),
{
    if p.len() > s.len() {
        return false;
    }
    let r = starts_with_at(s, p, s.len() - p.len());
    assert(s@.subrange(s@.len() - p@.len(), s@.len() as int) =~= s@.skip(
        s@.len() - p@.len(),
    ));
    r
}

pub fn find_from_exec(s: &Vec<char>, p: &Vec<char>, i: usize) -> (r: Option<usize>)
    requires
        i <= s@.len(),
    ensures
        r matches Some(k) ==> find_from(s@, p@, i as int) == Some(k as int),
        r is None ==> find_from(s@, p@, i as int) is None,
{
    let mut k: usize = i;
    while p.len() <= s.len() - k
        invariant
            i <= k <= s@.len(),
            find_from(s@, p@, i as int) == find_from(s@, p@, k as int),
        decreases s@.len() + 1 - k,
    {
        if starts_with_at(s, p, k) {
            return Some(k);
        }
        if k == s.len() {
            assert(find_from(s@, p@, k + 1) is None);
            return None;
        }
        k = k + 1;
    }
    None
}

pub fn find_exec(s: &Vec<char>, p: &Vec<char>) -> (r: Option<usize>)
    ensures
        r matches Some(k) ==> find(s@, p@) == Some(k as int),
        r is None ==> find(s@, p@) is None,
{
    find_from_exec(s, p, 0)
}

pub fn contains_exec(s: &Vec<char>, p: &Vec<char>) -> (r: bool)
    ensures
        r == contains(s@, p@),
{
    find_exec(s, p).is_some()
}

/// Whether `s` contains the literal `p`.
pub fn contains_lit(s: &Vec<char>, p: &str) -> (r: bool)
    ensures
        r == contains(s@, p@),
{
    let pv = chars_of(p);
    contains_exec(s, &pv)
}

/// Whether `s` starts with the literal `p`.
pub fn starts_with_lit(s: &Vec<char>, p: &str) -> (r: bool)
    ensures
        r == starts_with(s@, p@),
{
    let pv = chars_of(p);
    starts_with_exec(s, &pv)
}

/// Whether `s` ends with the literal `p`.
pub fn ends_with_lit(s: &Vec<char>, p: &str) -> (r: bool)
    ensures
        r == ends_with(s@, p@),
{
    let pv = chars_of(p);
    ends_with_exec(s, &pv)
}

/// Index of the last occurrence of a character.
pub open spec fn rfind_char(s: Seq<char>, c: char) -> Option<int>
    decreases s.len(),
{
    if s.len() == 0 {
        None
    } else if s.last() == c {
        Some(s.len() - 1)
    } else {
        rfind_char(s.drop_last(), c)
    }
}

pub fn rfind_char_exec(s: &Vec<char>, c: char) -> (r: Option<usize>)
    ensures
        r matches Some(k) ==> rfind_char(s@, c) == Some(k as int),
        r is None ==> rfind_char(s@, c) is None,
{
    let mut j: usize = s.len();
    assert(s@.take(s@.len() as int) =~= s@);
    while j > 0
        invariant
            0 <= j <= s@.len(),
            rfind_char(s@, c) == rfind_char(s@.take(j as int), c),
        decreases j,
    {
        assert(s@.take(j as int).last() == s@[j - 1]);
        if s[j - 1] == c {
            return Some(j - 1);
        }
        assert(s@.take(j as int).drop_last() =~= s@.take(j - 1));
        j = j - 1;
    }
    None
}


// ---------------------------------------------------------------------------
// Splitting and joining
// ---------------------------------------------------------------------------

/// Index of the first character in the class, or the length when there is none.
pub open spec fn pos_in(s: Seq<char>, ws: bool, set: Seq<char>) -> nat
    decreases s.len(),
{
    if s.len() == 0 {
        0
    } else if in_class(s[0], ws, set) {
        0
    } else {
        1 + pos_in(s.drop_first(), ws, set)
    }
}

pub proof fn lemma_pos_in(s: Seq<char>, ws: bool, set: Seq<char>)
    ensures
        pos_in(s, ws, set) <= s.len(),
        pos_in(s, ws, set) < s.len() ==> in_class(s[pos_in(s, ws, set) as int], ws, set),
        forall|j: int| 0 <= j < pos_in(s, ws, set) ==> !in_class(#[trigger] s[j], ws, set),
    decreases s.len(),
{
    if s.len() > 0 && !in_class(s[0], ws, set) {
        lemma_pos_in(s.drop_first(), ws, set);
        assert forall|j: int| 0 <= j < pos_in(s, ws, set) implies !in_class(
            #[trigger] s[j],
            ws,
            set,
        ) by {
            if j > 0 {
                assert(s[j] == s.drop_first()[j - 1]);
            }
        }
    }
}

/// A line without a trailing carriage return.
pub open spec fn chomp_cr(line: Seq<char>) -> Seq<char> {
    if line.len() > 0 && line.last() == '\r' {
        line.drop_last()
    } else {
        line
    }
}

/// `str::lines`: split at `\n`, drop one `\r` before each `\n`, no final empty line.
pub open spec fn lines(s: Seq<char>) -> Seq<Seq<char>>
    decreases s.len(),
{
    if s.len() == 0 {
        Seq::empty()
    } else {
        let k = pos_in(s, false, seq!['\n']);
        if k >= s.len() {
            seq![s]
        } else {
            seq![chomp_cr(s.take(k as int))] + lines(s.skip(k + 1 as int))
        }
    }
}

/// `split` on a class of single characters (a `char` or `[char]` pattern).
pub open spec fn pieces(s: Seq<char>, ws: bool, set: Seq<char>) -> Seq<Seq<char>>
    decreases s.len(),
{
    let k = pos_in(s, ws, set);
    if k >= s.len() {
        seq![s]
    } else {
        seq![s.take(k as int)] + pieces(s.skip(k + 1 as int), ws, set)
    }
}

pub proof fn lemma_pieces_len(s: Seq<char>, ws: bool, set: Seq<char>)
    ensures
        pieces(s, ws, set).len() >= 1,
    decreases s.len(),
{
    let k = pos_in(s, ws, set);
    if k < s.len() {
        lemma_pieces_len(s.skip(k + 1 as int), ws, set);
    }
}

/// The non-empty elements, in order.
pub open spec fn non_empty(ps: Seq<Seq<char>>) -> Seq<Seq<char>>
    decreases ps.len(),
{
    if ps.len() == 0 {
        Seq::empty()
    } else if ps.last().len() == 0 {
        non_empty(ps.drop_last())
    } else {
        non_empty(ps.drop_last()).push(ps.last())
    }
}

/// `str::split_whitespace`.
pub open spec fn words(s: Seq<char>) -> Seq<Seq<char>> {
    non_empty(pieces(s, true, Seq::empty()))
}

/// A text with no character of the class.
pub open spec fn outside_class(s: Seq<char>, ws: bool, set: Seq<char>) -> bool {
    forall|j: int| 0 <= j < s.len() ==> !in_class(#[trigger] s[j], ws, set)
}

/// Splitting at a class character splits each side on its own.
proof fn lemma_pieces_concat(x: Seq<char>, c: char, y: Seq<char>, ws: bool, set: Seq<char>)
    requires
        in_class(c, ws, set),
    ensures
        pieces(x + seq![c] + y, ws, set) == pieces(x, ws, set) + pieces(y, ws, set),
    decreases x.len(),
{
    let s = x + seq![c] + y;
    lemma_pos_in(x, ws, set);
    lemma_pos_in(s, ws, set);
    let k = pos_in(x, ws, set);
    if k < x.len() {
        assert(s[k as int] == x[k as int]);
        assert forall|j: int| 0 <= j < k implies !in_class(#[trigger] s[j], ws, set) by {
            assert(s[j] == x[j]);
        }
        assert(pos_in(s, ws, set) == k);
        assert(s.take(k as int) =~= x.take(k as int));
        assert(s.skip(k + 1 as int) =~= x.skip(k + 1 as int) + seq![c] + y);
        lemma_pieces_concat(x.skip(k + 1 as int), c, y, ws, set);
        assert(pieces(x, ws, set) == seq![x.take(k as int)] + pieces(x.skip(k + 1 as int), ws, set));
        assert(pieces(s, ws, set) =~= seq![x.take(k as int)] + (pieces(x.skip(k + 1 as int), ws, set)
            + pieces(y, ws, set)));
    } else {
        assert(s[x.len() as int] == c);
        assert forall|j: int| 0 <= j < x.len() implies !in_class(#[trigger] s[j], ws, set) by {
            assert(s[j] == x[j]);
        }
        assert(pos_in(s, ws, set) == x.len());
        assert(s.take(x.len() as int) =~= x);
        assert(s.skip(x.len() + 1 as int) =~= y);
        assert(pieces(x, ws, set) == seq![x]);
    }
}

proof fn lemma_pieces_outside(x: Seq<char>, ws: bool, set: Seq<char>)
    requires
        outside_class(x, ws, set),
    ensures
        pieces(x, ws, set) == seq![x],
{
    lemma_pos_in(x, ws, set);
}

proof fn lemma_non_empty_single(x: Seq<char>)
    ensures
        non_empty(seq![x]) == (if x.len() == 0 {
            Seq::<Seq<char>>::empty()
        } else {
            seq![x]
        }),
{
    let e = Seq::<Seq<char>>::empty();
    assert(seq![x].drop_last() =~= e);
    assert(seq![x].last() == x);
    assert(non_empty(e) == e);
    assert(e.push(x) =~= seq![x]);
    if x.len() == 0 {
        assert(non_empty(seq![x]) == non_empty(e));
    } else {
        assert(non_empty(seq![x]) == non_empty(e).push(x));
    }
}

proof fn lemma_non_empty_concat(a: Seq<Seq<char>>, b: Seq<Seq<char>>)
    ensures
        non_empty(a + b) == non_empty(a) + non_empty(b),
    decreases b.len(),
{
    if b.len() == 0 {
        assert(a + b =~= a);
        assert(non_empty(a) + non_empty(b) =~= non_empty(a));
    } else {
        lemma_non_empty_concat(a, b.drop_last());
        assert((a + b).drop_last() =~= a + b.drop_last());
        assert((a + b).last() == b.last());
        if b.last().len() == 0 {
        } else {
            assert(non_empty(a + b) =~= non_empty(a) + non_empty(b.drop_last()).push(b.last()));
        }
    }
}

/// The words of texts joined by a single space are those texts again,
/// when each is a non-empty text without whitespace.
pub proof fn lemma_words_of_joined(ps: Seq<Seq<char>>)
    requires
        forall|i: int| 0 <= i < ps.len() ==> (#[trigger] ps[i]).len() > 0 && outside_class(ps[i], true, Seq::empty()),
    ensures
        words(join(ps, seq![' '])) == ps,
    decreases ps.len(),
{
    let e = Seq::<char>::empty();
    if ps.len() == 0 {
        lemma_pos_in(e, true, e);
        assert(pieces(e, true, e) == seq![e]);
        lemma_non_empty_single(e);
    } else if ps.len() == 1 {
        lemma_pieces_outside(ps[0], true, e);
        lemma_non_empty_single(ps[0]);
        assert(seq![ps[0]] =~= ps);
    } else {
        let init = ps.drop_last();
        lemma_words_of_joined(init);
        assert(is_ws(' ')) by {
            assert(' ' == ' ');
        }
        lemma_pieces_concat(join(init, seq![' ']), ' ', ps.last(), true, e);
        assert(join(ps, seq![' ']) == join(init, seq![' ']) + seq![' '] + ps.last());
        lemma_pieces_outside(ps.last(), true, e);
        lemma_non_empty_concat(pieces(join(init, seq![' ']), true, e), seq![ps.last()]);
        lemma_non_empty_single(ps.last());
        assert(init.push(ps.last()) =~= ps);
        assert(init + seq![ps.last()] =~= ps);
    }
}

proof fn lemma_pieces_outside_class(s: Seq<char>, ws: bool, set: Seq<char>)
    ensures
        forall|i: int| 0 <= i < pieces(s, ws, set).len() ==> outside_class(#[trigger] pieces(s, ws, set)[i], ws, set),
    decreases s.len(),
{
    lemma_pos_in(s, ws, set);
    let k = pos_in(s, ws, set);
    if k >= s.len() {
        assert(outside_class(s, ws, set));
    } else {
        let rest = s.skip(k + 1 as int);
        lemma_pieces_outside_class(rest, ws, set);
        let p = pieces(s, ws, set);
        assert(p == seq![s.take(k as int)] + pieces(rest, ws, set));
        assert forall|i: int| 0 <= i < p.len() implies outside_class(#[trigger] p[i], ws, set) by {
            if i == 0 {
                assert forall|j: int| 0 <= j < p[0].len() implies !in_class(#[trigger] p[0][j], ws, set) by {
                    assert(p[0][j] == s[j]);
                }
            } else {
                assert(p[i] == pieces(rest, ws, set)[i - 1]);
            }
        }
    }
}

proof fn lemma_non_empty_keeps(ps: Seq<Seq<char>>, ws: bool, set: Seq<char>)
    requires
        forall|i: int| 0 <= i < ps.len() ==> outside_class(#[trigger] ps[i], ws, set),
    ensures
        forall|i: int| 0 <= i < non_empty(ps).len() ==> (#[trigger] non_empty(ps)[i]).len() > 0
            && outside_class(non_empty(ps)[i], ws, set),
    decreases ps.len(),
{
    if ps.len() > 0 {
        let init = ps.drop_last();
        assert forall|i: int| 0 <= i < init.len() implies outside_class(#[trigger] init[i], ws, set) by {
            assert(init[i] == ps[i]);
        }
        lemma_non_empty_keeps(init, ws, set);
        let r = non_empty(ps);
        let q = non_empty(init);
        assert(outside_class(ps[ps.len() - 1], ws, set));
        assert forall|i: int| 0 <= i < r.len() implies (#[trigger] r[i]).len() > 0 && outside_class(r[i], ws, set) by {
            if i < q.len() {
                assert(r[i] == q[i]);
            }
        }
    }
}

/// Every word is a non-empty text without whitespace.
pub proof fn lemma_words_shape(s: Seq<char>)
    ensures
        forall|i: int| 0 <= i < words(s).len() ==> (#[trigger] words(s)[i]).len() > 0 && outside_class(words(s)[i], true, Seq::empty()),
{
    lemma_pieces_outside_class(s, true, Seq::empty());
    lemma_non_empty_keeps(pieces(s, true, Seq::empty()), true, Seq::empty());
}

/// Splitting a text into words and joining them with single spaces twice
/// gives what doing it once gives.
pub proof fn lemma_normalized_words_idempotent(s: Seq<char>)
    ensures
        join(words(join(words(s), seq![' '])), seq![' ']) == join(words(s), seq![' ']),
{
    lemma_words_shape(s);
    lemma_words_of_joined(words(s));
}

/// `split` on a non-empty string pattern, left to right.
pub open spec fn split_str(s: Seq<char>, pat: Seq<char>) -> Seq<Seq<char>>
    decreases s.len(),
{
    if pat.len() == 0 {
        seq![s]
    } else {
        match find(s, pat) {
            None => seq![s],
            Some(i) => {
                if 0 <= i && i + pat.len() <= s.len() {
                    seq![s.take(i)] + split_str(s.skip(i + pat.len()), pat)
                } else {
                    seq![s]
                }
            },
        }
    }
}

/// `join` of a list of strings with a separator.
pub open spec fn join(parts: Seq<Seq<char>>, sep: Seq<char>) -> Seq<char>
    decreases parts.len(),
{
    if parts.len() == 0 {
        Seq::empty()
    } else if parts.len() == 1 {
        parts[0]
    } else {
        join(parts.drop_last(), sep) + sep + parts.last()
    }
}

/// `str::replace` for a non-empty pattern.
pub open spec fn replace(s: Seq<char>, pat: Seq<char>, rep: Seq<char>) -> Seq<char> {
    join(split_str(s, pat), rep)
}

/// Views of a list of character vectors.
pub open spec fn views(v: Seq<Vec<char>>) -> Seq<Seq<char>> {
    v.map_values(|x: Vec<char>| x@)
}

/// Views of a list of strings.
pub open spec fn str_views(v: Seq<String>) -> Seq<Seq<char>> {
    v.map_values(|x: String| x@)
}

/// Index, at or after `from`, of the first character in the class (or the length).
pub fn pos_in_from(s: &Vec<char>, from: usize, ws: bool, set: &[char]) -> (r: usize)
    requires
        from <= s@.len(),
    ensures
        r == from + pos_in(s@.skip(from as int), ws, set@),
        from <= r <= s@.len(),
{
    let mut i: usize = from;
    while i < s.len() && !in_class_exec(s[i], ws, set)
        invariant
            from <= i <= s@.len(),
            pos_in(s@.skip(from as int), ws, set@) == (i - from) + pos_in(
                s@.skip(i as int),
                ws,
                set@,
            ),
        decreases s@.len() - i,
    {
        assert(s@.skip(i as int).drop_first() =~= s@.skip(i + 1));
        i = i + 1;
    }
    i
}

pub fn lines_exec(s: &Vec<char>) -> (r: Vec<Vec<char>>)
    ensures
        views(r@) == lines(s@),
{
    let nl: [char; 1] = ['\n'];
    assert(nl@ =~= seq!['\n']);
    let mut r: Vec<Vec<char>> = Vec::new();
    let mut start: usize = 0;
    assert(s@.skip(0) =~= s@);
    while start < s.len()
        invariant
            0 <= start <= s@.len(),
            nl@ == seq!['\n'],
            lines(s@) == views(r@) + lines(s@.skip(start as int)),
        decreases s@.len() - start,
    {
        let ghost t = s@.skip(start as int);
        let k = pos_in_from(s, start, false, &nl);
        let mut line = slice_of(s, start, k);
        assert(line@ =~= t.take(k - start));
        proof {
            lemma_pos_in(t, false, seq!['\n']);
        }
        let ghost old_r = views(r@);
        if k >= s.len() {
            r.push(line);
            assert(views(r@) =~= old_r.push(t));
            assert(t.take(k - start) =~= t);
            assert(lines(t) == seq![t]);
            start = s.len();
            assert(lines(s@.skip(start as int)) =~= Seq::<Seq<char>>::empty());
            assert(lines(s@) =~= views(r@) + lines(s@.skip(start as int)));
        } else {
            if line.len() > 0 && line[line.len() - 1] == '\r' {
                line.pop();
            }
            r.push(line);
            assert(views(r@) =~= old_r.push(chomp_cr(t.take(k - start))));
            assert(t.skip(k - start + 1) =~= s@.skip(k + 1));
            start = k + 1;
        }
    }
    assert(lines(s@.skip(start as int)) =~= Seq::<Seq<char>>::empty()) by {
        assert(s@.skip(start as int).len() == 0);
    }
    assert(lines(s@) =~= views(r@));
    r
}


pub fn pieces_exec(s: &Vec<char>, ws: bool, set: &[char]) -> (r: Vec<Vec<char>>)
    ensures
        views(r@) == pieces(s@, ws, set@),
{
    let mut r: Vec<Vec<char>> = Vec::new();
    let mut rest = slice_of(s, 0, s.len());
    assert(rest@ =~= s@);
    loop
        invariant
            pieces(s@, ws, set@) == views(r@) + pieces(rest@, ws, set@),
        decreases rest@.len(),
    {
        let k = pos_in_from(&rest, 0, ws, set);
        assert(rest@.skip(0) =~= rest@);
        let ghost old_r = views(r@);
        if k >= rest.len() {
            let last = slice_of(&rest, 0, rest.len());
            assert(last@ =~= rest@);
            r.push(last);
            assert(views(r@) =~= old_r.push(rest@));
            assert(pieces(s@, ws, set@) =~= views(r@));
            return r;
        }
        let head = slice_of(&rest, 0, k);
        let tail = slice_of(&rest, k + 1, rest.len());
        assert(head@ =~= rest@.take(k as int));
        assert(tail@ =~= rest@.skip(k + 1));
        r.push(head);
        assert(views(r@) =~= old_r.push(rest@.take(k as int)));
        assert(pieces(rest@, ws, set@) == seq![rest@.take(k as int)] + pieces(tail@, ws, set@));
        assert(pieces(s@, ws, set@) =~= views(r@) + pieces(tail@, ws, set@));
        rest = tail;
    }
}

pub fn non_empty_exec(ps: Vec<Vec<char>>) -> (r: Vec<Vec<char>>)
    ensures
        views(r@) == non_empty(views(ps@)),
{
    let mut r: Vec<Vec<char>> = Vec::new();
    let mut i: usize = 0;
    let ghost vs = views(ps@);
    while i < ps.len()
        invariant
            0 <= i <= ps@.len(),
            vs == views(ps@),
            views(r@) == non_empty(vs.take(i as int)),
        decreases ps@.len() - i,
    {
        assert(vs.take(i + 1).drop_last() =~= vs.take(i as int));
        assert(vs.take(i + 1).last() == ps@[i as int]@);
        if ps[i].len() > 0 {
            let ghost old_r = views(r@);
            r.push(slice_of(&ps[i], 0, ps[i].len()));
            assert(ps@[i as int]@.subrange(0, ps@[i as int]@.len() as int) =~= ps@[i as int]@);
            assert(views(r@) =~= old_r.push(ps@[i as int]@));
        }
        i = i + 1;
    }
    assert(vs.take(ps@.len() as int) =~= vs);
    r
}

/// `split_whitespace`.
pub fn words_exec(s: &Vec<char>) -> (r: Vec<Vec<char>>)
    ensures
        views(r@) == words(s@),
{
    let empty: [char; 0] = [];
    assert(empty@ =~= Seq::<char>::empty());
    let ps = pieces_exec(s, true, &empty);
    non_empty_exec(ps)
}

pub proof fn lemma_join_step(ps: Seq<Seq<char>>, sep: Seq<char>, i: int)
    requires
        1 <= i < ps.len(),
    ensures
        join(ps.take(i + 1), sep) == join(ps.take(i), sep) + sep + ps[i],
{
    assert(ps.take(i + 1).drop_last() =~= ps.take(i));
}

pub fn join_exec(parts: &Vec<Vec<char>>, sep: &Vec<char>) -> (r: Vec<char>)
    ensures
        r@ == join(views(parts@), sep@),
{
    let ghost vs = views(parts@);
    let mut r: Vec<char> = Vec::new();
    let mut i: usize = 0;
    while i < parts.len()
        invariant
            0 <= i <= parts@.len(),
            vs == views(parts@),
            r@ == join(vs.take(i as int), sep@),
        decreases parts@.len() - i,
    {
        if i == 0 {
            extend(&mut r, &parts[0]);
            assert(vs.take(1) =~= seq![vs[0]]);
            assert(r@ =~= join(vs.take(1), sep@));
        } else {
            extend(&mut r, sep);
            extend(&mut r, &parts[i]);
            proof {
                lemma_join_step(vs, sep@, i as int);
            }
        }
        i = i + 1;
    }
    assert(vs.take(parts@.len() as int) =~= vs);
    r
}

pub fn split_str_exec(s: &Vec<char>, pat: &Vec<char>) -> (r: Vec<Vec<char>>)
    requires
        pat@.len() > 0,
    ensures
        views(r@) == split_str(s@, pat@),
{
    let mut r: Vec<Vec<char>> = Vec::new();
    let mut rest = slice_of(s, 0, s.len());
    assert(rest@ =~= s@);
    loop
        invariant
            pat@.len() > 0,
            split_str(s@, pat@) == views(r@) + split_str(rest@, pat@),
        decreases rest@.len(),
    {
        let ghost old_r = views(r@);
        match find_exec(&rest, pat) {
            None => {
                let last = slice_of(&rest, 0, rest.len());
                assert(last@ =~= rest@);
                r.push(last);
                assert(views(r@) =~= old_r.push(rest@));
                assert(split_str(s@, pat@) =~= views(r@));
                return r;
            },
            Some(i) => {
                proof {
                    lemma_find_from_props(rest@, pat@, 0);
                }
                assert(match_at(rest@, pat@, i as int));
                let n = rest.len();
                let head = slice_of(&rest, 0, i);
                let tail = slice_of(&rest, i + pat.len(), n);
                assert(head@ =~= rest@.take(i as int));
                assert(tail@ =~= rest@.skip(i + pat@.len()));
                r.push(head);
                assert(views(r@) =~= old_r.push(rest@.take(i as int)));
                assert(split_str(s@, pat@) =~= views(r@) + split_str(tail@, pat@));
                rest = tail;
            },
        }
    }
}

/// `str::replace` on character vectors.
pub fn replace_exec(s: &Vec<char>, pat: &Vec<char>, rep: &Vec<char>) -> (r: Vec<char>)
    requires
        pat@.len() > 0,
    ensures
        r@ == replace(s@, pat@, rep@),
{
    let ps = split_str_exec(s, pat);
    join_exec(&ps, rep)
}

/// The list of strings made from a list of character vectors.
pub fn strings_of(v: &Vec<Vec<char>>) -> (r: Vec<String>)
    ensures
        str_views(r@) == views(v@),
{
    let mut r: Vec<String> = Vec::new();
    let mut i: usize = 0;
    while i < v.len()
        invariant
            0 <= i <= v@.len(),
            str_views(r@) == views(v@).take(i as int),
        decreases v@.len() - i,
    {
        let s = string_of(&v[i]);
        let ghost prev = r@;
        r.push(s);
        assert(str_views(r@) =~= str_views(prev).push(v@[i as int]@));
        assert(views(v@).take(i + 1) =~= views(v@).take(i as int).push(v@[i as int]@));
        i = i + 1;
    }
    assert(views(v@).take(v@.len() as int) =~= views(v@));
    r
}

/// The character vectors of a list of strings.
pub fn chars_of_all(v: &Vec<String>) -> (r: Vec<Vec<char>>)
    ensures
        views(r@) == str_views(v@),
{
    let mut r: Vec<Vec<char>> = Vec::new();
    let mut i: usize = 0;
    while i < v.len()
        invariant
            0 <= i <= v@.len(),
            views(r@) == str_views(v@).take(i as int),
        decreases v@.len() - i,
    {
        let c = chars_of(v[i].as_str());
        let ghost prev = r@;
        r.push(c);
        assert(views(r@) =~= views(prev).push(v@[i as int]@));
        assert(str_views(v@).take(i + 1) =~= str_views(v@).take(i as int).push(v@[i as int]@));
        i = i + 1;
    }
    assert(str_views(v@).take(v@.len() as int) =~= str_views(v@));
    r
}


// ---------------------------------------------------------------------------
// Selection, removal and decimal numbers
// ---------------------------------------------------------------------------

/// The elements that satisfy `p`, in order.
pub open spec fn keep<A>(s: Seq<A>, p: spec_fn(A) -> bool) -> Seq<A>
    decreases s.len(),
{
    if s.len() == 0 {
        s
    } else if p(s.last()) {
        keep(s.drop_last(), p).push(s.last())
    } else {
        keep(s.drop_last(), p)
    }
}

pub proof fn lemma_keep_len<A>(s: Seq<A>, p: spec_fn(A) -> bool)
    ensures
        keep(s, p).len() <= s.len(),
    decreases s.len(),
{
    if s.len() > 0 {
        lemma_keep_len(s.drop_last(), p);
    }
}

/// What `keep` keeps is in the sequence and passes the test.
pub proof fn lemma_keep_contains<A>(s: Seq<A>, p: spec_fn(A) -> bool)
    ensures
        forall|k: int| 0 <= k < keep(s, p).len() ==> s.contains(#[trigger] keep(s, p)[k]) && p(keep(s, p)[k]),
    decreases s.len(),
{
    if s.len() > 0 {
        lemma_keep_contains(s.drop_last(), p);
        let t = s.drop_last();
        assert forall|k: int| 0 <= k < keep(t, p).len() implies s.contains(#[trigger] keep(t, p)[k]) by {
            let m = choose|m: int| 0 <= m < t.len() && t[m] == keep(t, p)[k];
            assert(s[m] == t[m]);
        }
        if p(s.last()) {
            assert(s[s.len() - 1] == s.last());
        }
    }
}

/// The text without any occurrence of the character `c`.
pub open spec fn remove_char(s: Seq<char>, c: char) -> Seq<char>
    decreases s.len(),
{
    if s.len() == 0 {
        s
    } else if s.last() == c {
        remove_char(s.drop_last(), c)
    } else {
        remove_char(s.drop_last(), c).push(s.last())
    }
}

pub fn remove_char_exec(s: &Vec<char>, c: char) -> (r: Vec<char>)
    ensures
        r@ == remove_char(s@, c),
{
    let mut r: Vec<char> = Vec::new();
    let mut i: usize = 0;
    while i < s.len()
        invariant
            0 <= i <= s@.len(),
            r@ == remove_char(s@.take(i as int), c),
        decreases s@.len() - i,
    {
        assert(s@.take(i + 1).drop_last() =~= s@.take(i as int));
        if s[i] != c {
            r.push(s[i]);
        }
        i = i + 1;
    }
    assert(s@.take(s@.len() as int) =~= s@);
    r
}

pub open spec fn digit_chars() -> Seq<char> {
    seq!['0', '1', '2', '3', '4', '5', '6', '7', '8', '9']
}

/// The decimal digits of a number, as `to_string` writes them.
pub open spec fn decimal(n: nat) -> Seq<char>
    decreases n,
{
    if n < 10 {
        seq![digit_chars()[n as int]]
    } else {
        decimal(n / 10).push(digit_chars()[(n % 10) as int])
    }
}

pub fn decimal_exec(n: usize) -> (r: Vec<char>)
    ensures
        r@ == decimal(n as nat),
    decreases n,
{
    let d: [char; 10] = ['0', '1', '2', '3', '4', '5', '6', '7', '8', '9'];
    assert(d@ =~= digit_chars());
    if n < 10 {
        let mut r: Vec<char> = Vec::new();
        r.push(d[n]);
        assert(r@ =~= seq![digit_chars()[n as int]]);
        r
    } else {
        let mut r = decimal_exec(n / 10);
        r.push(d[n % 10]);
        r
    }
}

pub fn decimal_u64_exec(n: u64) -> (r: Vec<char>)
    ensures
        r@ == decimal(n as nat),
    decreases n,
{
    let d: [char; 10] = ['0', '1', '2', '3', '4', '5', '6', '7', '8', '9'];
    assert(d@ =~= digit_chars());
    if n < 10 {
        let mut r: Vec<char> = Vec::new();
        r.push(d[n as usize]);
        assert(r@ =~= seq![digit_chars()[n as int]]);
        r
    } else {
        let mut r = decimal_u64_exec(n / 10);
        r.push(d[(n % 10) as usize]);
        r
    }
}

/// A whole number as `to_string` writes it: a minus sign before the digits
/// of a negative number.
pub open spec fn signed_decimal(v: int) -> Seq<char> {
    if v < 0 {
        seq!['-'] + decimal((-v) as nat)
    } else {
        decimal(v as nat)
    }
}

pub fn signed_decimal_exec(v: i64) -> (r: Vec<char>)
    ensures
        r@ == signed_decimal(v as int),
{
    if v < 0 {
        let m: u64 = ((-(v + 1)) as u64) + 1;
        assert(m == -v);
        let mut r: Vec<char> = Vec::new();
        r.push('-');
        let d = decimal_u64_exec(m);
        extend(&mut r, &d);
        assert(r@ =~= seq!['-'] + decimal((-v) as nat));
        r
    } else {
        decimal_u64_exec(v as u64)
    }
}

} // verus!
