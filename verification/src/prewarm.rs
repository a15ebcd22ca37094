//! Choosing the headwords whose analyses are prepared ahead of time: by the
//! learning order or by a word-frequency list, leaving out names, letters,
//! abbreviations, variant spellings and form references.

use vstd::prelude::*;
use crate::dictionary::{array_field, contains_text, field_arr, field_str, is_lit, sense_tag_texts, str_field};
use crate::entry_form::{is_form_reference_entry, some_form_of_tag};
use crate::follow_up_answer::{strs_of, strs_of_exec};
use crate::json::JsonValue;
use crate::text::{
    ascii_lower, ascii_lower_exec, chars_of, find, find_exec, is_alphabetic, is_uppercase, lines,
    lines_exec, owned, same, slice_of, starts_with, starts_with_lit, str_views, string_of,
    to_lowercase, trim, trim_exec, unicode_alphabetic, unicode_lower, unicode_uppercase, views,
};

verus! {

/// Where the candidate headwords come from.
#[derive(Debug, Clone, Copy, PartialEq, Eq, Structural)]
pub enum PrewarmSelectionSource {
    LearningOrder,
    Frequency,
}

impl PrewarmSelectionSource {
    /// The source named by a setting: "frequency" in any case and with
    /// surrounding blanks selects the frequency list; anything else, or no
    /// setting, the learning order.
    pub fn from_setting(value: Option<&str>) -> (r: Self)
        ensures
            r == (if value is Some && ascii_lower(trim(value.unwrap()@)) == "frequency"@ {
                PrewarmSelectionSource::Frequency
            } else {
                PrewarmSelectionSource::LearningOrder
            }),
    {
        match value {
            Some(v) => {
                let c = chars_of(v);
                let t = trim_exec(&c);
                let l = ascii_lower_exec(&t);
                if is_lit(&l, "frequency") {
                    PrewarmSelectionSource::Frequency
                } else {
                    PrewarmSelectionSource::LearningOrder
                }
            },
            None => PrewarmSelectionSource::LearningOrder,
        }
    }

    pub fn as_str(self) -> (r: &'static str)
        ensures
            r@ == (match self {
                PrewarmSelectionSource::LearningOrder => "learning_order"@,
                PrewarmSelectionSource::Frequency => "frequency"@,
            }),
    {
        match self {
            PrewarmSelectionSource::LearningOrder => "learning_order",
            PrewarmSelectionSource::Frequency => "frequency",
        }
    }
}

/// `char::to_ascii_uppercase`.
pub open spec fn ascii_upper_char(c: char) -> char {
    if 'a' <= c && c <= 'z' {
        ((c as u32) - 32) as char
    } else {
        c
    }
}

pub open spec fn ascii_upper(s: Seq<char>) -> Seq<char> {
    s.map_values(|c: char| ascii_upper_char(c))
}

/// The rank of a CEFR level: A1 is 1 up to C2 at 6; none for anything
/// else.
pub open spec fn cefr_rank(v: Seq<char>) -> Option<i32> {
    let u = ascii_upper(trim(v));
    if u == "A1"@ {
        Some(1i32)
    } else if u == "A2"@ {
        Some(2i32)
    } else if u == "B1"@ {
        Some(3i32)
    } else if u == "B2"@ {
        Some(4i32)
    } else if u == "C1"@ {
        Some(5i32)
    } else if u == "C2"@ {
        Some(6i32)
    } else {
        None
    }
}

fn ascii_upper_exec(s: &Vec<char>) -> (r: Vec<char>)
    ensures
        r@ == ascii_upper(s@),
{
    let mut r: Vec<char> = Vec::new();
    let mut i: usize = 0;
    while i < s.len()
        invariant
            0 <= i <= s@.len(),
            r@ =~= s@.take(i as int).map_values(|c: char| ascii_upper_char(c)),
        decreases s@.len() - i,
    {
        let c = s[i];
        let u = if 'a' <= c && c <= 'z' {
            let b: u8 = ((c as u32) - 32) as u8;
            b as char
        } else {
            c
        };
        r.push(u);
        assert(s@.take(i + 1).map_values(|c: char| ascii_upper_char(c)) =~= s@.take(
            i as int,
        ).map_values(|c: char| ascii_upper_char(c)).push(ascii_upper_char(c)));
        i = i + 1;
    }
    assert(s@.take(s@.len() as int) =~= s@);
    r
}

/// The highest CEFR level a learning-order selection takes.
pub fn max_cefr_rank(value: Option<&str>) -> (r: Option<i32>)
    ensures
        value is None ==> r is None,
        value is Some ==> r == cefr_rank(value.unwrap()@),
{
    let v = match value {
        Some(v) => v,
        None => {
            return None;
        },
    };
    let c = chars_of(v);
    let t = trim_exec(&c);
    let u = ascii_upper_exec(&t);
    if is_lit(&u, "A1") {
        Some(1)
    } else if is_lit(&u, "A2") {
        Some(2)
    } else if is_lit(&u, "B1") {
        Some(3)
    } else if is_lit(&u, "B2") {
        Some(4)
    } else if is_lit(&u, "C1") {
        Some(5)
    } else if is_lit(&u, "C2") {
        Some(6)
    } else {
        None
    }
}

/// How many headwords a learning-order selection fetches for `limit`
/// picks: 64 per pick, at least one pick, at most 5000.
pub fn learning_order_fetch_limit(limit: usize) -> (r: i64)
    ensures
        r == (if (if limit >= 1 { limit as int } else { 1 }) * 64 <= 5000 {
            (if limit >= 1 { limit as int } else { 1 }) * 64
        } else {
            5000
        }),
{
    let l: usize = if limit >= 1 { limit } else { 1 };
    if l <= 78 {
        (l * 64) as i64
    } else {
        5000
    }
}

// ---------------------------------------------------------------------------
// Which entries are left out
// ---------------------------------------------------------------------------

/// The letters of a text.
pub open spec fn letters(s: Seq<char>) -> Seq<char> {
    crate::text::keep(s, |c: char| unicode_alphabetic(c))
}

/// A short word in capitals: one to four letters, all upper case.
pub open spec fn short_all_caps(s: Seq<char>) -> bool {
    let l = letters(s);
    l.len() > 0 && l.len() <= 4 && forall|i: int| 0 <= i < l.len() ==> unicode_uppercase(#[trigger] l[i])
}

fn letters_exec(s: &Vec<char>) -> (r: Vec<char>)
    ensures
        r@ == letters(s@),
{
    let mut r: Vec<char> = Vec::new();
    let mut i: usize = 0;
    while i < s.len()
        invariant
            0 <= i <= s@.len(),
            r@ == letters(s@.take(i as int)),
        decreases s@.len() - i,
    {
        assert(s@.take(i + 1).drop_last() =~= s@.take(i as int));
        assert(s@.take(i + 1).last() == s@[i as int]);
        if is_alphabetic(s[i]) {
            r.push(s[i]);
        }
        i = i + 1;
    }
    assert(s@.take(s@.len() as int) =~= s@);
    r
}

pub fn is_short_all_caps(word: &str) -> (r: bool)
    ensures
        r == short_all_caps(word@),
{
    let w = chars_of(word);
    let l = letters_exec(&w);
    if l.len() == 0 || l.len() > 4 {
        return false;
    }
    let mut i: usize = 0;
    while i < l.len()
        invariant
            0 <= i <= l@.len(),
            l@ == letters(word@),
            0 < l@.len() <= 4,
            forall|j: int| 0 <= j < i ==> unicode_uppercase(#[trigger] l@[j]),
        decreases l@.len() - i,
    {
        if !is_uppercase(l[i]) {
            assert(!unicode_uppercase(l@[i as int]));
            return false;
        }
        i = i + 1;
    }
    true
}

/// A word from a frequency list worth looking up: two letters or more, and
/// not a short word in capitals.
pub open spec fn frequency_token(w: Seq<char>) -> bool {
    letters(w).len() >= 2 && !short_all_caps(w)
}

pub fn looks_like_frequency_token(word: &str) -> (r: bool)
    ensures
        r == frequency_token(word@),
{
    let w = chars_of(word);
    let l = letters_exec(&w);
    l.len() >= 2 && !is_short_all_caps(word)
}

pub open spec fn has_tag(tags: Seq<Seq<char>>, t: Seq<char>) -> bool {
    tags.contains(t)
}

/// An entry left out of the selection: a name or character, a form
/// reference, a letter, initialism or acronym, an abbreviation in short
/// capitals, a variant spelling or contraction of a longer word, or a
/// colloquial variant or contraction.
pub open spec fn skip_prewarm(headword: Seq<char>, raw: JsonValue) -> bool {
    let pos = ascii_lower(
        match field_str(raw, "pos"@) {
            Some(p) => p,
            None => Seq::empty(),
        },
    );
    let tags = sense_tag_texts(field_arr(raw, "senses"@));
    ||| pos == "name"@
    ||| pos == "character"@
    ||| some_form_of_tag(field_arr(raw, "senses"@))
    ||| has_tag(tags, "letter"@)
    ||| has_tag(tags, "uppercase"@)
    ||| has_tag(tags, "initialism"@)
    ||| has_tag(tags, "acronym"@)
    ||| (has_tag(tags, "abbreviation"@) && short_all_caps(headword))
    ||| (letters(headword).len() > 2 && (has_tag(tags, "alt-of"@) || has_tag(tags, "alternative"@)
        || has_tag(tags, "contraction"@)))
    ||| (has_tag(tags, "colloquial"@) && (has_tag(tags, "alt-of"@) || has_tag(
        tags,
        "contraction"@,
    )))
}

fn all_sense_tags(raw: &JsonValue) -> (r: Vec<Vec<char>>)
    ensures
        views(r@) == sense_tag_texts(field_arr(*raw, "senses"@)),
{
    let ghost ss = field_arr(*raw, "senses"@);
    let mut all: Vec<Vec<char>> = Vec::new();
    match array_field(raw, "senses") {
        Some(senses) => {
            let mut i: usize = 0;
            while i < senses.len()
                invariant
                    0 <= i <= senses@.len(),
                    ss == senses@,
                    views(all@) == sense_tag_texts(ss.take(i as int)),
                decreases senses@.len() - i,
            {
                assert(ss.take(i + 1).drop_last() =~= ss.take(i as int));
                assert(ss.take(i + 1).last() == ss[i as int]);
                let ts: Vec<Vec<char>> = match array_field(&senses[i], "tags") {
                    Some(tags) => strs_of_exec(tags),
                    None => {
                        let e: Vec<Vec<char>> = Vec::new();
                        assert(views(e@) =~= strs_of(Seq::<JsonValue>::empty()));
                        e
                    },
                };
                let ghost before = views(all@);
                let mut j: usize = 0;
                while j < ts.len()
                    invariant
                        0 <= j <= ts@.len(),
                        views(all@) == before + views(ts@).take(j as int),
                    decreases ts@.len() - j,
                {
                    let x = slice_of(&ts[j], 0, ts[j].len());
                    assert(x@ =~= views(ts@)[j as int]);
                    let ghost xv = x@;
                    let ghost prev = all@;
                    all.push(x);
                    assert(views(all@) =~= views(prev).push(xv));
                    assert(views(all@) =~= before + views(ts@).take(j + 1));
                    j = j + 1;
                }
                assert(views(ts@).take(ts@.len() as int) =~= views(ts@));
                i = i + 1;
            }
            assert(ss.take(senses@.len() as int) =~= ss);
        },
        None => {
            assert(ss =~= Seq::<JsonValue>::empty());
            assert(views(all@) =~= sense_tag_texts(ss));
        },
    }
    all
}

pub fn should_skip_prewarm_entry(headword: &str, raw_data: &JsonValue) -> (r: bool)
    ensures
        r == skip_prewarm(headword@, *raw_data),
{
    let p = match str_field(raw_data, "pos") {
        Some(p) => chars_of(p),
        None => Vec::new(),
    };
    let pos = ascii_lower_exec(&p);
    if is_lit(&pos, "name") || is_lit(&pos, "character") {
        return true;
    }
    if is_form_reference_entry(raw_data) {
        return true;
    }
    let tags = all_sense_tags(raw_data);
    if contains_text(&tags, "letter") || contains_text(&tags, "uppercase") || contains_text(
        &tags,
        "initialism",
    ) || contains_text(&tags, "acronym") {
        return true;
    }
    if contains_text(&tags, "abbreviation") && is_short_all_caps(headword) {
        return true;
    }
    let h = chars_of(headword);
    let l = letters_exec(&h);
    if l.len() > 2 && (contains_text(&tags, "alt-of") || contains_text(&tags, "alternative")
        || contains_text(&tags, "contraction")) {
        return true;
    }
    contains_text(&tags, "colloquial") && (contains_text(&tags, "alt-of") || contains_text(
        &tags,
        "contraction",
    ))
}

// ---------------------------------------------------------------------------
// The frequency list
// ---------------------------------------------------------------------------

/// The word of a line of the frequency list: the text before the first
/// comma, or the whole line, trimmed.
pub open spec fn line_word(line: Seq<char>) -> Seq<char> {
    match find(line, ","@) {
        Some(k) => trim(line.take(k)),
        None => trim(line),
    }
}

/// The candidate words of the first `n` lines: the header line is skipped,
/// then every word worth looking up whose lower-case form was not seen
/// before, in order.
pub open spec fn frequency_words(ls: Seq<Seq<char>>, n: nat) -> Seq<Seq<char>>
    decreases n,
{
    if n == 0 || n > ls.len() {
        Seq::empty()
    } else {
        let prev = frequency_words(ls, (n - 1) as nat);
        let line = ls[n - 1];
        if n == 1 && starts_with(line, "word,"@) {
            prev
        } else {
            let w = line_word(line);
            if w.len() == 0 || !frequency_token(w) || prev.map_values(|x: Seq<char>| unicode_lower(x)).contains(
                unicode_lower(w),
            ) {
                prev
            } else {
                prev.push(w)
            }
        }
    }
}

/// The candidate words of a frequency list, in list order; each one counts
/// as scanned when it is looked up.
pub fn frequency_candidates(content: &str) -> (r: Vec<String>)
    ensures
        str_views(r@) == frequency_words(lines(content@), lines(content@).len()),
{
    let c = chars_of(content);
    let ls = lines_exec(&c);
    let ghost lv = views(ls@);
    let comma = chars_of(",");
    let mut out: Vec<String> = Vec::new();
    let mut seen: Vec<Vec<char>> = Vec::new();
    let mut i: usize = 0;
    while i < ls.len()
        invariant
            0 <= i <= ls@.len(),
            lv == views(ls@),
            lv == lines(content@),
            comma@ == ","@,
            str_views(out@) == frequency_words(lv, i as nat),
            views(seen@) == str_views(out@).map_values(|x: Seq<char>| unicode_lower(x)),
        decreases ls@.len() - i,
    {
        assert(lv[i as int] == ls@[i as int]@);
        let line = &ls[i];
        let header = i == 0 && starts_with_lit(line, "word,");
        if !header {
            let w = match find_exec(line, &comma) {
                Some(k) => {
                    proof {
                        crate::text::lemma_find_from_props(line@, comma@, 0);
                    }
                    let head = slice_of(line, 0, k);
                    trim_exec(&head)
                },
                None => trim_exec(line),
            };
            let ws = string_of(&w);
            if w.len() > 0 && looks_like_frequency_token(ws.as_str()) {
                let lower = to_lowercase(ws.as_str());
                let lc = chars_of(lower.as_str());
                let mut found = false;
                let mut j: usize = 0;
                while j < seen.len()
                    invariant
                        0 <= j <= seen@.len(),
                        found <==> exists|m: int| 0 <= m < j && views(seen@)[m] == lc@,
                    decreases seen@.len() - j,
                {
                    assert(views(seen@)[j as int] == seen@[j as int]@);
                    if same(&seen[j], &lc) {
                        found = true;
                    }
                    j = j + 1;
                }
                let ghost names = views(seen@);
                assert(found <==> names.contains(lc@)) by {
                    if names.contains(lc@) {
                        let m = choose|m: int| 0 <= m < names.len() && names[m] == lc@;
                        assert(m < j);
                    }
                }
                if !found {
                    let ghost before = out@;
                    let ghost bs = seen@;
                    let ghost lv2 = lc@;
                    seen.push(lc);
                    out.push(ws);
                    assert(str_views(out@) =~= str_views(before).push(w@));
                    assert(views(seen@) =~= views(bs).push(lv2));
                    assert(str_views(out@).map_values(|x: Seq<char>| unicode_lower(x)) =~= str_views(
                        before,
                    ).map_values(|x: Seq<char>| unicode_lower(x)).push(unicode_lower(w@)));
                }
            }
        }
        i = i + 1;
    }
    out
}

/// The first index from `i` on whose headword folds to `lw` in lower case.
pub open spec fn lower_match_from(hs: Seq<Seq<char>>, lw: Seq<char>, i: int) -> Option<int>
    decreases hs.len() - i,
{
    if i < 0 || i >= hs.len() {
        None
    } else if unicode_lower(hs[i]) == lw {
        Some(i)
    } else {
        lower_match_from(hs, lw, i + 1)
    }
}

/// The headword a frequency word stands for: itself when it is a
/// headword, else the first headword (in the given order) that equals it
/// in lower case.
pub open spec fn frequency_headword(word: Seq<char>, hs: Seq<Seq<char>>) -> Option<Seq<char>> {
    if hs.contains(word) {
        Some(word)
    } else {
        match lower_match_from(hs, unicode_lower(word), 0) {
            Some(k) => Some(hs[k]),
            None => None,
        }
    }
}

pub fn resolve_frequency_headword(word: &str, headwords: &Vec<String>) -> (r: Option<String>)
    ensures
        r matches Some(h) ==> frequency_headword(word@, str_views(headwords@)) == Some(h@),
        r is None ==> frequency_headword(word@, str_views(headwords@)) is None,
{
    let ghost hs = str_views(headwords@);
    let w = chars_of(word);
    let mut i: usize = 0;
    while i < headwords.len()
        invariant
            0 <= i <= headwords@.len(),
            hs == str_views(headwords@),
            w@ == word@,
            forall|j: int| 0 <= j < i ==> hs[j] != word@,
        decreases headwords@.len() - i,
    {
        let h = chars_of(headwords[i].as_str());
        assert(hs[i as int] == headwords@[i as int]@);
        if same(&h, &w) {
            assert(hs.contains(word@));
            return Some(owned(word));
        }
        i = i + 1;
    }
    assert(!hs.contains(word@));
    let lw = chars_of(to_lowercase(word).as_str());
    let mut k: usize = 0;
    while k < headwords.len()
        invariant
            0 <= k <= headwords@.len(),
            hs == str_views(headwords@),
            lw@ == unicode_lower(word@),
            !hs.contains(word@),
            lower_match_from(hs, lw@, 0) == lower_match_from(hs, lw@, k as int),
        decreases headwords@.len() - k,
    {
        let l = chars_of(to_lowercase(headwords[k].as_str()).as_str());
        assert(hs[k as int] == headwords@[k as int]@);
        if same(&l, &lw) {
            return Some(owned(headwords[k].as_str()));
        }
        k = k + 1;
    }
    None
}

// ---------------------------------------------------------------------------
// The selection
// ---------------------------------------------------------------------------

/// No text occurs twice.
pub open spec fn no_repeats(s: Seq<Seq<char>>) -> bool {
    forall|i: int, j: int| 0 <= i < j < s.len() ==> s[i] != s[j]
}

/// A selection in progress: the headwords picked, how many candidates were
/// scanned, how many headwords are wanted, and the lower-case forms of the
/// headwords picked from the frequency list.
#[derive(Debug)]
pub struct PrewarmSelection {
    pub headwords: Vec<String>,
    pub scanned: usize,
    pub limit: usize,
    pub seen: Vec<String>,
}

impl PrewarmSelection {
    pub fn new(limit: usize) -> (r: Self)
        ensures
            r.headwords@.len() == 0,
            r.scanned == 0,
            r.limit == limit,
            r.seen@.len() == 0,
    {
        PrewarmSelection { headwords: Vec::new(), scanned: 0, limit, seen: Vec::new() }
    }

    /// Counts one more candidate as scanned.
    pub fn count_scanned(&mut self)
        requires
            old(self).scanned < usize::MAX,
        ensures
            final(self).scanned == old(self).scanned + 1,
            final(self).headwords == old(self).headwords,
            final(self).limit == old(self).limit,
            final(self).seen == old(self).seen,
    {
        self.scanned = self.scanned + 1;
    }

    /// Offers the dictionary entry of a learning-order candidate: it is
    /// picked unless the skip rule leaves it out. Answers whether the
    /// selection is done: a headword was picked and the limit reached.
    pub fn offer_learning_order(&mut self, headword: &str, raw_data: &JsonValue) -> (done: bool)
        ensures
            final(self).scanned == old(self).scanned,
            final(self).limit == old(self).limit,
            final(self).seen == old(self).seen,
            skip_prewarm(headword@, *raw_data) ==> str_views(final(self).headwords@) == str_views(
                old(self).headwords@,
            ) && !done,
            !skip_prewarm(headword@, *raw_data) ==> str_views(final(self).headwords@) == str_views(
                old(self).headwords@,
            ).push(headword@) && done == (final(self).headwords@.len() >= final(self).limit),
    {
        if should_skip_prewarm_entry(headword, raw_data) {
            return false;
        }
        let ghost before = self.headwords@;
        self.headwords.push(owned(headword));
        assert(str_views(self.headwords@) =~= str_views(before).push(headword@));
        self.headwords.len() >= self.limit
    }

    /// Offers the dictionary entry of a frequency candidate: it is picked
    /// unless the skip rule leaves it out or a headword equal to it in
    /// lower case was picked before. Answers whether the selection is done.
    pub fn offer_frequency(&mut self, headword: &str, raw_data: &JsonValue) -> (done: bool)
        ensures
            final(self).scanned == old(self).scanned,
            final(self).limit == old(self).limit,
            (skip_prewarm(headword@, *raw_data) || str_views(old(self).seen@).contains(
                unicode_lower(headword@),
            )) ==> str_views(final(self).headwords@) == str_views(old(self).headwords@)
                && str_views(final(self).seen@) == str_views(old(self).seen@) && !done,
            !(skip_prewarm(headword@, *raw_data) || str_views(old(self).seen@).contains(
                unicode_lower(headword@),
            )) ==> str_views(final(self).headwords@) == str_views(old(self).headwords@).push(
                headword@,
            ) && str_views(final(self).seen@) == str_views(old(self).seen@).push(
                unicode_lower(headword@),
            ) && done == (final(self).headwords@.len() >= final(self).limit),
            no_repeats(str_views(old(self).seen@)) ==> no_repeats(str_views(final(self).seen@)),
    {
        if should_skip_prewarm_entry(headword, raw_data) {
            return false;
        }
        let lower = to_lowercase(headword);
        let lc = chars_of(lower.as_str());
        let ghost sv = str_views(self.seen@);
        let mut j: usize = 0;
        while j < self.seen.len()
            invariant
                0 <= j <= self.seen@.len(),
                sv == str_views(self.seen@),
                lc@ == unicode_lower(headword@),
                forall|m: int| 0 <= m < j ==> sv[m] != lc@,
            decreases self.seen@.len() - j,
        {
            let s = chars_of(self.seen[j].as_str());
            assert(sv[j as int] == self.seen@[j as int]@);
            if same(&s, &lc) {
                assert(sv.contains(lc@));
                return false;
            }
            j = j + 1;
        }
        assert(!sv.contains(lc@));
        let ghost before = self.headwords@;
        let ghost bs = self.seen@;
        self.seen.push(lower);
        self.headwords.push(owned(headword));
        assert(str_views(self.headwords@) =~= str_views(before).push(headword@));
        assert(str_views(self.seen@) =~= str_views(bs).push(unicode_lower(headword@)));
        self.headwords.len() >= self.limit
    }
}

/// The headwords picked, how many candidates were scanned, and from where.
#[derive(Debug)]
pub struct PrewarmSelectionReport {
    pub headwords: Vec<String>,
    pub scanned_candidates: usize,
    pub source: PrewarmSelectionSource,
}

impl PrewarmSelection {
    pub fn report(self, source: PrewarmSelectionSource) -> (r: PrewarmSelectionReport)
        ensures
            r.headwords == self.headwords,
            r.scanned_candidates == self.scanned,
            r.source == source,
    {
        PrewarmSelectionReport { headwords: self.headwords, scanned_candidates: self.scanned, source }
    }
}

} // verus!
