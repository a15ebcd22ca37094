//! What the lexeme index reads from a dictionary entry: surfaces, forms,
//! the words an entry is a form of, and the entry without obsolete senses.

use vstd::prelude::*;
use crate::dictionary::{array_field, field_arr, field_str, str_field};
use crate::entry_form::senses_index_from;
use crate::facts::{insert_sorted, strictly_sorted};
use crate::follow_up_answer::{strs_of, strs_of_exec};
use crate::json::{json_get, JsonValue};
use crate::query_match::german_candidate;
use crate::query_suggestions::text_lt;
use crate::text::{
    chars_of, is_blank, owned, same, str_views, string_of, to_lowercase, trim, trim_exec,
    unicode_lower, views,
};

verus! {

/// `r` is the sorted set of `vals`: increasing, without repeats, with the
/// same texts.
pub open spec fn sorted_set(r: Seq<Seq<char>>, vals: Seq<Seq<char>>) -> bool {
    strictly_sorted(r) && forall|v: Seq<char>| r.contains(v) <==> vals.contains(v)
}

proof fn lemma_push_contains(prev: Seq<Seq<char>>, t: Seq<char>)
    ensures
        forall|v: Seq<char>| prev.push(t).contains(v) <==> (prev.contains(v) || v == t),
{
    assert forall|v: Seq<char>| prev.push(t).contains(v) <==> (prev.contains(v) || v == t) by {
        if prev.push(t).contains(v) {
            let k = choose|k: int| 0 <= k < prev.push(t).len() && prev.push(t)[k] == v;
            if k < prev.len() {
                assert(prev[k] == v);
            }
        }
        if prev.contains(v) {
            let k = choose|k: int| 0 <= k < prev.len() && prev[k] == v;
            assert(prev.push(t)[k] == v);
        }
        if v == t {
            assert(prev.push(t)[prev.len() as int] == v);
        }
    }
}

// ---------------------------------------------------------------------------
// Tags and form references
// ---------------------------------------------------------------------------

/// Whether some sense carries the tag.
pub open spec fn has_sense_tag(entry: JsonValue, tag: Seq<char>) -> bool {
    exists|i: int|
        0 <= i < field_arr(entry, "senses"@).len() && strs_of(
            field_arr(#[trigger] field_arr(entry, "senses"@)[i], "tags"@),
        ).contains(tag)
}

pub fn sense_has_tag(entry: &JsonValue, tag_name: &str) -> (r: bool)
    ensures
        r == has_sense_tag(*entry, tag_name@),
{
    let ghost ss = field_arr(*entry, "senses"@);
    let senses = match array_field(entry, "senses") {
        Some(s) => s,
        None => {
            return false;
        },
    };
    let mut i: usize = 0;
    while i < senses.len()
        invariant
            0 <= i <= senses@.len(),
            ss == senses@,
            ss == field_arr(*entry, "senses"@),
            forall|j: int| 0 <= j < i ==> !strs_of(field_arr(#[trigger] ss[j], "tags"@)).contains(tag_name@),
        decreases senses@.len() - i,
    {
        let tags: Vec<Vec<char>> = match array_field(&senses[i], "tags") {
            Some(ts) => strs_of_exec(ts),
            None => {
                let e: Vec<Vec<char>> = Vec::new();
                assert(views(e@) =~= strs_of(Seq::<JsonValue>::empty()));
                e
            },
        };
        let t = chars_of(tag_name);
        let mut k: usize = 0;
        while k < tags.len()
            invariant
                0 <= k <= tags@.len(),
                t@ == tag_name@,
                i < ss.len(),
                ss == field_arr(*entry, "senses"@),
                views(tags@) == strs_of(field_arr(ss[i as int], "tags"@)),
                forall|m: int| 0 <= m < k ==> views(tags@)[m] != tag_name@,
            decreases tags@.len() - k,
        {
            assert(views(tags@)[k as int] == tags@[k as int]@);
            if same(&tags[k], &t) {
                assert(views(tags@).contains(tag_name@));
                assert(strs_of(field_arr(field_arr(*entry, "senses"@)[i as int], "tags"@)).contains(tag_name@));
                return true;
            }
            k = k + 1;
        }
        i = i + 1;
    }
    false
}

/// The words the senses say the entry is a form of, sense by sense.
pub open spec fn form_of_words(ss: Seq<JsonValue>) -> Seq<Seq<char>>
    decreases ss.len(),
{
    if ss.len() == 0 {
        Seq::empty()
    } else {
        form_of_words(ss.drop_last()) + item_words(field_arr(ss.last(), "form_of"@))
    }
}

/// The "word" texts of the items, in order.
pub open spec fn item_words(items: Seq<JsonValue>) -> Seq<Seq<char>>
    decreases items.len(),
{
    if items.len() == 0 {
        Seq::empty()
    } else {
        match field_str(items.last(), "word"@) {
            Some(w) => item_words(items.drop_last()).push(w),
            None => item_words(items.drop_last()),
        }
    }
}

/// The words an entry is a form of, sorted and without repeats.
pub fn extract_form_of_words(entry: &JsonValue) -> (r: Vec<String>)
    ensures
        sorted_set(str_views(r@), form_of_words(field_arr(*entry, "senses"@))),
{
    let ghost ss = field_arr(*entry, "senses"@);
    let mut set: Vec<Vec<char>> = Vec::new();
    match array_field(entry, "senses") {
        Some(senses) => {
            let mut i: usize = 0;
            while i < senses.len()
                invariant
                    0 <= i <= senses@.len(),
                    ss == senses@,
                    strictly_sorted(views(set@)),
                    forall|v: Seq<char>| views(set@).contains(v) <==> form_of_words(ss.take(i as int)).contains(v),
                decreases senses@.len() - i,
            {
                assert(ss.take(i + 1).drop_last() =~= ss.take(i as int));
                assert(ss.take(i + 1).last() == senses@[i as int]);
                let ghost base = form_of_words(ss.take(i as int));
                let ghost items = field_arr(ss[i as int], "form_of"@);
                match array_field(&senses[i], "form_of") {
                    Some(xs) => {
                        let mut j: usize = 0;
                        while j < xs.len()
                            invariant
                                0 <= j <= xs@.len(),
                                items == xs@,
                                strictly_sorted(views(set@)),
                                forall|v: Seq<char>| views(set@).contains(v) <==> (base + item_words(
                                    items.take(j as int),
                                )).contains(v),
                            decreases xs@.len() - j,
                        {
                            assert(items.take(j + 1).drop_last() =~= items.take(j as int));
                            assert(items.take(j + 1).last() == xs@[j as int]);
                            let ghost before = base + item_words(items.take(j as int));
                            match str_field(&xs[j], "word") {
                                Some(w) => {
                                    let wc = chars_of(w);
                                    insert_sorted(&mut set, wc);
                                    assert(base + item_words(items.take(j + 1)) =~= before.push(w@));
                                    proof {
                                        lemma_push_contains(before, w@);
                                    }
                                },
                                None => {
                                    assert(base + item_words(items.take(j + 1)) =~= before);
                                },
                            }
                            j = j + 1;
                        }
                        assert(items.take(xs@.len() as int) =~= items);
                        assert(form_of_words(ss.take(i + 1)) == base + item_words(items));
                    },
                    None => {
                        assert(items =~= Seq::<JsonValue>::empty());
                        assert(form_of_words(ss.take(i + 1)) =~= base);
                    },
                }
                i = i + 1;
            }
            assert(ss.take(senses@.len() as int) =~= ss);
        },
        None => {
            assert(ss =~= Seq::<JsonValue>::empty());
        },
    }
    crate::dictionary::strings_of_views(&set)
}

/// A form of the table markers, not a word.
pub open spec fn noise_form(form: JsonValue) -> bool {
    let tags = strs_of(field_arr(form, "tags"@));
    tags.contains("table-tags"@) || tags.contains("inflection-template"@) || tags.contains("class"@)
}

/// The trimmed, non-blank texts of the forms that are not table markers.
pub open spec fn entry_forms(fs: Seq<JsonValue>) -> Seq<Seq<char>>
    decreases fs.len(),
{
    if fs.len() == 0 {
        Seq::empty()
    } else {
        let prev = entry_forms(fs.drop_last());
        let f = fs.last();
        if noise_form(f) {
            prev
        } else {
            match field_str(f, "form"@) {
                Some(t) => if trim(t).len() > 0 {
                    prev.push(trim(t))
                } else {
                    prev
                },
                None => prev,
            }
        }
    }
}

/// The forms of an entry, sorted and without repeats.
pub fn extract_forms(entry: &JsonValue) -> (r: Vec<String>)
    ensures
        sorted_set(str_views(r@), entry_forms(field_arr(*entry, "forms"@))),
{
    let ghost fs = field_arr(*entry, "forms"@);
    let mut set: Vec<Vec<char>> = Vec::new();
    match array_field(entry, "forms") {
        Some(items) => {
            let mut i: usize = 0;
            while i < items.len()
                invariant
                    0 <= i <= items@.len(),
                    fs == items@,
                    strictly_sorted(views(set@)),
                    forall|v: Seq<char>| views(set@).contains(v) <==> entry_forms(fs.take(i as int)).contains(v),
                decreases items@.len() - i,
            {
                assert(fs.take(i + 1).drop_last() =~= fs.take(i as int));
                assert(fs.take(i + 1).last() == items@[i as int]);
                let ghost before = entry_forms(fs.take(i as int));
                let tags: Vec<Vec<char>> = match array_field(&items[i], "tags") {
                    Some(ts) => strs_of_exec(ts),
                    None => {
                        let e: Vec<Vec<char>> = Vec::new();
                        assert(views(e@) =~= strs_of(Seq::<JsonValue>::empty()));
                        e
                    },
                };
                let noise = crate::dictionary::contains_text(&tags, "table-tags")
                    || crate::dictionary::contains_text(&tags, "inflection-template")
                    || crate::dictionary::contains_text(&tags, "class");
                if !noise {
                    match str_field(&items[i], "form") {
                        Some(f) => {
                            let fc = chars_of(f);
                            let t = trim_exec(&fc);
                            if t.len() > 0 {
                                let ghost tv = t@;
                                insert_sorted(&mut set, t);
                                proof {
                                    lemma_push_contains(before, tv);
                                }
                            }
                        },
                        None => {},
                    }
                }
                i = i + 1;
            }
            assert(fs.take(items@.len() as int) =~= fs);
        },
        None => {
            assert(fs =~= Seq::<JsonValue>::empty());
        },
    }
    crate::dictionary::strings_of_views(&set)
}

// ---------------------------------------------------------------------------
// Surfaces
// ---------------------------------------------------------------------------

/// A character with its umlaut or sharp s spelled out in plain letters.
pub open spec fn surface_char(c: char) -> Seq<char> {
    if c == 'ä' {
        seq!['a']
    } else if c == 'ö' {
        seq!['o']
    } else if c == 'ü' {
        seq!['u']
    } else if c == 'ß' {
        seq!['s', 's']
    } else {
        seq![c]
    }
}

pub open spec fn surface_fold(s: Seq<char>) -> Seq<char>
    decreases s.len(),
{
    if s.len() == 0 {
        Seq::empty()
    } else {
        surface_fold(s.drop_last()) + surface_char(s.last())
    }
}

/// The surface key of a text: trimmed, lower case, umlauts and sharp s
/// spelled out.
pub open spec fn surface_key(v: Seq<char>) -> Seq<char> {
    surface_fold(unicode_lower(trim(v)))
}

pub fn normalize_surface(value: &str) -> (r: String)
    ensures
        r@ == surface_key(value@),
{
    let t = crate::text::trim_str(value);
    let l = to_lowercase(t.as_str());
    let c = chars_of(l.as_str());
    let mut out: Vec<char> = Vec::new();
    let mut i: usize = 0;
    while i < c.len()
        invariant
            0 <= i <= c@.len(),
            out@ == surface_fold(c@.take(i as int)),
        decreases c@.len() - i,
    {
        assert(c@.take(i + 1).drop_last() =~= c@.take(i as int));
        assert(c@.take(i + 1).last() == c@[i as int]);
        let ch = c[i];
        if ch == 'ä' {
            out.push('a');
        } else if ch == 'ö' {
            out.push('o');
        } else if ch == 'ü' {
            out.push('u');
        } else if ch == 'ß' {
            out.push('s');
            out.push('s');
        } else {
            out.push(ch);
        }
        assert(out@ =~= surface_fold(c@.take(i + 1)));
        i = i + 1;
    }
    assert(c@.take(c@.len() as int) =~= c@);
    string_of(&out)
}

// ---------------------------------------------------------------------------
// Embedding lookups
// ---------------------------------------------------------------------------

/// The text embedded for a lookup: the term without a hint; with a hint,
/// term and hint on two lines when the term looks German, else the hint.
pub open spec fn embedding_input(term: Seq<char>, hint: Seq<char>) -> Seq<char> {
    let h = trim(hint);
    if h.len() == 0 {
        term
    } else if german_candidate(term) {
        term + "\n"@ + h
    } else {
        h
    }
}

pub fn build_embedding_query_input(term: &str, hint: &str) -> (r: String)
    ensures
        r@ == embedding_input(term@, hint@),
{
    let h = crate::text::trim_str(hint);
    if is_blank(hint) {
        return owned(term);
    }
    if crate::query_match::looks_like_german_candidate(term) {
        let mut out = chars_of(term);
        crate::text::extend_str(&mut out, "\n");
        crate::text::extend_str(&mut out, h.as_str());
        string_of(&out)
    } else {
        h
    }
}

/// An embedding match is trusted without a hint or for a German-looking
/// term; otherwise only for a headword of three characters or more that
/// is not all ASCII capitals.
pub open spec fn reliable_candidate(term: Seq<char>, hint: Seq<char>, headword: Seq<char>) -> bool {
    if trim(hint).len() == 0 || german_candidate(term) {
        true
    } else if headword.len() <= 2 {
        false
    } else {
        !(forall|i: int| 0 <= i < headword.len() ==> 'A' <= #[trigger] headword[i] <= 'Z')
    }
}

pub fn is_reliable_embedding_candidate(term: &str, hint: &str, headword: &str) -> (r: bool)
    ensures
        r == reliable_candidate(term@, hint@, headword@),
{
    if is_blank(hint) || crate::query_match::looks_like_german_candidate(term) {
        return true;
    }
    let h = chars_of(headword);
    if h.len() <= 2 {
        return false;
    }
    let mut i: usize = 0;
    while i < h.len()
        invariant
            0 <= i <= h@.len(),
            h@ == headword@,
            h@.len() > 2,
            !(trim(hint@).len() == 0 || german_candidate(term@)),
            forall|j: int| 0 <= j < i ==> 'A' <= #[trigger] h@[j] <= 'Z',
        decreases h@.len() - i,
    {
        if !('A' <= h[i] && h[i] <= 'Z') {
            assert(!('A' <= headword@[i as int] <= 'Z'));
            return true;
        }
        i = i + 1;
    }
    false
}

// ---------------------------------------------------------------------------
// Obsolete senses
// ---------------------------------------------------------------------------

/// A sense tagged "obsolete".
pub open spec fn is_obsolete(sense: JsonValue) -> bool {
    strs_of(field_arr(sense, "tags"@)).contains("obsolete"@)
}

/// The senses that are not obsolete, in order.
pub open spec fn current_senses(ss: Seq<JsonValue>) -> Seq<JsonValue>
    decreases ss.len(),
{
    if ss.len() == 0 {
        ss
    } else if is_obsolete(ss.last()) {
        current_senses(ss.drop_last())
    } else {
        current_senses(ss.drop_last()).push(ss.last())
    }
}

/// `after` is `before` with the sense list, when there is one, holding only
/// the senses that are not obsolete; everything else is unchanged.
pub open spec fn cleaned(before: JsonValue, after: JsonValue) -> bool {
    match before {
        JsonValue::Object(ms) => {
            &&& after is Object
            &&& after->Object_0@.len() == ms@.len()
            &&& forall|k: int|
                #![trigger after->Object_0@[k]]
                0 <= k < ms@.len() ==> if senses_index_from(ms@, 0) == Some(k) && ms@[k].1 is Array {
                    &&& after->Object_0@[k].0@ == ms@[k].0@
                    &&& after->Object_0@[k].1 is Array
                    &&& after->Object_0@[k].1->Array_0@ == current_senses(ms@[k].1->Array_0@)
                } else {
                    after->Object_0@[k] == ms@[k]
                }
        },
        _ => after == before,
    }
}

fn obsolete_exec(sense: &JsonValue) -> (r: bool)
    ensures
        r == is_obsolete(*sense),
{
    let tags: Vec<Vec<char>> = match array_field(sense, "tags") {
        Some(ts) => strs_of_exec(ts),
        None => {
            let e: Vec<Vec<char>> = Vec::new();
            assert(views(e@) =~= strs_of(Seq::<JsonValue>::empty()));
            e
        },
    };
    crate::dictionary::contains_text(&tags, "obsolete")
}

fn keep_current(ss: Vec<JsonValue>) -> (r: Vec<JsonValue>)
    ensures
        r@ == current_senses(ss@),
{
    let ghost all = ss@;
    let mut rest = ss;
    let mut kept: Vec<JsonValue> = Vec::new();
    let mut d: usize = 0;
    let total = rest.len();
    assert(all.skip(0) =~= all);
    while rest.len() > 0
        invariant
            d + rest@.len() == all.len(),
            total == all.len(),
            rest@ == all.skip(d as int),
            kept@ == current_senses(all.take(d as int)),
        decreases rest@.len(),
    {
        let x = rest.remove(0);
        assert(all.take(d + 1).drop_last() =~= all.take(d as int));
        assert(all.take(d + 1).last() == x);
        assert(rest@ =~= all.skip(d + 1));
        if !obsolete_exec(&x) {
            kept.push(x);
        }
        d = d + 1;
    }
    assert(all.take(d as int) =~= all);
    kept
}

/// The entry without its obsolete senses.
pub fn clean_entry(entry: JsonValue) -> (r: JsonValue)
    ensures
        cleaned(entry, r),
{
    match entry {
        JsonValue::Object(members) => {
            let ghost ms = members@;
            let mut members = members;
            let n = members.len();
            let mut k: usize = 0;
            let senses_key = chars_of("senses");
            while k < n
                invariant_except_break
                    0 <= k <= n,
                    n == members@.len(),
                    members@ == ms,
                    senses_key@ == "senses"@,
                    senses_index_from(ms, 0) == senses_index_from(ms, k as int),
                ensures
                    0 <= k <= n,
                    n == members@.len(),
                    members@ == ms,
                    senses_index_from(ms, 0) == (if k < n {
                        Some(k as int)
                    } else {
                        None
                    }),
                decreases n - k,
            {
                let name = chars_of(members[k].0.as_str());
                if same(&name, &senses_key) {
                    break;
                }
                k = k + 1;
            }
            if k < n {
                let (name, value) = members.remove(k);
                let ghost mid = members@;
                match value {
                    JsonValue::Array(ss) => {
                        let kept = keep_current(ss);
                        members.insert(k, (name, JsonValue::Array(kept)));
                    },
                    other => {
                        members.insert(k, (name, other));
                        assert(members@ =~= ms);
                    },
                }
                let r = JsonValue::Object(members);
                assert forall|j: int| 0 <= j < ms.len() && j != k implies r->Object_0@[j]
                    == ms[j] by {
                    if j < k {
                        assert(r->Object_0@[j] == mid[j]);
                    } else {
                        assert(r->Object_0@[j] == mid[j - 1]);
                    }
                }
                r
            } else {
                JsonValue::Object(members)
            }
        },
        other => other,
    }
}

// ---------------------------------------------------------------------------
// Importing dictionary lines
// ---------------------------------------------------------------------------

/// A dictionary line as it is stored.
#[derive(Debug)]
pub struct RawEntryRecord {
    pub source_key: String,
    pub headword: String,
    pub normalized_headword: String,
    pub pos: String,
    pub is_form_of: bool,
    pub form_of_words: Vec<String>,
    pub raw_data: JsonValue,
}

/// The record of a parsed dictionary line (`line_idx` counts from zero):
/// none unless it is a German entry with a word; else the entry without
/// obsolete senses, its part of speech, the words it is a form of, and
/// whether it is a form reference.
pub fn prepare_raw_entry(entry: JsonValue, line_idx: usize) -> (r: Option<RawEntryRecord>)
    requires
        line_idx < usize::MAX,
    ensures
        (field_str(entry, "lang_code"@) != Some("de"@) || field_str(entry, "word"@) is None) ==> r is None,
        field_str(entry, "lang_code"@) == Some("de"@) && field_str(entry, "word"@) is Some ==> (r is Some && {
            let x = r.unwrap();
            let w = field_str(entry, "word"@).unwrap();
            &&& x.headword@ == w
            &&& x.normalized_headword@ == surface_key(w)
            &&& x.source_key@ == "de-line-"@ + crate::text::decimal((line_idx + 1) as nat)
            &&& cleaned(entry, x.raw_data)
            &&& x.pos@ == (match field_str(x.raw_data, "pos"@) {
                Some(p) => p,
                None => Seq::empty(),
            })
            &&& sorted_set(str_views(x.form_of_words@), form_of_words(field_arr(x.raw_data, "senses"@)))
            &&& x.is_form_of == (x.form_of_words@.len() > 0 || has_sense_tag(x.raw_data, "form-of"@))
        }),
{
    proof {
        reveal_strlit("");
    }
    let is_de = match str_field(&entry, "lang_code") {
        Some(l) => {
            let lc = chars_of(l);
            crate::dictionary::is_lit(&lc, "de")
        },
        None => false,
    };
    if !is_de {
        return None;
    }
    let headword = match str_field(&entry, "word") {
        Some(w) => owned(w),
        None => {
            return None;
        },
    };
    let cleaned_entry = clean_entry(entry);
    let pos = match str_field(&cleaned_entry, "pos") {
        Some(p) => owned(p),
        None => String::new(),
    };
    let words = extract_form_of_words(&cleaned_entry);
    let is_form_of = words.len() > 0 || sense_has_tag(&cleaned_entry, "form-of");
    let mut key = chars_of("de-line-");
    let n = crate::text::decimal_exec(line_idx + 1);
    crate::text::extend(&mut key, &n);
    Some(
        RawEntryRecord {
            source_key: string_of(&key),
            normalized_headword: normalize_surface(headword.as_str()),
            headword,
            pos,
            is_form_of,
            form_of_words: words,
            raw_data: cleaned_entry,
        },
    )
}

/// Where a surface link comes from.
#[derive(Debug, Clone, Copy, PartialEq, Eq, Structural)]
pub enum LinkSource {
    /// The lexeme's own headword.
    Headword,
    /// An inflected form listed by one of its entries.
    Form,
    /// An entry that is a form of the lexeme.
    FormOf,
}

impl LinkSource {
    pub fn as_str(self) -> (r: &'static str)
        ensures
            r@ == (match self {
                LinkSource::Headword => "headword"@,
                LinkSource::Form => "form"@,
                LinkSource::FormOf => "form_of"@,
            }),
    {
        match self {
            LinkSource::Headword => "headword",
            LinkSource::Form => "form",
            LinkSource::FormOf => "form_of",
        }
    }
}

/// A surface that leads to a lexeme.
#[derive(Debug)]
pub struct SurfaceLink {
    pub surface: String,
    pub normalized_surface: String,
    pub source: LinkSource,
    pub raw_entry_id: Option<i64>,
}

/// Two increasing lists with the same elements are equal.
pub proof fn lemma_sorted_unique(a: Seq<Seq<char>>, b: Seq<Seq<char>>)
    requires
        strictly_sorted(a),
        strictly_sorted(b),
        forall|v: Seq<char>| a.contains(v) <==> b.contains(v),
    ensures
        a == b,
    decreases a.len(),
{
    if a.len() == 0 {
        if b.len() > 0 {
            assert(b.contains(b[0]));
        }
        assert(a =~= b);
    } else {
        assert(a.contains(a[0]));
        assert(b.contains(a[0]));
        assert(b.contains(b[0]));
        assert(a.contains(b[0]));
        let k = choose|k: int| 0 <= k < b.len() && b[k] == a[0];
        let m = choose|m: int| 0 <= m < a.len() && a[m] == b[0];
        if k > 0 {
            assert(text_lt(b[0], b[k]));
            if m > 0 {
                assert(text_lt(a[0], a[m]));
                crate::facts::lemma_text_lt_transitive(a[0], b[0], a[0]);
            }
            crate::facts::lemma_text_lt_irreflexive(a[0]);
        }
        assert(b[0] == a[0]);
        let a1 = a.drop_first();
        let b1 = b.drop_first();
        assert forall|v: Seq<char>| a1.contains(v) <==> b1.contains(v) by {
            if a1.contains(v) {
                let i = choose|i: int| 0 <= i < a1.len() && a1[i] == v;
                assert(a[i + 1] == v);
                assert(text_lt(a[0], v));
                crate::facts::lemma_text_lt_irreflexive(v);
                assert(b.contains(v));
                let j = choose|j: int| 0 <= j < b.len() && b[j] == v;
                assert(j != 0);
                assert(b1[j - 1] == v);
            }
            if b1.contains(v) {
                let i = choose|i: int| 0 <= i < b1.len() && b1[i] == v;
                assert(b[i + 1] == v);
                assert(text_lt(b[0], v));
                crate::facts::lemma_text_lt_irreflexive(v);
                assert(a.contains(v));
                let j = choose|j: int| 0 <= j < a.len() && a[j] == v;
                assert(j != 0);
                assert(a1[j - 1] == v);
            }
        }
        assert forall|i: int, j: int| 0 <= i < j < a1.len() implies text_lt(a1[i], a1[j]) by {
            assert(a1[i] == a[i + 1] && a1[j] == a[j + 1]);
        }
        assert forall|i: int, j: int| 0 <= i < j < b1.len() implies text_lt(b1[i], b1[j]) by {
            assert(b1[i] == b[i + 1] && b1[j] == b[j + 1]);
        }
        lemma_sorted_unique(a1, b1);
        assert(a =~= seq![a[0]] + a1);
        assert(b =~= seq![b[0]] + b1);
    }
}

/// The sorted set of the values: the one increasing list without repeats
/// that holds exactly them.
pub open spec fn sorted_set_of(vals: Seq<Seq<char>>) -> Seq<Seq<char>> {
    choose|r: Seq<Seq<char>>| sorted_set(r, vals)
}

pub proof fn lemma_sorted_set_of(r: Seq<Seq<char>>, vals: Seq<Seq<char>>)
    requires
        sorted_set(r, vals),
    ensures
        sorted_set_of(vals) == r,
{
    let c = sorted_set_of(vals);
    assert(sorted_set(c, vals));
    lemma_sorted_unique(c, r);
}

/// The forms of the entries, in entry order, each with its entry's id:
/// per entry its sorted forms.
pub open spec fn form_links(entries: Seq<(i64, JsonValue)>) -> Seq<(Seq<char>, i64)>
    decreases entries.len(),
{
    if entries.len() == 0 {
        Seq::empty()
    } else {
        let e = entries.last();
        form_links(entries.drop_last()) + sorted_set_of(entry_forms(field_arr(e.1, "forms"@))).map_values(
            |f: Seq<char>| (f, e.0),
        )
    }
}

/// A form link for the surface and raw entry.
pub open spec fn is_form_link(l: SurfaceLink, x: (Seq<char>, i64)) -> bool {
    &&& l.source == LinkSource::Form
    &&& l.surface@ == x.0
    &&& l.normalized_surface@ == surface_key(x.0)
    &&& l.raw_entry_id == Some(x.1)
}

/// The links of a lexeme's bundle: its headword, then for each of its
/// entries (id and raw data) the entry's forms in sorted order.
pub fn bundle_surface_links(
    surface: &str,
    normalized_surface: &str,
    entries: &Vec<(i64, JsonValue)>,
) -> (r: Vec<SurfaceLink>)
    ensures
        r@.len() == 1 + form_links(entries@).len(),
        r@[0].surface@ == surface@ && r@[0].normalized_surface@ == normalized_surface@
            && r@[0].source == LinkSource::Headword && r@[0].raw_entry_id is None,
        forall|k: int| 1 <= k < r@.len() ==> is_form_link(#[trigger] r@[k], form_links(entries@)[k - 1]),
{
    let mut out: Vec<SurfaceLink> = Vec::new();
    out.push(
        SurfaceLink {
            surface: owned(surface),
            normalized_surface: owned(normalized_surface),
            source: LinkSource::Headword,
            raw_entry_id: None,
        },
    );
    let mut i: usize = 0;
    while i < entries.len()
        invariant
            0 <= i <= entries@.len(),
            out@.len() == 1 + form_links(entries@.take(i as int)).len(),
            out@[0].surface@ == surface@ && out@[0].normalized_surface@ == normalized_surface@
                && out@[0].source == LinkSource::Headword && out@[0].raw_entry_id is None,
            forall|k: int|
                1 <= k < out@.len() ==> is_form_link(#[trigger] out@[k], form_links(entries@.take(i as int))[k - 1]),
        decreases entries@.len() - i,
    {
        let ghost prev = form_links(entries@.take(i as int));
        let ghost id = entries@[i as int].0;
        let forms = extract_forms(&entries[i].1);
        let ghost fs = str_views(forms@);
        proof {
            lemma_sorted_set_of(fs, entry_forms(field_arr(entries@[i as int].1, "forms"@)));
            assert(entries@.take(i + 1).drop_last() =~= entries@.take(i as int));
            assert(entries@.take(i + 1).last() == entries@[i as int]);
        }
        let ghost next = prev + fs.map_values(|f: Seq<char>| (f, id));
        assert(form_links(entries@.take(i + 1)) == next);
        let mut j: usize = 0;
        while j < forms.len()
            invariant
                0 <= j <= forms@.len(),
                i < entries@.len(),
                fs == str_views(forms@),
                next == prev + fs.map_values(|f: Seq<char>| (f, id)),
                id == entries@[i as int].0,
                out@.len() == 1 + prev.len() + j,
                out@[0].surface@ == surface@ && out@[0].normalized_surface@ == normalized_surface@
                    && out@[0].source == LinkSource::Headword && out@[0].raw_entry_id is None,
                forall|k: int| 1 <= k < out@.len() ==> is_form_link(#[trigger] out@[k], next[k - 1]),
            decreases forms@.len() - j,
        {
            assert(next[prev.len() + j] == (forms@[j as int]@, id));
            out.push(
                SurfaceLink {
                    surface: owned(forms[j].as_str()),
                    normalized_surface: normalize_surface(forms[j].as_str()),
                    source: LinkSource::Form,
                    raw_entry_id: Some(entries[i].0),
                },
            );
            j = j + 1;
        }
        i = i + 1;
    }
    assert(entries@.take(entries@.len() as int) =~= entries@);
    out
}

} // verus!
