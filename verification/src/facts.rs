//! The dictionary facts handed to the first model: per dictionary row of
//! the headword, its pronunciations, head templates, senses and the key
//! inflected forms.

use vstd::prelude::*;
use crate::dictionary::{array_field, field_arr, field_str, str_field};
use crate::follow_up_answer::{first_n, strs_of, strs_of_exec};
use crate::json::{json_get, JsonValue};
use crate::query_suggestions::{text_less, text_lt};
use crate::text::{
    chars_of, is_alphabetic, is_lowercase, is_uppercase, owned, same, str_views, string_of, trim,
    trim_exec, unicode_alphabetic, unicode_lowercase_char, unicode_uppercase, views,
};

verus! {

// ---------------------------------------------------------------------------
// The order of texts
// ---------------------------------------------------------------------------

pub proof fn lemma_text_lt_irreflexive(a: Seq<char>)
    ensures
        !text_lt(a, a),
    decreases a.len(),
{
    if a.len() > 0 {
        lemma_text_lt_irreflexive(a.drop_first());
    }
}

pub proof fn lemma_text_lt_transitive(a: Seq<char>, b: Seq<char>, c: Seq<char>)
    requires
        text_lt(a, b),
        text_lt(b, c),
    ensures
        text_lt(a, c),
    decreases a.len(),
{
    if a.len() > 0 && b.len() > 0 && c.len() > 0 && a[0] == b[0] && b[0] == c[0] {
        lemma_text_lt_transitive(a.drop_first(), b.drop_first(), c.drop_first());
    }
}

pub proof fn lemma_text_lt_total(a: Seq<char>, b: Seq<char>)
    ensures
        a == b || text_lt(a, b) || text_lt(b, a),
    decreases a.len(),
{
    if a.len() > 0 && b.len() > 0 && a[0] == b[0] {
        lemma_text_lt_total(a.drop_first(), b.drop_first());
        if a.drop_first() == b.drop_first() {
            assert(a =~= seq![a[0]] + a.drop_first());
            assert(b =~= seq![b[0]] + b.drop_first());
        }
    } else if a.len() > 0 && b.len() > 0 {
        assert(a[0] < b[0] || b[0] < a[0]);
    } else if a.len() == 0 && b.len() == 0 {
        assert(a =~= b);
    }
}

/// Strictly increasing texts.
pub open spec fn strictly_sorted(s: Seq<Seq<char>>) -> bool {
    forall|i: int, j: int| 0 <= i < j < s.len() ==> text_lt(s[i], s[j])
}

/// `r` holds the smallest distinct values of `vals` in increasing order,
/// at most `n` of them: that is what a sorted set of `vals` gives when its
/// first `n` elements are taken.
pub open spec fn smallest_distinct(r: Seq<Seq<char>>, vals: Seq<Seq<char>>, n: nat) -> bool {
    &&& strictly_sorted(r)
    &&& r.len() <= n
    &&& forall|k: int| 0 <= k < r.len() ==> vals.contains(#[trigger] r[k])
    &&& forall|v: Seq<char>|
        vals.contains(v) ==> r.contains(v) || (r.len() == n && text_lt(r.last(), v))
}

/// Inserts a text into a strictly sorted list unless it is there already.
pub(crate) fn insert_sorted(s: &mut Vec<Vec<char>>, x: Vec<char>)
    requires
        strictly_sorted(views(old(s)@)),
    ensures
        strictly_sorted(views(final(s)@)),
        forall|v: Seq<char>| views(final(s)@).contains(v) <==> (views(old(s)@).contains(v) || v == x@),
{
    let ghost sv = views(s@);
    let mut p: usize = 0;
    while p < s.len() && text_less(&s[p], &x)
        invariant
            0 <= p <= s@.len(),
            sv == views(s@),
            forall|j: int| 0 <= j < p ==> text_lt(#[trigger] sv[j], x@),
        decreases s@.len() - p,
    {
        assert(sv[p as int] == s@[p as int]@);
        p = p + 1;
    }
    if p < s.len() {
        assert(sv[p as int] == s@[p as int]@);
        if same(&s[p], &x) {
            return;
        }
        proof {
            lemma_text_lt_total(sv[p as int], x@);
        }
    }
    let ghost xv = x@;
    s.insert(p, x);
    assert(views(s@) =~= sv.insert(p as int, xv));
    proof {
        let nv = views(s@);
        assert forall|i: int, j: int| 0 <= i < j < nv.len() implies text_lt(nv[i], nv[j]) by {
            if j < p {
                assert(nv[i] == sv[i] && nv[j] == sv[j]);
            } else if j == p {
                assert(nv[i] == sv[i]);
            } else if i < p {
                assert(nv[i] == sv[i] && nv[j] == sv[j - 1]);
                assert(text_lt(sv[i], xv));
                assert(text_lt(xv, sv[p as int]));
                if j - 1 > p {
                    lemma_text_lt_transitive(xv, sv[p as int], sv[j - 1]);
                }
                lemma_text_lt_transitive(sv[i], xv, sv[j - 1]);
            } else if i == p {
                assert(nv[j] == sv[j - 1]);
                if j - 1 > p {
                    lemma_text_lt_transitive(xv, sv[p as int], sv[j - 1]);
                }
            } else {
                assert(nv[i] == sv[i - 1] && nv[j] == sv[j - 1]);
            }
        }
        assert forall|v: Seq<char>| nv.contains(v) <==> (sv.contains(v) || v == xv) by {
            if nv.contains(v) {
                let k = choose|k: int| 0 <= k < nv.len() && nv[k] == v;
                if k < p {
                    assert(sv[k] == v);
                } else if k > p {
                    assert(sv[k - 1] == v);
                }
            }
            if sv.contains(v) {
                let k = choose|k: int| 0 <= k < sv.len() && sv[k] == v;
                if k < p {
                    assert(nv[k] == v);
                } else {
                    assert(nv[k + 1] == v);
                }
            }
            if v == xv {
                assert(nv[p as int] == v);
            }
        }
    }
}

proof fn lemma_take_smallest(s: Seq<Seq<char>>, vals: Seq<Seq<char>>, n: nat)
    requires
        n > 0,
        strictly_sorted(s),
        forall|v: Seq<char>| s.contains(v) <==> vals.contains(v),
    ensures
        smallest_distinct(first_n(s, n), vals, n),
{
    let r = first_n(s, n);
    assert forall|k: int| 0 <= k < r.len() implies vals.contains(#[trigger] r[k]) by {
        assert(s.contains(s[k]));
    }
    assert forall|v: Seq<char>| vals.contains(v) implies r.contains(v) || (r.len() == n && text_lt(
        r.last(),
        v,
    )) by {
        assert(s.contains(v));
        let k = choose|k: int| 0 <= k < s.len() && s[k] == v;
        if s.len() <= n {
            assert(r == s);
            assert(r[k] == v);
            assert(r.contains(v));
        } else {
            assert(r == s.take(n as int));
            assert(r.len() == n);
            if k < n {
                assert(r[k] == v);
                assert(r.contains(v));
            } else {
                assert(r.last() == s[n - 1]);
                assert(text_lt(s[n - 1], s[k]));
            }
        }
    }
}

// ---------------------------------------------------------------------------
// Pronunciations and head templates
// ---------------------------------------------------------------------------

/// The trimmed, non-empty strings under `key` of the items, in order.
pub open spec fn item_texts(items: Seq<JsonValue>, key: Seq<char>) -> Seq<Seq<char>>
    decreases items.len(),
{
    if items.len() == 0 {
        Seq::empty()
    } else {
        let prev = item_texts(items.drop_last(), key);
        match field_str(items.last(), key) {
            Some(t) => if trim(t).len() > 0 {
                prev.push(trim(t))
            } else {
                prev
            },
            None => prev,
        }
    }
}

/// The smallest four distinct texts under `key` of the items of the array
/// `field`.
fn smallest_item_texts(raw: &JsonValue, field: &str, key: &str) -> (r: Vec<String>)
    ensures
        smallest_distinct(str_views(r@), item_texts(field_arr(*raw, field@), key@), 4),
{
    let ghost items = field_arr(*raw, field@);
    let mut set: Vec<Vec<char>> = Vec::new();
    match array_field(raw, field) {
        Some(xs) => {
            let mut i: usize = 0;
            while i < xs.len()
                invariant
                    0 <= i <= xs@.len(),
                    items == xs@,
                    strictly_sorted(views(set@)),
                    forall|v: Seq<char>| views(set@).contains(v) <==> item_texts(
                        items.take(i as int),
                        key@,
                    ).contains(v),
                decreases xs@.len() - i,
            {
                assert(items.take(i + 1).drop_last() =~= items.take(i as int));
                assert(items.take(i + 1).last() == xs@[i as int]);
                let ghost prev = item_texts(items.take(i as int), key@);
                match str_field(&xs[i], key) {
                    Some(t) => {
                        let tc = chars_of(t);
                        let tt = trim_exec(&tc);
                        if tt.len() == 0 {
                            assert(item_texts(items.take(i + 1), key@) == prev);
                        }
                        if tt.len() > 0 {
                            let ghost tv = tt@;
                            assert(item_texts(items.take(i + 1), key@) == prev.push(tv));
                            insert_sorted(&mut set, tt);
                            assert forall|v: Seq<char>| prev.push(tv).contains(v) <==> (prev.contains(v) || v == tv) by {
                                if prev.push(tv).contains(v) {
                                    let k = choose|k: int| 0 <= k < prev.push(tv).len() && prev.push(tv)[k] == v;
                                    if k < prev.len() {
                                        assert(prev[k] == v);
                                    }
                                }
                                if prev.contains(v) {
                                    let k = choose|k: int| 0 <= k < prev.len() && prev[k] == v;
                                    assert(prev.push(tv)[k] == v);
                                }
                                if v == tv {
                                    assert(prev.push(tv)[prev.len() as int] == v);
                                }
                            }
                        }
                    },
                    None => {
                        assert(item_texts(items.take(i + 1), key@) == prev);
                    },
                }
                i = i + 1;
            }
            assert(items.take(xs@.len() as int) =~= items);
        },
        None => {
            assert(items =~= Seq::<JsonValue>::empty());
        },
    }
    proof {
        lemma_take_smallest(views(set@), item_texts(items, key@), 4);
    }
    let four = crate::follow_up_answer::first_n_exec(&set, 4);
    crate::dictionary::strings_of_views(&four)
}

/// The pronunciations of the entry: its four smallest distinct trimmed
/// IPA texts, in order.
pub fn collect_ipas(raw_data: &JsonValue) -> (r: Vec<String>)
    ensures
        smallest_distinct(str_views(r@), item_texts(field_arr(*raw_data, "sounds"@), "ipa"@), 4),
{
    smallest_item_texts(raw_data, "sounds", "ipa")
}

/// The head templates of the entry: its four smallest distinct trimmed
/// expansions, in order.
pub fn collect_head_templates(raw_data: &JsonValue) -> (r: Vec<String>)
    ensures
        smallest_distinct(
            str_views(r@),
            item_texts(field_arr(*raw_data, "head_templates"@), "expansion"@),
            4,
        ),
{
    smallest_item_texts(raw_data, "head_templates", "expansion")
}

// ---------------------------------------------------------------------------
// The case of the query
// ---------------------------------------------------------------------------

/// The first letter of a text.
pub open spec fn first_letter(s: Seq<char>) -> Option<char>
    decreases s.len(),
{
    if s.len() == 0 {
        None
    } else if unicode_alphabetic(s[0]) {
        Some(s[0])
    } else {
        first_letter(s.drop_first())
    }
}

/// Whether the query starts in upper or lower case.
pub open spec fn case_signal(word: Seq<char>) -> Seq<char> {
    match first_letter(word) {
        None => "other"@,
        Some(c) => if unicode_uppercase(c) {
            "titlecase_or_uppercase"@
        } else if unicode_lowercase_char(c) {
            "lowercase"@
        } else {
            "other"@
        },
    }
}

pub fn detect_case_signal(word: &str) -> (r: &'static str)
    ensures
        r@ == case_signal(word@),
{
    let w = chars_of(word);
    let mut i: usize = 0;
    assert(w@.skip(0) =~= w@);
    while i < w.len()
        invariant
            0 <= i <= w@.len(),
            w@ == word@,
            first_letter(word@) == first_letter(w@.skip(i as int)),
        decreases w@.len() - i,
    {
        assert(w@.skip(i as int)[0] == w@[i as int]);
        if is_alphabetic(w[i]) {
            let c = w[i];
            if is_uppercase(c) {
                return "titlecase_or_uppercase";
            } else if is_lowercase(c) {
                return "lowercase";
            } else {
                return "other";
            }
        }
        assert(w@.skip(i as int).drop_first() =~= w@.skip(i + 1));
        i = i + 1;
    }
    "other"
}

// ---------------------------------------------------------------------------
// Senses
// ---------------------------------------------------------------------------

/// The texts trimmed, blank ones left out.
pub open spec fn nonblank_trimmed(ts: Seq<Seq<char>>) -> Seq<Seq<char>>
    decreases ts.len(),
{
    if ts.len() == 0 {
        Seq::empty()
    } else {
        let prev = nonblank_trimmed(ts.drop_last());
        if trim(ts.last()).len() > 0 {
            prev.push(trim(ts.last()))
        } else {
            prev
        }
    }
}

fn nonblank_trimmed_exec(v: &Vec<Vec<char>>) -> (r: Vec<Vec<char>>)
    ensures
        views(r@) == nonblank_trimmed(views(v@)),
{
    let ghost vv = views(v@);
    let mut r: Vec<Vec<char>> = Vec::new();
    let mut i: usize = 0;
    while i < v.len()
        invariant
            0 <= i <= v@.len(),
            vv == views(v@),
            views(r@) == nonblank_trimmed(vv.take(i as int)),
        decreases v@.len() - i,
    {
        assert(vv.take(i + 1).drop_last() =~= vv.take(i as int));
        assert(vv.take(i + 1).last() == v@[i as int]@);
        let t = trim_exec(&v[i]);
        if t.len() > 0 {
            let ghost before = views(r@);
            let ghost tv = t@;
            r.push(t);
            assert(views(r@) =~= before.push(tv));
        }
        i = i + 1;
    }
    assert(vv.take(vv.len() as int) =~= vv);
    r
}

/// `v` is an array of strings with these texts.
pub open spec fn is_str_array(v: JsonValue, texts: Seq<Seq<char>>) -> bool {
    &&& v is Array
    &&& v->Array_0@.len() == texts.len()
    &&& forall|i: int|
        0 <= i < texts.len() ==> (#[trigger] v->Array_0@[i]) is Str && v->Array_0@[i]->Str_0@
            == texts[i]
}

fn str_array(texts: &Vec<Vec<char>>) -> (r: JsonValue)
    ensures
        is_str_array(r, views(texts@)),
{
    let mut out: Vec<JsonValue> = Vec::new();
    let mut i: usize = 0;
    while i < texts.len()
        invariant
            0 <= i <= texts@.len(),
            out@.len() == i,
            forall|k: int|
                0 <= k < i ==> (#[trigger] out@[k]) is Str && out@[k]->Str_0@ == texts@[k]@,
        decreases texts@.len() - i,
    {
        out.push(JsonValue::Str(string_of(&texts[i])));
        i = i + 1;
    }
    JsonValue::Array(out)
}

fn str_array_of_strings(texts: &Vec<String>) -> (r: JsonValue)
    ensures
        is_str_array(r, str_views(texts@)),
{
    let v = crate::text::chars_of_all(texts);
    str_array(&v)
}

/// The glosses and tags a sense contributes: its first three non-blank
/// glosses and first eight non-blank tags, trimmed; none without glosses.
pub open spec fn sense_fact(sense: JsonValue) -> Option<(Seq<Seq<char>>, Seq<Seq<char>>)> {
    let glosses = first_n(nonblank_trimmed(strs_of(field_arr(sense, "glosses"@))), 3);
    if glosses.len() == 0 {
        None
    } else {
        Some((glosses, first_n(nonblank_trimmed(strs_of(field_arr(sense, "tags"@))), 8)))
    }
}

pub open spec fn sense_facts(ss: Seq<JsonValue>) -> Seq<(Seq<Seq<char>>, Seq<Seq<char>>)>
    decreases ss.len(),
{
    if ss.len() == 0 {
        Seq::empty()
    } else {
        match sense_fact(ss.last()) {
            Some(f) => sense_facts(ss.drop_last()).push(f),
            None => sense_facts(ss.drop_last()),
        }
    }
}

/// `v` is the object of a sense with these glosses and tags.
pub open spec fn is_sense_object(v: JsonValue, f: (Seq<Seq<char>>, Seq<Seq<char>>)) -> bool {
    &&& v is Object
    &&& v->Object_0@.len() == 2
    &&& v->Object_0@[0].0@ == "glosses"@
    &&& is_str_array(v->Object_0@[0].1, f.0)
    &&& v->Object_0@[1].0@ == "tags"@
    &&& is_str_array(v->Object_0@[1].1, f.1)
}

fn sense_fact_exec(sense: &JsonValue) -> (r: Option<JsonValue>)
    ensures
        sense_fact(*sense) is None ==> r is None,
        sense_fact(*sense) is Some ==> (r is Some && is_sense_object(r.unwrap(), sense_fact(*sense).unwrap())),
{
    let gl = match array_field(sense, "glosses") {
        Some(gs) => strs_of_exec(gs),
        None => {
            let e: Vec<Vec<char>> = Vec::new();
            assert(views(e@) =~= strs_of(Seq::<JsonValue>::empty()));
            e
        },
    };
    let gt = nonblank_trimmed_exec(&gl);
    let glosses = crate::follow_up_answer::first_n_exec(&gt, 3);
    if glosses.len() == 0 {
        return None;
    }
    let tg = match array_field(sense, "tags") {
        Some(ts) => strs_of_exec(ts),
        None => {
            let e: Vec<Vec<char>> = Vec::new();
            assert(views(e@) =~= strs_of(Seq::<JsonValue>::empty()));
            e
        },
    };
    let tt = nonblank_trimmed_exec(&tg);
    let tags = crate::follow_up_answer::first_n_exec(&tt, 8);
    let mut members: Vec<(String, JsonValue)> = Vec::new();
    members.push((owned("glosses"), str_array(&glosses)));
    members.push((owned("tags"), str_array(&tags)));
    Some(JsonValue::Object(members))
}

/// The first eight senses that have glosses, as objects of their glosses
/// and tags.
pub fn collect_senses(raw_data: &JsonValue) -> (r: Vec<JsonValue>)
    ensures
        r@.len() == first_n(sense_facts(field_arr(*raw_data, "senses"@)), 8).len(),
        forall|k: int|
            0 <= k < r@.len() ==> is_sense_object(
                #[trigger] r@[k],
                first_n(sense_facts(field_arr(*raw_data, "senses"@)), 8)[k],
            ),
{
    let ghost ss = field_arr(*raw_data, "senses"@);
    let mut out: Vec<JsonValue> = Vec::new();
    match array_field(raw_data, "senses") {
        Some(senses) => {
            let mut i: usize = 0;
            while i < senses.len()
                invariant
                    0 <= i <= senses@.len(),
                    ss == senses@,
                    out@.len() == sense_facts(ss.take(i as int)).len(),
                    forall|k: int|
                        0 <= k < out@.len() ==> is_sense_object(
                            #[trigger] out@[k],
                            sense_facts(ss.take(i as int))[k],
                        ),
                decreases senses@.len() - i,
            {
                assert(ss.take(i + 1).drop_last() =~= ss.take(i as int));
                assert(ss.take(i + 1).last() == senses@[i as int]);
                match sense_fact_exec(&senses[i]) {
                    Some(o) => {
                        out.push(o);
                    },
                    None => {},
                }
                i = i + 1;
            }
            assert(ss.take(senses@.len() as int) =~= ss);
        },
        None => {
            assert(ss =~= Seq::<JsonValue>::empty());
        },
    }
    out.truncate(8);
    out
}

// ---------------------------------------------------------------------------
// Forms
// ---------------------------------------------------------------------------

/// Which forms are collected.
#[derive(Debug, Clone, Copy, PartialEq, Eq, Structural)]
pub enum FormKind {
    Auxiliary,
    Present3sg,
    Preterite3sg,
    PartizipII,
    NounPlural,
    NounGenitive,
    Comparative,
    Superlative,
}

/// Whether a form carries a tag.
pub open spec fn form_has(form: JsonValue, tag: Seq<char>) -> bool {
    strs_of(field_arr(form, "tags"@)).contains(tag)
}

/// Whether a form is of the kind collected.
pub open spec fn form_selected(form: JsonValue, kind: FormKind) -> bool {
    match kind {
        FormKind::Auxiliary => form_has(form, "auxiliary"@),
        FormKind::Present3sg => form_has(form, "present"@) && form_has(form, "singular"@) && form_has(
            form,
            "third-person"@,
        ),
        FormKind::Preterite3sg => form_has(form, "past"@) && !(form_has(form, "participle"@)
            || form_has(form, "subjunctive"@)),
        FormKind::PartizipII => form_has(form, "participle"@) && form_has(form, "past"@),
        FormKind::NounPlural => form_has(form, "plural"@) && (form_has(form, "nominative"@) || !(
        form_has(form, "genitive"@) || form_has(form, "dative"@) || form_has(form, "accusative"@))),
        FormKind::NounGenitive => form_has(form, "genitive"@) && (form_has(form, "singular"@)
            || !form_has(form, "plural"@)),
        FormKind::Comparative => form_has(form, "comparative"@),
        FormKind::Superlative => form_has(form, "superlative"@),
    }
}

/// The trimmed text of a form, when it is a real form and not a template
/// marker.
pub open spec fn form_value(form: JsonValue) -> Option<Seq<char>> {
    match field_str(form, "form"@) {
        Some(v) => {
            let t = trim(v);
            if t.len() == 0 || t == "de-conj"@ || t == "de-ndecl"@ || t == "de-adecl"@ {
                None
            } else {
                Some(t)
            }
        },
        None => None,
    }
}

/// The distinct values of the selected forms, in order, and whether the
/// collection stopped: it stops after the first selected form with a value
/// that leaves `limit` values or more.
pub open spec fn form_values(fs: Seq<JsonValue>, kind: FormKind, limit: nat) -> (Seq<Seq<char>>, bool)
    decreases fs.len(),
{
    if fs.len() == 0 {
        (Seq::empty(), false)
    } else {
        let (vals, stop) = form_values(fs.drop_last(), kind, limit);
        let f = fs.last();
        if stop || !form_selected(f, kind) || form_value(f) is None {
            (vals, stop)
        } else {
            let v = form_value(f).unwrap();
            let next = if vals.contains(v) {
                vals
            } else {
                vals.push(v)
            };
            (next, next.len() >= limit)
        }
    }
}

fn form_tags(form: &JsonValue) -> (r: Vec<Vec<char>>)
    ensures
        views(r@) == strs_of(field_arr(*form, "tags"@)),
{
    match array_field(form, "tags") {
        Some(ts) => strs_of_exec(ts),
        None => {
            let e: Vec<Vec<char>> = Vec::new();
            assert(views(e@) =~= strs_of(Seq::<JsonValue>::empty()));
            e
        },
    }
}

fn is_selected(form: &JsonValue, kind: FormKind) -> (r: bool)
    ensures
        r == form_selected(*form, kind),
{
    let t = form_tags(form);
    match kind {
        FormKind::Auxiliary => crate::dictionary::contains_text(&t, "auxiliary"),
        FormKind::Present3sg => crate::dictionary::contains_text(&t, "present")
            && crate::dictionary::contains_text(&t, "singular") && crate::dictionary::contains_text(
            &t,
            "third-person",
        ),
        FormKind::Preterite3sg => crate::dictionary::contains_text(&t, "past") && !(
        crate::dictionary::contains_text(&t, "participle") || crate::dictionary::contains_text(
            &t,
            "subjunctive",
        )),
        FormKind::PartizipII => crate::dictionary::contains_text(&t, "participle")
            && crate::dictionary::contains_text(&t, "past"),
        FormKind::NounPlural => crate::dictionary::contains_text(&t, "plural") && (
        crate::dictionary::contains_text(&t, "nominative") || !(crate::dictionary::contains_text(
            &t,
            "genitive",
        ) || crate::dictionary::contains_text(&t, "dative") || crate::dictionary::contains_text(
            &t,
            "accusative",
        ))),
        FormKind::NounGenitive => crate::dictionary::contains_text(&t, "genitive") && (
        crate::dictionary::contains_text(&t, "singular") || !crate::dictionary::contains_text(
            &t,
            "plural",
        )),
        FormKind::Comparative => crate::dictionary::contains_text(&t, "comparative"),
        FormKind::Superlative => crate::dictionary::contains_text(&t, "superlative"),
    }
}

fn form_value_exec(form: &JsonValue) -> (r: Option<Vec<char>>)
    ensures
        r matches Some(v) ==> form_value(*form) == Some(v@),
        r is None ==> form_value(*form) is None,
{
    match str_field(form, "form") {
        Some(v) => {
            let c = chars_of(v);
            let t = trim_exec(&c);
            if t.len() == 0 || crate::dictionary::is_lit(&t, "de-conj") || crate::dictionary::is_lit(
                &t,
                "de-ndecl",
            ) || crate::dictionary::is_lit(&t, "de-adecl") {
                None
            } else {
                Some(t)
            }
        },
        None => None,
    }
}

/// The distinct values of the forms of a kind, in order, up to `limit`.
pub fn collect_form_values(forms: &Vec<JsonValue>, kind: FormKind, limit: usize) -> (r: Vec<String>)
    ensures
        str_views(r@) == form_values(forms@, kind, limit as nat).0,
{
    let mut vals: Vec<Vec<char>> = Vec::new();
    let mut i: usize = 0;
    let mut stopped = false;
    while i < forms.len()
        invariant
            0 <= i <= forms@.len(),
            (views(vals@), stopped) == form_values(forms@.take(i as int), kind, limit as nat),
        decreases forms@.len() - i,
    {
        assert(forms@.take(i + 1).drop_last() =~= forms@.take(i as int));
        assert(forms@.take(i + 1).last() == forms@[i as int]);
        if !stopped && is_selected(&forms[i], kind) {
            match form_value_exec(&forms[i]) {
                Some(v) => {
                    let ghost vv = views(vals@);
                    let mut seen = false;
                    let mut j: usize = 0;
                    while j < vals.len()
                        invariant
                            0 <= j <= vals@.len(),
                            vv == views(vals@),
                            seen <==> exists|m: int| 0 <= m < j && vv[m] == v@,
                        decreases vals@.len() - j,
                    {
                        assert(vv[j as int] == vals@[j as int]@);
                        if same(&vals[j], &v) {
                            seen = true;
                        }
                        j = j + 1;
                    }
                    assert(seen <==> vv.contains(v@)) by {
                        if vv.contains(v@) {
                            let m = choose|m: int| 0 <= m < vv.len() && vv[m] == v@;
                            assert(m < j);
                        }
                    }
                    if !seen {
                        let ghost tv = v@;
                        vals.push(v);
                        assert(views(vals@) =~= vv.push(tv));
                    }
                    stopped = vals.len() >= limit;
                },
                None => {},
            }
        }
        i = i + 1;
    }
    assert(forms@.take(forms@.len() as int) =~= forms@);
    crate::dictionary::strings_of_views(&vals)
}

/// The forms of a kind collected from the entry, empty for noun-only kinds
/// when the entry is not a noun.
pub open spec fn fact_forms_of(raw: JsonValue, kind: FormKind, limit: nat) -> Seq<Seq<char>> {
    let pos = crate::text::ascii_lower(
        match field_str(raw, "pos"@) {
            Some(p) => p,
            None => Seq::empty(),
        },
    );
    if (kind == FormKind::NounPlural || kind == FormKind::NounGenitive) && pos != "noun"@ {
        Seq::empty()
    } else {
        form_values(field_arr(raw, "forms"@), kind, limit).0
    }
}

/// The key, kind and limit of each member of the forms object, in order.
pub open spec fn fact_form_keys() -> Seq<(Seq<char>, FormKind, nat)> {
    seq![
        ("auxiliaries"@, FormKind::Auxiliary, 4nat),
        ("present_3sg"@, FormKind::Present3sg, 4nat),
        ("preterite_3sg"@, FormKind::Preterite3sg, 4nat),
        ("partizip_ii"@, FormKind::PartizipII, 4nat),
        ("plural_forms"@, FormKind::NounPlural, 6nat),
        ("genitive_forms"@, FormKind::NounGenitive, 6nat),
        ("comparative"@, FormKind::Comparative, 4nat),
        ("superlative"@, FormKind::Superlative, 4nat),
    ]
}

/// `v` is the forms object of the entry.
pub open spec fn is_fact_forms(v: JsonValue, raw: JsonValue) -> bool {
    &&& v is Object
    &&& v->Object_0@.len() == 8
    &&& forall|i: int|
        0 <= i < 8 ==> (#[trigger] v->Object_0@[i]).0@ == fact_form_keys()[i].0 && is_str_array(
            v->Object_0@[i].1,
            fact_forms_of(raw, fact_form_keys()[i].1, fact_form_keys()[i].2),
        )
}

/// The key inflected forms of the entry as an object.
pub fn collect_fact_forms(raw_data: &JsonValue) -> (r: JsonValue)
    ensures
        is_fact_forms(r, *raw_data),
{
    let empty: Vec<JsonValue> = Vec::new();
    let forms: &Vec<JsonValue> = match array_field(raw_data, "forms") {
        Some(f) => f,
        None => &empty,
    };
    assert(forms@ == field_arr(*raw_data, "forms"@));
    let p = match str_field(raw_data, "pos") {
        Some(p) => chars_of(p),
        None => Vec::new(),
    };
    let pos = crate::text::ascii_lower_exec(&p);
    let noun = crate::dictionary::is_lit(&pos, "noun");
    let keys: [&str; 8] = [
        "auxiliaries",
        "present_3sg",
        "preterite_3sg",
        "partizip_ii",
        "plural_forms",
        "genitive_forms",
        "comparative",
        "superlative",
    ];
    let kinds: [FormKind; 8] = [
        FormKind::Auxiliary,
        FormKind::Present3sg,
        FormKind::Preterite3sg,
        FormKind::PartizipII,
        FormKind::NounPlural,
        FormKind::NounGenitive,
        FormKind::Comparative,
        FormKind::Superlative,
    ];
    let limits: [usize; 8] = [4, 4, 4, 4, 6, 6, 4, 4];
    let mut members: Vec<(String, JsonValue)> = Vec::new();
    let mut i: usize = 0;
    while i < 8
        invariant
            0 <= i <= 8,
            forms@ == field_arr(*raw_data, "forms"@),
            noun == (crate::text::ascii_lower(
                match field_str(*raw_data, "pos"@) {
                    Some(p) => p,
                    None => Seq::empty(),
                },
            ) == "noun"@),
            forall|k: int|
                0 <= k < 8 ==> keys@[k]@ == fact_form_keys()[k].0 && kinds@[k] == fact_form_keys()[k].1
                    && limits@[k] == fact_form_keys()[k].2,
            members@.len() == i,
            forall|k: int|
                0 <= k < i ==> (#[trigger] members@[k]).0@ == fact_form_keys()[k].0 && is_str_array(
                    members@[k].1,
                    fact_forms_of(*raw_data, fact_form_keys()[k].1, fact_form_keys()[k].2),
                ),
        decreases 8 - i,
    {
        let kind = kinds[i];
        let values: Vec<String> = if (kind == FormKind::NounPlural || kind == FormKind::NounGenitive) && !noun {
            Vec::new()
        } else {
            collect_form_values(forms, kind, limits[i])
        };
        proof {
            if (kind == FormKind::NounPlural || kind == FormKind::NounGenitive) && !noun {
                assert(str_views(values@) =~= Seq::<Seq<char>>::empty());
            }
        }
        members.push((owned(keys[i]), str_array_of_strings(&values)));
        i = i + 1;
    }
    JsonValue::Object(members)
}

// ---------------------------------------------------------------------------
// Rows and the payload
// ---------------------------------------------------------------------------

/// A dictionary row of the headword.
#[derive(Debug)]
pub struct DictionaryRow {
    pub headword: String,
    pub raw_data: JsonValue,
    pub is_form_of: bool,
    pub pos: Option<String>,
}

/// The rows whose facts are given: those with the first row's headword,
/// and of them only the ones that are not form references when there is
/// any such.
pub open spec fn preferred_rows(rows: Seq<DictionaryRow>) -> Seq<int> {
    if rows.len() == 0 {
        Seq::empty()
    } else {
        let same_head = crate::text::keep(
            Seq::new(rows.len(), |i: int| i),
            |i: int| rows[i].headword@ == rows[0].headword@,
        );
        let own = crate::text::keep(same_head, |i: int| !rows[i].is_form_of);
        if own.len() > 0 {
            own
        } else {
            same_head
        }
    }
}

/// The indices of the preferred rows, in order.
pub fn preferred_headword_rows(rows: &Vec<DictionaryRow>) -> (r: Vec<usize>)
    ensures
        r@.map_values(|i: usize| i as int) == preferred_rows(rows@),
{
    if rows.len() == 0 {
        let r: Vec<usize> = Vec::new();
        assert(r@.map_values(|i: usize| i as int) =~= Seq::<int>::empty());
        return r;
    }
    let ghost idx = Seq::new(rows@.len(), |i: int| i);
    let first = chars_of(rows[0].headword.as_str());
    let mut same_head: Vec<usize> = Vec::new();
    let mut own: Vec<usize> = Vec::new();
    let mut i: usize = 0;
    while i < rows.len()
        invariant
            0 <= i <= rows@.len(),
            rows@.len() > 0,
            idx == Seq::new(rows@.len(), |i: int| i),
            first@ == rows@[0].headword@,
            same_head@.map_values(|i: usize| i as int) == crate::text::keep(
                idx.take(i as int),
                |i: int| rows@[i].headword@ == rows@[0].headword@,
            ),
            own@.map_values(|i: usize| i as int) == crate::text::keep(
                crate::text::keep(idx.take(i as int), |i: int| rows@[i].headword@ == rows@[0].headword@),
                |i: int| !rows@[i].is_form_of,
            ),
        decreases rows@.len() - i,
    {
        assert(idx.take(i + 1).drop_last() =~= idx.take(i as int));
        assert(idx.take(i + 1).last() == i as int);
        let h = chars_of(rows[i].headword.as_str());
        let ghost same_p = |i: int| rows@[i].headword@ == rows@[0].headword@;
        let ghost own_p = |i: int| !rows@[i].is_form_of;
        let ghost inner_p = crate::text::keep(idx.take(i as int), same_p);
        let ghost inner_c = crate::text::keep(idx.take(i + 1), same_p);
        if same(&h, &first) {
            assert(inner_c == inner_p.push(i as int));
            assert(inner_c.drop_last() =~= inner_p);
            assert(crate::text::keep(inner_c, own_p) == (if !rows@[i as int].is_form_of {
                crate::text::keep(inner_p, own_p).push(i as int)
            } else {
                crate::text::keep(inner_p, own_p)
            }));
            let ghost sb = same_head@;
            let ghost ob = own@;
            same_head.push(i);
            assert(same_head@.map_values(|i: usize| i as int) =~= sb.map_values(|i: usize| i as int).push(i as int));
            if !rows[i].is_form_of {
                own.push(i);
                assert(own@.map_values(|i: usize| i as int) =~= ob.map_values(|i: usize| i as int).push(i as int));
            }
        } else {
            assert(inner_c == inner_p);
        }
        i = i + 1;
    }
    assert(idx.take(rows@.len() as int) =~= idx);
    if own.len() > 0 {
        own
    } else {
        same_head
    }
}

/// `v` is the fact object of a row.
pub open spec fn is_row_fact(v: JsonValue, row: DictionaryRow) -> bool {
    &&& v is Object
    &&& v->Object_0@.len() == 7
    &&& v->Object_0@[0].0@ == "word"@
    &&& v->Object_0@[0].1 is Str
    &&& v->Object_0@[0].1->Str_0@ == (match field_str(row.raw_data, "word"@) {
        Some(w) => w,
        None => Seq::empty(),
    })
    &&& v->Object_0@[1].0@ == "pos"@
    &&& v->Object_0@[1].1 is Str
    &&& v->Object_0@[1].1->Str_0@ == (match row.pos {
        Some(p) => p@,
        None => "unknown"@,
    })
    &&& v->Object_0@[2].0@ == "is_form_of"@
    &&& v->Object_0@[2].1 == JsonValue::Bool(row.is_form_of)
    &&& v->Object_0@[3].0@ == "ipas"@
    &&& v->Object_0@[3].1 is Array
    &&& smallest_distinct(
        v->Object_0@[3].1->Array_0@.map_values(|x: JsonValue| x->Str_0@),
        item_texts(field_arr(row.raw_data, "sounds"@), "ipa"@),
        4,
    )
    &&& v->Object_0@[4].0@ == "head_templates"@
    &&& v->Object_0@[4].1 is Array
    &&& smallest_distinct(
        v->Object_0@[4].1->Array_0@.map_values(|x: JsonValue| x->Str_0@),
        item_texts(field_arr(row.raw_data, "head_templates"@), "expansion"@),
        4,
    )
    &&& v->Object_0@[5].0@ == "senses"@
    &&& v->Object_0@[5].1 is Array
    &&& v->Object_0@[5].1->Array_0@.len() == first_n(sense_facts(field_arr(row.raw_data, "senses"@)), 8).len()
    &&& forall|k: int|
        0 <= k < v->Object_0@[5].1->Array_0@.len() ==> is_sense_object(
            #[trigger] v->Object_0@[5].1->Array_0@[k],
            first_n(sense_facts(field_arr(row.raw_data, "senses"@)), 8)[k],
        )
    &&& v->Object_0@[6].0@ == "forms"@
    &&& is_fact_forms(v->Object_0@[6].1, row.raw_data)
}

pub fn build_row_fact(row: &DictionaryRow) -> (r: JsonValue)
    ensures
        is_row_fact(r, *row),
{
    proof {
        reveal_strlit("");
    }
    let word = match str_field(&row.raw_data, "word") {
        Some(w) => owned(w),
        None => String::new(),
    };
    let pos = match &row.pos {
        Some(p) => owned(p.as_str()),
        None => owned("unknown"),
    };
    let ipas = collect_ipas(&row.raw_data);
    let ia = str_array_of_strings(&ipas);
    assert(ia->Array_0@.map_values(|x: JsonValue| x->Str_0@) =~= str_views(ipas@));
    let templates = collect_head_templates(&row.raw_data);
    let ta = str_array_of_strings(&templates);
    assert(ta->Array_0@.map_values(|x: JsonValue| x->Str_0@) =~= str_views(templates@));
    let senses = collect_senses(&row.raw_data);
    let mut members: Vec<(String, JsonValue)> = Vec::new();
    members.push((owned("word"), JsonValue::Str(word)));
    members.push((owned("pos"), JsonValue::Str(pos)));
    members.push((owned("is_form_of"), JsonValue::Bool(row.is_form_of)));
    members.push((owned("ipas"), ia));
    members.push((owned("head_templates"), ta));
    members.push((owned("senses"), JsonValue::Array(senses)));
    members.push((owned("forms"), collect_fact_forms(&row.raw_data)));
    JsonValue::Object(members)
}

/// The facts handed to the first model: the query, its case, and the fact
/// object of each preferred row, in order.
pub fn build_light_dictionary_facts_payload(word: &str, rows: &Vec<DictionaryRow>) -> (r: JsonValue)
    ensures
        r is Object,
        r->Object_0@.len() == 3,
        r->Object_0@[0].0@ == "query"@,
        r->Object_0@[0].1 is Str && r->Object_0@[0].1->Str_0@ == word@,
        r->Object_0@[1].0@ == "case_signal"@,
        r->Object_0@[1].1 is Str && r->Object_0@[1].1->Str_0@ == case_signal(word@),
        r->Object_0@[2].0@ == "dictionary_rows"@,
        r->Object_0@[2].1 is Array,
        r->Object_0@[2].1->Array_0@.len() == preferred_rows(rows@).len(),
        forall|k: int|
            0 <= k < preferred_rows(rows@).len() ==> is_row_fact(
                #[trigger] r->Object_0@[2].1->Array_0@[k],
                rows@[preferred_rows(rows@)[k]],
            ),
{
    let idx = preferred_headword_rows(rows);
    let ghost pv = idx@.map_values(|i: usize| i as int);
    proof {
        if rows@.len() > 0 {
            let n = Seq::new(rows@.len(), |i: int| i);
            let same_p = |i: int| rows@[i].headword@ == rows@[0].headword@;
            let own_p = |i: int| !rows@[i].is_form_of;
            let sh = crate::text::keep(n, same_p);
            crate::text::lemma_keep_contains(n, same_p);
            crate::text::lemma_keep_contains(sh, own_p);
            assert forall|j: int| 0 <= j < pv.len() implies 0 <= #[trigger] pv[j] < rows@.len() by {
                if crate::text::keep(sh, own_p).len() > 0 {
                    assert(sh.contains(pv[j]));
                } else {
                    assert(sh[j] == pv[j]);
                }
                assert(n.contains(pv[j]) || sh.contains(pv[j]));
                if sh.contains(pv[j]) {
                    let m = choose|m: int| 0 <= m < sh.len() && sh[m] == pv[j];
                    assert(n.contains(sh[m]));
                }
            }
        }
    }
    let mut facts: Vec<JsonValue> = Vec::new();
    let mut k: usize = 0;
    while k < idx.len()
        invariant
            0 <= k <= idx@.len(),
            pv == idx@.map_values(|i: usize| i as int),
            pv == preferred_rows(rows@),
            facts@.len() == k,
            forall|j: int| 0 <= j < pv.len() ==> 0 <= #[trigger] pv[j] < rows@.len(),
            forall|j: int| 0 <= j < k ==> is_row_fact(#[trigger] facts@[j], rows@[pv[j]]),
        decreases idx@.len() - k,
    {
        assert(pv[k as int] == idx@[k as int] as int);
        facts.push(build_row_fact(&rows[idx[k]]));
        k = k + 1;
    }
    let mut members: Vec<(String, JsonValue)> = Vec::new();
    members.push((owned("query"), JsonValue::Str(owned(word))));
    members.push((owned("case_signal"), JsonValue::Str(owned(detect_case_signal(word)))));
    members.push((owned("dictionary_rows"), JsonValue::Array(facts)));
    JsonValue::Object(members)
}

} // verus!
