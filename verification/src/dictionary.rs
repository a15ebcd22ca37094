//! Facts read from a dictionary entry's raw data: part of speech, tags,
//! forms, senses, examples and usage notes, and the analyses built from
//! them alone.

use vstd::prelude::*;
use crate::documents::AnalysisDocument;
use crate::follow_up_answer::{
    dict_ipa, dictionary_ipa, first_n, first_n_exec, strs_of, strs_of_exec,
};
use crate::json::{json_get, JsonValue};
use crate::text::{
    chars_of, extend, extend_str, join, join_exec, keep, owned, same, slice_of, str_views,
    string_of, trim, trim_exec, views,
};

verus! {

// ---------------------------------------------------------------------------
// Reading the raw data
// ---------------------------------------------------------------------------

/// The elements of the array under `key`; empty when there is none.
pub open spec fn field_arr(v: JsonValue, key: Seq<char>) -> Seq<JsonValue> {
    match json_get(v, key) {
        Some(JsonValue::Array(xs)) => xs@,
        _ => Seq::empty(),
    }
}

/// The text of the string under `key`.
pub open spec fn field_str(v: JsonValue, key: Seq<char>) -> Option<Seq<char>> {
    match json_get(v, key) {
        Some(JsonValue::Str(s)) => Some(s@),
        _ => None,
    }
}

pub(crate) fn array_field<'a>(v: &'a JsonValue, key: &str) -> (r: Option<&'a Vec<JsonValue>>)
    ensures
        r matches Some(xs) ==> json_get(*v, key@) == Some(JsonValue::Array(*xs)) && field_arr(
            *v,
            key@,
        ) == xs@,
        r is None ==> field_arr(*v, key@) == Seq::<JsonValue>::empty() && !(json_get(
            *v,
            key@,
        ) matches Some(JsonValue::Array(_))),
{
    match v.get(key) {
        Some(x) => x.as_array(),
        None => None,
    }
}

pub(crate) fn str_field<'a>(v: &'a JsonValue, key: &str) -> (r: Option<&'a str>)
    ensures
        r matches Some(s) ==> field_str(*v, key@) == Some(s@),
        r is None ==> field_str(*v, key@) is None,
{
    match v.get(key) {
        Some(x) => x.as_str(),
        None => None,
    }
}

// ---------------------------------------------------------------------------
// Tags
// ---------------------------------------------------------------------------

/// Tags that say nothing to a learner: inflection classes and table markers.
pub open spec fn is_noise(t: Seq<char>) -> bool {
    ||| t == "class-1"@
    ||| t == "class-2"@
    ||| t == "class-3"@
    ||| t == "class-4"@
    ||| t == "class-5"@
    ||| t == "class-6"@
    ||| t == "class-7"@
    ||| t == "strong"@
    ||| t == "weak"@
    ||| t == "table-tags"@
    ||| t == "inflection-template"@
    ||| t == "often"@
}

pub(crate) fn is_lit(t: &Vec<char>, lit: &str) -> (r: bool)
    ensures
        r == (t@ == lit@),
{
    let l = chars_of(lit);
    same(t, &l)
}

pub fn is_noise_tag(tag: &str) -> (r: bool)
    ensures
        r == is_noise(tag@),
{
    let t = chars_of(tag);
    is_lit(&t, "class-1") || is_lit(&t, "class-2") || is_lit(&t, "class-3") || is_lit(&t, "class-4")
        || is_lit(&t, "class-5") || is_lit(&t, "class-6") || is_lit(&t, "class-7") || is_lit(
        &t,
        "strong",
    ) || is_lit(&t, "weak") || is_lit(&t, "table-tags") || is_lit(&t, "inflection-template")
        || is_lit(&t, "often")
}

/// The string tags of the senses, sense by sense.
pub open spec fn sense_tag_texts(ss: Seq<JsonValue>) -> Seq<Seq<char>>
    decreases ss.len(),
{
    if ss.len() == 0 {
        Seq::empty()
    } else {
        sense_tag_texts(ss.drop_last()) + strs_of(field_arr(ss.last(), "tags"@))
    }
}

/// The entry's tags: the first four that are not noise, led by the part of
/// speech unless it is among them; the part of speech alone when none is
/// left.
pub open spec fn tags_for(raw: JsonValue, pos: Seq<char>) -> Seq<Seq<char>> {
    let kept = first_n(
        keep(sense_tag_texts(field_arr(raw, "senses"@)), |t: Seq<char>| !is_noise(t)),
        4,
    );
    if kept.len() == 0 {
        seq![pos]
    } else if !kept.contains(pos) {
        seq![pos] + kept
    } else {
        kept
    }
}

pub fn build_tags(raw_data: &JsonValue, fallback_pos: &str) -> (r: Vec<String>)
    ensures
        str_views(r@) == tags_for(*raw_data, fallback_pos@),
{
    let ghost ss = field_arr(*raw_data, "senses"@);
    let mut all: Vec<Vec<char>> = Vec::new();
    match array_field(raw_data, "senses") {
        Some(senses) => {
            let mut i: usize = 0;
            while i < senses.len()
                invariant
                    0 <= i <= senses@.len(),
                    ss == senses@,
                    views(all@) == sense_tag_texts(ss.take(i as int)),
                decreases senses@.len() - i,
            {
                assert(ss.take(i + 1).drop_last() =~= ss.take(i as int));
                assert(ss.take(i + 1).last() == ss[i as int]);
                let ts: Vec<Vec<char>> = match array_field(&senses[i], "tags") {
                    Some(tags) => strs_of_exec(tags),
                    None => Vec::new(),
                };
                let ghost before = views(all@);
                let mut j: usize = 0;
                while j < ts.len()
                    invariant
                        0 <= j <= ts@.len(),
                        views(all@) == before + views(ts@).take(j as int),
                    decreases ts@.len() - j,
                {
                    let x = slice_of(&ts[j], 0, ts[j].len());
                    assert(x@ =~= views(ts@)[j as int]);
                    let ghost xv = x@;
                    let ghost prev = all@;
                    all.push(x);
                    assert(all@ == prev.push(x));
                    assert(views(all@) =~= views(prev).push(xv));
                    assert(views(all@) =~= before + views(ts@).take(j + 1));
                    j = j + 1;
                }
                assert(views(ts@).take(ts@.len() as int) =~= views(ts@));
                i = i + 1;
            }
            assert(ss.take(senses@.len() as int) =~= ss);
        },
        None => {
            assert(ss =~= Seq::<JsonValue>::empty());
            assert(views(all@) =~= sense_tag_texts(ss));
        },
    }
    let ghost av = views(all@);
    let mut shown: Vec<Vec<char>> = Vec::new();
    let mut k: usize = 0;
    while k < all.len()
        invariant
            0 <= k <= all@.len(),
            av == views(all@),
            views(shown@) == keep(av.take(k as int), |t: Seq<char>| !is_noise(t)),
        decreases all@.len() - k,
    {
        assert(av.take(k + 1).drop_last() =~= av.take(k as int));
        assert(av.take(k + 1).last() == all@[k as int]@);
        let s = string_of(&all[k]);
        if !is_noise_tag(s.as_str()) {
            let x = slice_of(&all[k], 0, all[k].len());
            assert(x@ =~= av[k as int]);
            let ghost before = views(shown@);
            shown.push(x);
            assert(views(shown@) =~= before.push(av[k as int]));
        }
        k = k + 1;
    }
    assert(av.take(av.len() as int) =~= av);
    let kept = first_n_exec(&shown, 4);
    let ghost kv = views(kept@);
    let p = chars_of(fallback_pos);
    let mut has_pos = false;
    let mut m: usize = 0;
    while m < kept.len()
        invariant
            0 <= m <= kept@.len(),
            kv == views(kept@),
            p@ == fallback_pos@,
            has_pos <==> exists|j: int| 0 <= j < m && kv[j] == fallback_pos@,
        decreases kept@.len() - m,
    {
        assert(kv[m as int] == kept@[m as int]@);
        if same(&kept[m], &p) {
            has_pos = true;
        }
        m = m + 1;
    }
    proof {
        if kv.contains(fallback_pos@) {
            let j = choose|j: int| 0 <= j < kv.len() && kv[j] == fallback_pos@;
            assert(j < m);
        }
    }
    let mut r: Vec<String> = Vec::new();
    if kept.len() == 0 || !has_pos {
        r.push(owned(fallback_pos));
    }
    let ghost base = str_views(r@);
    let mut n: usize = 0;
    while n < kept.len()
        invariant
            0 <= n <= kept@.len(),
            kv == views(kept@),
            str_views(r@) == base + kv.take(n as int),
        decreases kept@.len() - n,
    {
        let s = string_of(&kept[n]);
        assert(s@ == kv[n as int]);
        let ghost prev = r@;
        let ghost sv = s@;
        r.push(s);
        assert(str_views(r@) =~= str_views(prev).push(sv));
        assert(str_views(r@) =~= base + kv.take(n + 1));
        n = n + 1;
    }
    assert(kv.take(kv.len() as int) =~= kv);
    assert(str_views(r@) =~= tags_for(*raw_data, fallback_pos@));
    r
}

// ---------------------------------------------------------------------------
// Part of speech, pronunciation, auxiliary
// ---------------------------------------------------------------------------

/// The part of speech, "未知词性" when the entry has none.
pub open spec fn pos_of(raw: JsonValue) -> Seq<char> {
    match field_str(raw, "pos"@) {
        Some(p) => p,
        None => "未知词性"@,
    }
}

pub fn dictionary_pos<'a>(raw_data: &'a JsonValue) -> (r: &'a str)
    ensures
        r@ == pos_of(*raw_data),
{
    match str_field(raw_data, "pos") {
        Some(p) => p,
        None => "未知词性",
    }
}

/// The pronunciation of the first sound that has one, empty otherwise.
pub open spec fn ipa_of(raw: JsonValue) -> Seq<char> {
    match dict_ipa(raw) {
        Some(x) => x,
        None => Seq::empty(),
    }
}

pub fn dictionary_ipa_text(raw_data: &JsonValue) -> (r: String)
    ensures
        r@ == ipa_of(*raw_data),
{
    match dictionary_ipa(raw_data) {
        Some(x) => x,
        None => String::new(),
    }
}

/// Whether a form carries the tag "auxiliary".
pub open spec fn is_auxiliary_form(form: JsonValue) -> bool {
    strs_of(field_arr(form, "tags"@)).contains("auxiliary"@)
}

/// The text of the first auxiliary form from index `i` on that has one.
pub open spec fn auxiliary_from(fs: Seq<JsonValue>, i: int) -> Option<Seq<char>>
    decreases fs.len() - i,
{
    if i < 0 || i >= fs.len() {
        None
    } else if is_auxiliary_form(fs[i]) && field_str(fs[i], "form"@) is Some {
        field_str(fs[i], "form"@)
    } else {
        auxiliary_from(fs, i + 1)
    }
}

pub(crate) fn contains_text(v: &Vec<Vec<char>>, lit: &str) -> (r: bool)
    ensures
        r == views(v@).contains(lit@),
{
    let l = chars_of(lit);
    let mut i: usize = 0;
    while i < v.len()
        invariant
            0 <= i <= v@.len(),
            l@ == lit@,
            forall|j: int| 0 <= j < i ==> views(v@)[j] != lit@,
        decreases v@.len() - i,
    {
        if same(&v[i], &l) {
            assert(views(v@)[i as int] == lit@);
            return true;
        }
        i = i + 1;
    }
    false
}

/// The perfect-tense auxiliary listed among the forms.
pub fn find_auxiliary<'a>(raw_data: &'a JsonValue) -> (r: Option<&'a str>)
    ensures
        r matches Some(x) ==> auxiliary_from(field_arr(*raw_data, "forms"@), 0) == Some(x@),
        r is None ==> auxiliary_from(field_arr(*raw_data, "forms"@), 0) is None,
{
    let ghost fs = field_arr(*raw_data, "forms"@);
    let forms = match array_field(raw_data, "forms") {
        Some(f) => f,
        None => {
            return None;
        },
    };
    let mut i: usize = 0;
    while i < forms.len()
        invariant
            0 <= i <= forms@.len(),
            fs == forms@,
            fs == field_arr(*raw_data, "forms"@),
            auxiliary_from(fs, 0) == auxiliary_from(fs, i as int),
        decreases forms@.len() - i,
    {
        let tags: Vec<Vec<char>> = match array_field(&forms[i], "tags") {
            Some(t) => strs_of_exec(t),
            None => Vec::new(),
        };
        assert(views(tags@) =~= strs_of(field_arr(fs[i as int], "tags"@)));
        if contains_text(&tags, "auxiliary") {
            match str_field(&forms[i], "form") {
                Some(x) => {
                    assert(is_auxiliary_form(fs[i as int]));
                    assert(field_str(fs[i as int], "form"@) == Some(x@));
                    assert(auxiliary_from(fs, i as int) == Some(x@));
                    return Some(x);
                },
                None => {},
            }
        }
        i = i + 1;
    }
    None
}

/// At most `max` characters, followed by "..." when the text was cut.
pub open spec fn truncated_for_prompt(v: Seq<char>, max: nat) -> Seq<char> {
    if v.len() <= max {
        v
    } else {
        v.take(max as int) + "..."@
    }
}

pub fn truncate_for_prompt(value: &str, max_len: usize) -> (r: String)
    ensures
        r@ == truncated_for_prompt(value@, max_len as nat),
{
    let v = chars_of(value);
    if v.len() <= max_len {
        owned(value)
    } else {
        let mut t = slice_of(&v, 0, max_len);
        extend_str(&mut t, "...");
        string_of(&t)
    }
}

// ---------------------------------------------------------------------------
// Forms
// ---------------------------------------------------------------------------

/// A form listed for the learner: one without a source or from the
/// conjugation table, with its first `tag_limit` tags in parentheses.
pub open spec fn compact_form(form: JsonValue, tag_limit: nat) -> Option<Seq<char>> {
    if !(json_get(form, "source"@) is None || field_str(form, "source"@) == Some("conjugation"@)) {
        None
    } else {
        match field_str(form, "form"@) {
            Some(fv) => {
                let tags = join(first_n(strs_of(field_arr(form, "tags"@)), tag_limit), ", "@);
                if tags.len() == 0 {
                    Some(fv)
                } else {
                    Some(fv + " ("@ + tags + ")"@)
                }
            },
            None => None,
        }
    }
}

pub open spec fn compact_form_list(fs: Seq<JsonValue>, tag_limit: nat) -> Seq<Seq<char>>
    decreases fs.len(),
{
    if fs.len() == 0 {
        Seq::empty()
    } else {
        match compact_form(fs.last(), tag_limit) {
            Some(t) => compact_form_list(fs.drop_last(), tag_limit).push(t),
            None => compact_form_list(fs.drop_last(), tag_limit),
        }
    }
}

fn compact_form_exec(form: &JsonValue, tag_limit: usize) -> (r: Option<Vec<char>>)
    ensures
        r matches Some(t) ==> compact_form(*form, tag_limit as nat) == Some(t@),
        r is None ==> compact_form(*form, tag_limit as nat) is None,
{
    match form.get("source") {
        Some(_) => match str_field(form, "source") {
            Some(s) => {
                let sc = chars_of(s);
                if !is_lit(&sc, "conjugation") {
                    return None;
                }
            },
            None => {
                return None;
            },
        },
        None => {},
    }
    match str_field(form, "form") {
        Some(fv) => {
            let ts: Vec<Vec<char>> = match array_field(form, "tags") {
                Some(t) => strs_of_exec(t),
                None => Vec::new(),
            };
            let first = first_n_exec(&ts, tag_limit);
            let sep = chars_of(", ");
            let tags = join_exec(&first, &sep);
            let mut out = chars_of(fv);
            if tags.len() > 0 {
                extend_str(&mut out, " (");
                extend(&mut out, &tags);
                extend_str(&mut out, ")");
            }
            Some(out)
        },
        None => None,
    }
}

/// The first `form_limit` forms listed for the learner.
pub fn compact_forms(raw_data: &JsonValue, form_limit: usize, tag_limit: usize) -> (r: Vec<String>)
    ensures
        str_views(r@) == first_n(
            compact_form_list(field_arr(*raw_data, "forms"@), tag_limit as nat),
            form_limit as nat,
        ),
{
    let ghost fs = field_arr(*raw_data, "forms"@);
    let mut all: Vec<Vec<char>> = Vec::new();
    match array_field(raw_data, "forms") {
        Some(forms) => {
            let mut i: usize = 0;
            while i < forms.len()
                invariant
                    0 <= i <= forms@.len(),
                    fs == forms@,
                    views(all@) == compact_form_list(fs.take(i as int), tag_limit as nat),
                decreases forms@.len() - i,
            {
                assert(fs.take(i + 1).drop_last() =~= fs.take(i as int));
                assert(fs.take(i + 1).last() == fs[i as int]);
                match compact_form_exec(&forms[i], tag_limit) {
                    Some(t) => {
                        let ghost before = views(all@);
                        let ghost tv = t@;
                        all.push(t);
                        assert(views(all@) =~= before.push(tv));
                    },
                    None => {},
                }
                i = i + 1;
            }
            assert(fs.take(forms@.len() as int) =~= fs);
        },
        None => {
            assert(views(all@) =~= compact_form_list(fs, tag_limit as nat));
        },
    }
    let kept = first_n_exec(&all, form_limit);
    strings_of_views(&kept)
}

pub(crate) fn strings_of_views(v: &Vec<Vec<char>>) -> (r: Vec<String>)
    ensures
        str_views(r@) == views(v@),
{
    let mut r: Vec<String> = Vec::new();
    let mut i: usize = 0;
    while i < v.len()
        invariant
            0 <= i <= v@.len(),
            str_views(r@) == views(v@).take(i as int),
        decreases v@.len() - i,
    {
        let s = string_of(&v[i]);
        assert(s@ == views(v@)[i as int]);
        let ghost prev = r@;
        let ghost sv = s@;
        r.push(s);
        assert(str_views(r@) =~= str_views(prev).push(sv));
        assert(str_views(r@) =~= views(v@).take(i + 1));
        i = i + 1;
    }
    assert(views(v@).take(v@.len() as int) =~= views(v@));
    r
}

// ---------------------------------------------------------------------------
// Filters over texts
// ---------------------------------------------------------------------------

/// A register or usage tag worth a note.
pub open spec fn is_register_tag(t: Seq<char>) -> bool {
    ||| t == "colloquial"@
    ||| t == "formal"@
    ||| t == "regional"@
    ||| t == "dated"@
    ||| t == "impersonal"@
}

fn is_register_tag_exec(t: &Vec<char>) -> (r: bool)
    ensures
        r == is_register_tag(t@),
{
    is_lit(t, "colloquial") || is_lit(t, "formal") || is_lit(t, "regional") || is_lit(t, "dated")
        || is_lit(t, "impersonal")
}

/// The texts that are not noise tags (`register` false) or that are
/// register tags (`register` true), in order.
fn keep_tags(v: &Vec<Vec<char>>, register: bool) -> (r: Vec<Vec<char>>)
    ensures
        !register ==> views(r@) == keep(views(v@), |t: Seq<char>| !is_noise(t)),
        register ==> views(r@) == keep(views(v@), |t: Seq<char>| is_register_tag(t)),
{
    let ghost vv = views(v@);
    let mut r: Vec<Vec<char>> = Vec::new();
    let mut i: usize = 0;
    while i < v.len()
        invariant
            0 <= i <= v@.len(),
            vv == views(v@),
            !register ==> views(r@) == keep(vv.take(i as int), |t: Seq<char>| !is_noise(t)),
            register ==> views(r@) == keep(vv.take(i as int), |t: Seq<char>| is_register_tag(t)),
        decreases v@.len() - i,
    {
        assert(vv.take(i + 1).drop_last() =~= vv.take(i as int));
        assert(vv.take(i + 1).last() == v@[i as int]@);
        let s = string_of(&v[i]);
        let wanted = if register {
            is_register_tag_exec(&v[i])
        } else {
            !is_noise_tag(s.as_str())
        };
        if wanted {
            let x = slice_of(&v[i], 0, v[i].len());
            assert(x@ =~= vv[i as int]);
            let ghost before = views(r@);
            r.push(x);
            assert(views(r@) =~= before.push(vv[i as int]));
        }
        i = i + 1;
    }
    assert(vv.take(vv.len() as int) =~= vv);
    r
}

fn string_texts(v: &Vec<JsonValue>) -> (r: Vec<Vec<char>>)
    ensures
        views(r@) == strs_of(v@),
{
    strs_of_exec(v)
}

/// The string texts of the array under `key`.
fn field_texts(v: &JsonValue, key: &str) -> (r: Vec<Vec<char>>)
    ensures
        views(r@) == strs_of(field_arr(*v, key@)),
{
    match array_field(v, key) {
        Some(xs) => string_texts(xs),
        None => {
            let r: Vec<Vec<char>> = Vec::new();
            assert(views(r@) =~= strs_of(Seq::<JsonValue>::empty()));
            r
        },
    }
}

// ---------------------------------------------------------------------------
// Senses
// ---------------------------------------------------------------------------

/// A sense with its first two glosses joined by `sep` and its first three
/// tags in brackets; `None` without glosses.
pub open spec fn compact_sense(sense: JsonValue, sep: Seq<char>) -> Option<Seq<char>> {
    match json_get(sense, "glosses"@) {
        Some(JsonValue::Array(gs)) => {
            let joined = join(first_n(strs_of(gs@), 2), sep);
            if joined.len() == 0 {
                None
            } else {
                let tags = join(first_n(strs_of(field_arr(sense, "tags"@)), 3), ", "@);
                if tags.len() == 0 {
                    Some(joined)
                } else {
                    Some(joined + " ["@ + tags + "]"@)
                }
            }
        },
        _ => None,
    }
}

pub open spec fn compact_sense_list(ss: Seq<JsonValue>, sep: Seq<char>) -> Seq<Seq<char>>
    decreases ss.len(),
{
    if ss.len() == 0 {
        Seq::empty()
    } else {
        match compact_sense(ss.last(), sep) {
            Some(t) => compact_sense_list(ss.drop_last(), sep).push(t),
            None => compact_sense_list(ss.drop_last(), sep),
        }
    }
}

fn compact_sense_exec(sense: &JsonValue, sep: &str) -> (r: Option<Vec<char>>)
    ensures
        r matches Some(t) ==> compact_sense(*sense, sep@) == Some(t@),
        r is None ==> compact_sense(*sense, sep@) is None,
{
    match array_field(sense, "glosses") {
        Some(gs) => {
            let texts = string_texts(gs);
            let two = first_n_exec(&texts, 2);
            let sp = chars_of(sep);
            let mut joined = join_exec(&two, &sp);
            if joined.len() == 0 {
                return None;
            }
            let tags = field_texts(sense, "tags");
            let three = first_n_exec(&tags, 3);
            let comma = chars_of(", ");
            let tj = join_exec(&three, &comma);
            if tj.len() > 0 {
                extend_str(&mut joined, " [");
                extend(&mut joined, &tj);
                extend_str(&mut joined, "]");
            }
            Some(joined)
        },
        None => None,
    }
}

/// The first `sense_limit` senses that have glosses, each compacted.
pub fn compact_senses(raw_data: &JsonValue, sense_limit: usize, sep: &str) -> (r: Vec<String>)
    ensures
        str_views(r@) == compact_sense_list(
            first_n(field_arr(*raw_data, "senses"@), sense_limit as nat),
            sep@,
        ),
{
    let ghost ss = first_n(field_arr(*raw_data, "senses"@), sense_limit as nat);
    let mut out: Vec<Vec<char>> = Vec::new();
    match array_field(raw_data, "senses") {
        Some(senses) => {
            let k = if senses.len() <= sense_limit { senses.len() } else { sense_limit };
            assert(ss =~= senses@.take(k as int));
            let mut i: usize = 0;
            while i < k
                invariant
                    0 <= i <= k <= senses@.len(),
                    ss == senses@.take(k as int),
                    views(out@) == compact_sense_list(ss.take(i as int), sep@),
                decreases k - i,
            {
                assert(ss.take(i + 1).drop_last() =~= ss.take(i as int));
                assert(ss.take(i + 1).last() == senses@[i as int]);
                match compact_sense_exec(&senses[i], sep) {
                    Some(t) => {
                        let ghost before = views(out@);
                        let ghost tv = t@;
                        out.push(t);
                        assert(views(out@) =~= before.push(tv));
                    },
                    None => {},
                }
                i = i + 1;
            }
            assert(ss.take(k as int) =~= ss);
        },
        None => {
            assert(ss =~= Seq::<JsonValue>::empty());
            assert(views(out@) =~= compact_sense_list(ss, sep@));
        },
    }
    strings_of_views(&out)
}

/// A sense as a list line: its first two glosses, then its first four
/// tags that are not noise in full-width parentheses; `None` without
/// glosses.
pub open spec fn detailed_sense(sense: JsonValue) -> Option<Seq<char>> {
    let glosses = first_n(strs_of(field_arr(sense, "glosses"@)), 2);
    if glosses.len() == 0 {
        None
    } else {
        let tags = first_n(keep(strs_of(field_arr(sense, "tags"@)), |t: Seq<char>| !is_noise(t)), 4);
        let line = "- "@ + join(glosses, " / "@);
        if tags.len() == 0 {
            Some(line)
        } else {
            Some(line + "（"@ + join(tags, ", "@) + "）"@)
        }
    }
}

pub open spec fn detailed_sense_list(ss: Seq<JsonValue>) -> Seq<Seq<char>>
    decreases ss.len(),
{
    if ss.len() == 0 {
        Seq::empty()
    } else {
        match detailed_sense(ss.last()) {
            Some(t) => detailed_sense_list(ss.drop_last()).push(t),
            None => detailed_sense_list(ss.drop_last()),
        }
    }
}

fn detailed_sense_exec(sense: &JsonValue) -> (r: Option<Vec<char>>)
    ensures
        r matches Some(t) ==> detailed_sense(*sense) == Some(t@),
        r is None ==> detailed_sense(*sense) is None,
{
    let gl = field_texts(sense, "glosses");
    let glosses = first_n_exec(&gl, 2);
    if glosses.len() == 0 {
        return None;
    }
    let tg = field_texts(sense, "tags");
    let clean = keep_tags(&tg, false);
    let tags = first_n_exec(&clean, 4);
    let mut line = chars_of("- ");
    let slash = chars_of(" / ");
    let g = join_exec(&glosses, &slash);
    extend(&mut line, &g);
    if tags.len() > 0 {
        let comma = chars_of(", ");
        let t = join_exec(&tags, &comma);
        extend_str(&mut line, "（");
        extend(&mut line, &t);
        extend_str(&mut line, "）");
    }
    Some(line)
}

/// The first `sense_limit` senses as list lines, those without glosses
/// left out.
pub fn detailed_senses(raw_data: &JsonValue, sense_limit: usize) -> (r: Vec<String>)
    ensures
        str_views(r@) == detailed_sense_list(
            first_n(field_arr(*raw_data, "senses"@), sense_limit as nat),
        ),
{
    let ghost ss = first_n(field_arr(*raw_data, "senses"@), sense_limit as nat);
    let mut out: Vec<Vec<char>> = Vec::new();
    match array_field(raw_data, "senses") {
        Some(senses) => {
            let k = if senses.len() <= sense_limit { senses.len() } else { sense_limit };
            assert(ss =~= senses@.take(k as int));
            let mut i: usize = 0;
            while i < k
                invariant
                    0 <= i <= k <= senses@.len(),
                    ss == senses@.take(k as int),
                    views(out@) == detailed_sense_list(ss.take(i as int)),
                decreases k - i,
            {
                assert(ss.take(i + 1).drop_last() =~= ss.take(i as int));
                assert(ss.take(i + 1).last() == senses@[i as int]);
                match detailed_sense_exec(&senses[i]) {
                    Some(t) => {
                        let ghost before = views(out@);
                        let ghost tv = t@;
                        out.push(t);
                        assert(views(out@) =~= before.push(tv));
                    },
                    None => {},
                }
                i = i + 1;
            }
            assert(ss.take(k as int) =~= ss);
        },
        None => {
            assert(ss =~= Seq::<JsonValue>::empty());
            assert(views(out@) =~= detailed_sense_list(ss));
        },
    }
    strings_of_views(&out)
}

// ---------------------------------------------------------------------------
// Examples and usage notes
// ---------------------------------------------------------------------------

/// The examples of the senses, sense by sense.
pub open spec fn sense_examples(ss: Seq<JsonValue>) -> Seq<JsonValue>
    decreases ss.len(),
{
    if ss.len() == 0 {
        Seq::empty()
    } else {
        sense_examples(ss.drop_last()) + field_arr(ss.last(), "examples"@)
    }
}

/// The translation of an example: its "translation", else its "english".
pub open spec fn example_translation(ex: JsonValue) -> Option<Seq<char>> {
    match field_str(ex, "translation"@) {
        Some(x) => Some(x),
        None => field_str(ex, "english"@),
    }
}

/// An example as a list line with its translation; `None` without text.
pub open spec fn example_line(ex: JsonValue) -> Option<Seq<char>> {
    match field_str(ex, "text"@) {
        None => None,
        Some(t0) => {
            let text = trim(t0);
            if text.len() == 0 {
                None
            } else {
                match example_translation(ex) {
                    Some(x) => if trim(x).len() > 0 {
                        Some("- `"@ + text + "`\n  释义："@ + trim(x))
                    } else {
                        Some("- `"@ + text + "`"@)
                    },
                    None => Some("- `"@ + text + "`"@),
                }
            }
        },
    }
}

pub open spec fn example_lines(exs: Seq<JsonValue>) -> Seq<Seq<char>>
    decreases exs.len(),
{
    if exs.len() == 0 {
        Seq::empty()
    } else {
        match example_line(exs.last()) {
            Some(t) => example_lines(exs.drop_last()).push(t),
            None => example_lines(exs.drop_last()),
        }
    }
}

fn example_line_exec(ex: &JsonValue) -> (r: Option<Vec<char>>)
    ensures
        r matches Some(t) ==> example_line(*ex) == Some(t@),
        r is None ==> example_line(*ex) is None,
{
    let t0 = match str_field(ex, "text") {
        Some(t) => t,
        None => {
            return None;
        },
    };
    let raw = chars_of(t0);
    let text = trim_exec(&raw);
    if text.len() == 0 {
        return None;
    }
    let tr = match str_field(ex, "translation") {
        Some(x) => Some(x),
        None => str_field(ex, "english"),
    };
    let mut line = chars_of("- `");
    extend(&mut line, &text);
    match tr {
        Some(x) => {
            let xr = chars_of(x);
            let xt = trim_exec(&xr);
            if xt.len() > 0 {
                extend_str(&mut line, "`\n  释义：");
                extend(&mut line, &xt);
            } else {
                extend_str(&mut line, "`");
            }
        },
        None => {
            extend_str(&mut line, "`");
        },
    }
    Some(line)
}

/// The first `example_limit` examples of the senses as list lines.
pub fn collect_examples(raw_data: &JsonValue, example_limit: usize) -> (r: Vec<String>)
    ensures
        str_views(r@) == first_n(
            example_lines(sense_examples(field_arr(*raw_data, "senses"@))),
            example_limit as nat,
        ),
{
    let ghost ss = field_arr(*raw_data, "senses"@);
    let mut out: Vec<Vec<char>> = Vec::new();
    match array_field(raw_data, "senses") {
        Some(senses) => {
            let mut i: usize = 0;
            while i < senses.len()
                invariant
                    0 <= i <= senses@.len(),
                    ss == senses@,
                    views(out@) == example_lines(sense_examples(ss.take(i as int))),
                decreases senses@.len() - i,
            {
                assert(ss.take(i + 1).drop_last() =~= ss.take(i as int));
                assert(ss.take(i + 1).last() == senses@[i as int]);
                let ghost prior = sense_examples(ss.take(i as int));
                match array_field(&senses[i], "examples") {
                    Some(exs) => {
                        let mut j: usize = 0;
                        while j < exs.len()
                            invariant
                                0 <= j <= exs@.len(),
                                views(out@) == example_lines(prior + exs@.take(j as int)),
                            decreases exs@.len() - j,
                        {
                            assert((prior + exs@.take(j + 1)).drop_last() =~= prior + exs@.take(
                                j as int,
                            ));
                            assert((prior + exs@.take(j + 1)).last() == exs@[j as int]);
                            match example_line_exec(&exs[j]) {
                                Some(t) => {
                                    let ghost before = views(out@);
                                    let ghost tv = t@;
                                    out.push(t);
                                    assert(views(out@) =~= before.push(tv));
                                },
                                None => {},
                            }
                            j = j + 1;
                        }
                        assert(exs@.take(exs@.len() as int) =~= exs@);
                        assert(sense_examples(ss.take(i + 1)) =~= prior + exs@);
                    },
                    None => {
                        assert(sense_examples(ss.take(i + 1)) =~= prior);
                    },
                }
                i = i + 1;
            }
            assert(ss.take(senses@.len() as int) =~= ss);
        },
        None => {
            assert(ss =~= Seq::<JsonValue>::empty());
            assert(views(out@) =~= example_lines(sense_examples(ss)));
        },
    }
    let kept = first_n_exec(&out, example_limit);
    strings_of_views(&kept)
}

/// The note of a sense that has register tags.
pub open spec fn sense_note(sense: JsonValue) -> Option<Seq<char>> {
    match json_get(sense, "tags"@) {
        Some(JsonValue::Array(ts)) => {
            let visible = keep(strs_of(ts@), |t: Seq<char>| is_register_tag(t));
            if visible.len() == 0 {
                None
            } else {
                Some("部分义项带有语域/用法标签："@ + join(visible, ", "@) + "。"@)
            }
        },
        _ => None,
    }
}

/// The note of the first sense from index `i` on that has one.
pub open spec fn note_from(ss: Seq<JsonValue>, i: int) -> Option<Seq<char>>
    decreases ss.len() - i,
{
    if i < 0 || i >= ss.len() {
        None
    } else if sense_note(ss[i]) is Some {
        sense_note(ss[i])
    } else {
        note_from(ss, i + 1)
    }
}

/// A note on the register tags of the first sense that has any.
pub fn usage_note(raw_data: &JsonValue) -> (r: Option<String>)
    ensures
        r matches Some(x) ==> note_from(field_arr(*raw_data, "senses"@), 0) == Some(x@),
        r is None ==> note_from(field_arr(*raw_data, "senses"@), 0) is None,
{
    let ghost ss = field_arr(*raw_data, "senses"@);
    let senses = match array_field(raw_data, "senses") {
        Some(s) => s,
        None => {
            return None;
        },
    };
    let mut i: usize = 0;
    while i < senses.len()
        invariant
            0 <= i <= senses@.len(),
            ss == senses@,
            ss == field_arr(*raw_data, "senses"@),
            note_from(ss, 0) == note_from(ss, i as int),
        decreases senses@.len() - i,
    {
        match array_field(&senses[i], "tags") {
            Some(ts) => {
                let texts = string_texts(ts);
                let visible = keep_tags(&texts, true);
                if visible.len() > 0 {
                    let comma = chars_of(", ");
                    let mut line = chars_of("部分义项带有语域/用法标签：");
                    let j = join_exec(&visible, &comma);
                    extend(&mut line, &j);
                    extend_str(&mut line, "。");
                    assert(sense_note(ss[i as int]) == Some(line@));
                    return Some(string_of(&line));
                }
            },
            None => {},
        }
        i = i + 1;
    }
    None
}

// ---------------------------------------------------------------------------
// Analyses built from the dictionary alone
// ---------------------------------------------------------------------------

/// `s` with `x` appended when `c` holds.
pub open spec fn push_when(s: Seq<Seq<char>>, c: bool, x: Seq<char>) -> Seq<Seq<char>> {
    if c {
        s.push(x)
    } else {
        s
    }
}

fn push_text(v: &mut Vec<Vec<char>>, t: Vec<char>)
    ensures
        views(final(v)@) == views(old(v)@).push(t@),
{
    let ghost before = views(v@);
    let ghost tv = t@;
    v.push(t);
    assert(views(v@) =~= before.push(tv));
}

/// `a`, then `b`.
fn prefixed(a: &str, b: &Vec<char>) -> (r: Vec<char>)
    ensures
        r@ == a@ + b@,
{
    let mut r = chars_of(a);
    extend(&mut r, b);
    r
}

/// `a`, then `b`, then `c`.
fn framed(a: &str, b: &Vec<char>, c: &str) -> (r: Vec<char>)
    ensures
        r@ == a@ + b@ + c@,
{
    let mut r = chars_of(a);
    extend(&mut r, b);
    extend_str(&mut r, c);
    r
}

fn joined(parts: &Vec<String>, sep: &str) -> (r: Vec<char>)
    ensures
        r@ == join(str_views(parts@), sep@),
{
    let v = crate::text::chars_of_all(parts);
    let s = chars_of(sep);
    join_exec(&v, &s)
}

/// The sections of the compact answer built from a dictionary entry.
pub open spec fn compact_sections(query: Seq<char>, raw: JsonValue) -> Seq<Seq<char>> {
    let pos = pos_of(raw);
    let ipa = ipa_of(raw);
    let senses = compact_sense_list(first_n(field_arr(raw, "senses"@), 2), " / "@);
    let forms = first_n(compact_form_list(field_arr(raw, "forms"@), 3), 3);
    let s1 = push_when(seq!["## "@ + query], ipa.len() > 0, "*/"@ + ipa + "/*"@);
    let s2 = if senses.len() == 0 {
        s1.push("- 词性："@ + pos)
    } else {
        s1.push("- 核心释义："@ + join(senses, "；"@) + "（"@ + pos + "）"@)
    };
    let s3 = push_when(s2, forms.len() > 0, "- 关键形式："@ + join(forms, "；"@));
    s3.push("- 说明：这是高级查询的快速结果，已优先基于本地字典事实压缩生成。"@)
}

/// A short answer built from the dictionary entry alone: headword,
/// pronunciation, the first two senses and three forms.
pub fn build_compact_analysis_from_dictionary(query: &str, raw_data: &JsonValue) -> (r:
    AnalysisDocument)
    ensures
        r.markdown@ == join(compact_sections(query@, *raw_data), "\n\n"@),
        str_views(r.tags@) == seq![pos_of(*raw_data)],
        r.prototype matches Some(p) && p@ == query@,
        r.structured is None,
        r.aliases@.len() == 0,
        r.attached_phrase_modules@.len() == 0,
        r.dictionary_excerpt is None,
        r.model is None,
        r.quality_mode is None,
{
    let pos = dictionary_pos(raw_data);
    let ipa = dictionary_ipa_text(raw_data);
    let senses = compact_senses(raw_data, 2, " / ");
    let forms = compact_forms(raw_data, 3, 3);
    let mut sections: Vec<Vec<char>> = Vec::new();
    let q = chars_of(query);
    push_text(&mut sections, prefixed("## ", &q));
    let iv = chars_of(ipa.as_str());
    if iv.len() > 0 {
        push_text(&mut sections, framed("*/", &iv, "/*"));
    }
    let pv = chars_of(pos);
    if senses.len() == 0 {
        push_text(&mut sections, prefixed("- 词性：", &pv));
    } else {
        let sj = joined(&senses, "；");
        let mut line = framed("- 核心释义：", &sj, "（");
        extend(&mut line, &pv);
        extend_str(&mut line, "）");
        push_text(&mut sections, line);
    }
    if forms.len() > 0 {
        let fj = joined(&forms, "；");
        push_text(&mut sections, prefixed("- 关键形式：", &fj));
    }
    push_text(&mut sections, chars_of("- 说明：这是高级查询的快速结果，已优先基于本地字典事实压缩生成。"));
    assert(views(sections@) =~= compact_sections(query@, *raw_data));
    let sep = chars_of("\n\n");
    let md = join_exec(&sections, &sep);
    let mut tags: Vec<String> = Vec::new();
    tags.push(owned(pos));
    assert(str_views(tags@) =~= seq![pos_of(*raw_data)]);
    AnalysisDocument {
        markdown: string_of(&md),
        structured: None,
        tags,
        aliases: Vec::new(),
        prototype: Some(owned(query)),
        attached_phrase_modules: Vec::new(),
        dictionary_excerpt: None,
        model: None,
        quality_mode: None,
    }
}

/// The summary line of the full answer: part of speech, pronunciation and
/// perfect-tense auxiliary.
pub open spec fn summary_bits(raw: JsonValue) -> Seq<Seq<char>> {
    let ipa = ipa_of(raw);
    let aux = auxiliary_from(field_arr(raw, "forms"@), 0);
    let b1 = push_when(seq!["词性："@ + pos_of(raw)], ipa.len() > 0, "音标：/"@ + ipa + "/"@);
    match aux {
        Some(a) => b1.push("完成时助动词："@ + a),
        None => b1,
    }
}

/// The sections of the full answer built from a dictionary entry.
pub open spec fn full_sections(query: Seq<char>, raw: JsonValue) -> Seq<Seq<char>> {
    let senses = detailed_sense_list(first_n(field_arr(raw, "senses"@), 3));
    let forms = first_n(compact_form_list(field_arr(raw, "forms"@), 4), 6);
    let examples = first_n(example_lines(sense_examples(field_arr(raw, "senses"@))), 2);
    let s1 = seq!["## "@ + query, "- "@ + join(summary_bits(raw), " | "@)];
    let s2 = push_when(s1, senses.len() > 0, "### 核心义项\n"@ + join(senses, "\n"@));
    let s3 = push_when(s2, forms.len() > 0, "### 关键形式\n- "@ + join(forms, "\n- "@));
    let s4 = push_when(s3, examples.len() > 0, "### 例句\n"@ + join(examples, "\n"@));
    let s5 = match note_from(field_arr(raw, "senses"@), 0) {
        Some(n) => s4.push("### 使用提示\n- "@ + n),
        None => s4,
    };
    s5.push("### 说明\n- 本次结果基于本地字典事实自动整理，用于在模型不可用或超时时提供稳定结果。"@)
}

/// The answer built from the dictionary entry alone when no model can
/// answer: summary, senses, forms, examples and usage note.
pub fn build_full_analysis_from_dictionary(query: &str, raw_data: &JsonValue) -> (r:
    AnalysisDocument)
    ensures
        r.markdown@ == join(full_sections(query@, *raw_data), "\n\n"@),
        str_views(r.tags@) == tags_for(*raw_data, pos_of(*raw_data)),
        r.prototype matches Some(p) && p@ == query@,
        r.structured is None,
        r.aliases@.len() == 0,
        r.attached_phrase_modules@.len() == 0,
        r.dictionary_excerpt is None,
        r.model is None,
        r.quality_mode is None,
{
    let pos = dictionary_pos(raw_data);
    let ipa = dictionary_ipa_text(raw_data);
    let senses = detailed_senses(raw_data, 3);
    let forms = compact_forms(raw_data, 6, 4);
    let examples = collect_examples(raw_data, 2);
    let note = usage_note(raw_data);
    let pv = chars_of(pos);
    let mut bits: Vec<Vec<char>> = Vec::new();
    push_text(&mut bits, prefixed("词性：", &pv));
    let iv = chars_of(ipa.as_str());
    if iv.len() > 0 {
        push_text(&mut bits, framed("音标：/", &iv, "/"));
    }
    match find_auxiliary(raw_data) {
        Some(a) => {
            let av = chars_of(a);
            push_text(&mut bits, prefixed("完成时助动词：", &av));
        },
        None => {},
    }
    assert(views(bits@) =~= summary_bits(*raw_data));
    let mut sections: Vec<Vec<char>> = Vec::new();
    let q = chars_of(query);
    push_text(&mut sections, prefixed("## ", &q));
    let bar = chars_of(" | ");
    let bj = join_exec(&bits, &bar);
    push_text(&mut sections, prefixed("- ", &bj));
    if senses.len() > 0 {
        let sj = joined(&senses, "\n");
        push_text(&mut sections, prefixed("### 核心义项\n", &sj));
    }
    if forms.len() > 0 {
        let fj = joined(&forms, "\n- ");
        push_text(&mut sections, prefixed("### 关键形式\n- ", &fj));
    }
    if examples.len() > 0 {
        let ej = joined(&examples, "\n");
        push_text(&mut sections, prefixed("### 例句\n", &ej));
    }
    match note {
        Some(n) => {
            let nv = chars_of(n.as_str());
            push_text(&mut sections, prefixed("### 使用提示\n- ", &nv));
        },
        None => {},
    }
    push_text(
        &mut sections,
        chars_of("### 说明\n- 本次结果基于本地字典事实自动整理，用于在模型不可用或超时时提供稳定结果。"),
    );
    assert(views(sections@) =~= full_sections(query@, *raw_data));
    let sep = chars_of("\n\n");
    let md = join_exec(&sections, &sep);
    AnalysisDocument {
        markdown: string_of(&md),
        structured: None,
        tags: build_tags(raw_data, pos),
        aliases: Vec::new(),
        prototype: Some(owned(query)),
        attached_phrase_modules: Vec::new(),
        dictionary_excerpt: None,
        model: None,
        quality_mode: None,
    }
}

/// The answer when neither the dictionary nor a model can help.
pub fn build_unavailable_analysis(query: &str) -> (r: AnalysisDocument)
    ensures
        r.markdown@ == "## "@ + query@
            + "\n\n- 当前未命中本地字典，且模型暂时不可用，暂时无法生成完整分析。\n- 建议：检查拼写、尝试输入原形，或稍后重试。"@,
        str_views(r.tags@) == seq!["待确认"@],
        r.prototype matches Some(p) && p@ == query@,
        r.structured is None,
        r.aliases@.len() == 0,
        r.attached_phrase_modules@.len() == 0,
        r.dictionary_excerpt is None,
        r.model is None,
        r.quality_mode is None,
{
    let q = chars_of(query);
    let md = framed(
        "## ",
        &q,
        "\n\n- 当前未命中本地字典，且模型暂时不可用，暂时无法生成完整分析。\n- 建议：检查拼写、尝试输入原形，或稍后重试。",
    );
    let mut tags: Vec<String> = Vec::new();
    tags.push(owned("待确认"));
    assert(str_views(tags@) =~= seq!["待确认"@]);
    AnalysisDocument {
        markdown: string_of(&md),
        structured: None,
        tags,
        aliases: Vec::new(),
        prototype: Some(owned(query)),
        attached_phrase_modules: Vec::new(),
        dictionary_excerpt: None,
        model: None,
        quality_mode: None,
    }
}

/// The facts of a dictionary entry as prompt text.
pub open spec fn entry_summary(raw: JsonValue) -> Seq<char> {
    let lemma = match field_str(raw, "word"@) {
        Some(w) => w,
        None => Seq::empty(),
    };
    let etymology = match field_str(raw, "etymology_text"@) {
        Some(e) => e,
        None => Seq::empty(),
    };
    "lemma: "@ + lemma + "\npos: "@ + pos_of(raw) + "\nipa: "@ + ipa_of(raw) + "\nkey senses:\n- "@
        + join(compact_sense_list(first_n(field_arr(raw, "senses"@), 3), "; "@), "\n- "@)
        + "\nforms: "@ + join(first_n(compact_form_list(field_arr(raw, "forms"@), 4), 5), "; "@)
        + "\netymology: "@ + truncated_for_prompt(etymology, 220)
}

pub fn summarize_dictionary_entry(raw_data: &JsonValue) -> (r: String)
    ensures
        r@ == entry_summary(*raw_data),
{
    let lemma = match str_field(raw_data, "word") {
        Some(w) => w,
        None => "",
    };
    let etym = match str_field(raw_data, "etymology_text") {
        Some(e) => e,
        None => "",
    };
    proof {
        reveal_strlit("");
    }
    let pos = dictionary_pos(raw_data);
    let ipa = dictionary_ipa_text(raw_data);
    let senses = compact_senses(raw_data, 3, "; ");
    let forms = compact_forms(raw_data, 5, 4);
    let et = truncate_for_prompt(etym, 220);
    let mut out = chars_of("lemma: ");
    extend_str(&mut out, lemma);
    extend_str(&mut out, "\npos: ");
    extend_str(&mut out, pos);
    extend_str(&mut out, "\nipa: ");
    extend_str(&mut out, ipa.as_str());
    extend_str(&mut out, "\nkey senses:\n- ");
    let sj = joined(&senses, "\n- ");
    extend(&mut out, &sj);
    extend_str(&mut out, "\nforms: ");
    let fj = joined(&forms, "; ");
    extend(&mut out, &fj);
    extend_str(&mut out, "\netymology: ");
    extend_str(&mut out, et.as_str());
    string_of(&out)
}

} // verus!
