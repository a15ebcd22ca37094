//! The answer given to a follow-up question when no model answers: built
//! from the analysis markdown and the dictionary excerpt alone.

use vstd::prelude::*;
use crate::text::{
    chars_of, extend, extend_str, join, join_exec, keep, lines, same, slice_of, str_views,
    string_of, views, words, words_exec,
};
use crate::json::{json_get, JsonValue};
use crate::follow_up::{
    detect_follow_up_intent, first_summary_line, intent_of, relevant_form_lines,
    section_lines, section_lines_of, select_relevant_form_lines, summary_from, FollowUpIntent,
};

verus! {

// ---------------------------------------------------------------------------
// Reading the dictionary excerpt
// ---------------------------------------------------------------------------

/// The texts of the string values, in order.
pub open spec fn strs_of(vs: Seq<JsonValue>) -> Seq<Seq<char>>
    decreases vs.len(),
{
    if vs.len() == 0 {
        Seq::empty()
    } else {
        match vs.last() {
            JsonValue::Str(s) => strs_of(vs.drop_last()).push(s@),
            _ => strs_of(vs.drop_last()),
        }
    }
}

/// At most the first `n` elements.
pub open spec fn first_n<A>(s: Seq<A>, n: nat) -> Seq<A> {
    if s.len() <= n {
        s
    } else {
        s.take(n as int)
    }
}

/// A sense's first two glosses joined by ` / `; `None` without a gloss list.
pub open spec fn sense_gloss(sense: JsonValue) -> Option<Seq<char>> {
    match json_get(sense, "glosses"@) {
        Some(JsonValue::Array(gs)) => Some(join(first_n(strs_of(gs@), 2), " / "@)),
        _ => None,
    }
}

/// The non-empty glosses of the senses, in order.
pub open spec fn sense_texts(ss: Seq<JsonValue>) -> Seq<Seq<char>>
    decreases ss.len(),
{
    if ss.len() == 0 {
        Seq::empty()
    } else {
        match sense_gloss(ss.last()) {
            Some(t) => if t.len() > 0 {
                sense_texts(ss.drop_last()).push(t)
            } else {
                sense_texts(ss.drop_last())
            },
            None => sense_texts(ss.drop_last()),
        }
    }
}

/// The first two senses of the excerpt joined by `；`.
pub open spec fn dict_senses(ex: JsonValue) -> Option<Seq<char>> {
    match json_get(ex, "senses"@) {
        Some(JsonValue::Array(ss)) => {
            let items = first_n(sense_texts(ss@), 2);
            if items.len() == 0 {
                None
            } else {
                Some(join(items, "；"@))
            }
        },
        _ => None,
    }
}

/// A tag worth showing.
pub open spec fn is_shown_tag(t: Seq<char>) -> bool {
    !(t == "table-tags"@ || t == "inflection-template"@ || t == "class"@)
}

/// The first three shown tags joined by `, `.
pub open spec fn compact_tags(tags: Seq<JsonValue>) -> Seq<char> {
    join(first_n(keep(strs_of(tags), |t: Seq<char>| is_shown_tag(t)), 3), ", "@)
}

/// A form with its tags in parentheses; `None` without a form text and for
/// the conjugation-class markers.
pub open spec fn form_text(form: JsonValue) -> Option<Seq<char>> {
    match json_get(form, "form"@) {
        Some(JsonValue::Str(fv)) => {
            let tags = match json_get(form, "tags"@) {
                Some(JsonValue::Array(ts)) => compact_tags(ts@),
                _ => Seq::empty(),
            };
            if fv@ == "strong"@ || fv@ == "weak"@ || fv@ == "de-conj"@ {
                None
            } else if tags.len() == 0 {
                Some(fv@)
            } else {
                Some(fv@ + " ("@ + tags + ")"@)
            }
        },
        _ => None,
    }
}

pub open spec fn form_texts(fs: Seq<JsonValue>) -> Seq<Seq<char>>
    decreases fs.len(),
{
    if fs.len() == 0 {
        Seq::empty()
    } else {
        match form_text(fs.last()) {
            Some(t) => form_texts(fs.drop_last()).push(t),
            None => form_texts(fs.drop_last()),
        }
    }
}

/// The first four forms of the excerpt joined by `；`.
pub open spec fn dict_forms(ex: JsonValue) -> Option<Seq<char>> {
    match json_get(ex, "forms"@) {
        Some(JsonValue::Array(fs)) => {
            let items = first_n(form_texts(fs@), 4);
            if items.len() == 0 {
                None
            } else {
                Some(join(items, "；"@))
            }
        },
        _ => None,
    }
}

/// The `ipa` of the first sound from index `i` on that has one.
pub open spec fn sound_ipa_from(ss: Seq<JsonValue>, i: int) -> Option<Seq<char>>
    decreases ss.len() - i,
{
    if i < 0 || i >= ss.len() {
        None
    } else {
        match json_get(ss[i], "ipa"@) {
            Some(JsonValue::Str(x)) => Some(x@),
            _ => sound_ipa_from(ss, i + 1),
        }
    }
}

pub open spec fn dict_ipa(ex: JsonValue) -> Option<Seq<char>> {
    match json_get(ex, "sounds"@) {
        Some(JsonValue::Array(ss)) => sound_ipa_from(ss@, 0),
        _ => None,
    }
}

/// The texts of the string values.
pub(crate) fn strs_of_exec(vs: &Vec<JsonValue>) -> (r: Vec<Vec<char>>)
    ensures
        views(r@) == strs_of(vs@),
{
    let mut r: Vec<Vec<char>> = Vec::new();
    let mut i: usize = 0;
    while i < vs.len()
        invariant
            0 <= i <= vs@.len(),
            views(r@) == strs_of(vs@.take(i as int)),
        decreases vs@.len() - i,
    {
        assert(vs@.take(i + 1).drop_last() =~= vs@.take(i as int));
        assert(vs@.take(i + 1).last() == vs@[i as int]);
        match vs[i].as_str() {
            Some(s) => {
                let ghost before = views(r@);
                let c = chars_of(s);
                r.push(c);
                assert(views(r@) =~= before.push(s@));
            },
            None => {},
        }
        i = i + 1;
    }
    assert(vs@.take(vs@.len() as int) =~= vs@);
    r
}

/// At most the first `n` of the texts.
pub(crate) fn first_n_exec(v: &Vec<Vec<char>>, n: usize) -> (r: Vec<Vec<char>>)
    ensures
        views(r@) == first_n(views(v@), n as nat),
{
    let k = if v.len() <= n { v.len() } else { n };
    let mut r: Vec<Vec<char>> = Vec::new();
    let mut i: usize = 0;
    while i < k
        invariant
            0 <= i <= k <= v@.len(),
            views(r@) =~= views(v@).take(i as int),
        decreases k - i,
    {
        let x = slice_of(&v[i], 0, v[i].len());
        assert(x@ =~= views(v@)[i as int]);
        let ghost before = views(r@);
        r.push(x);
        assert(views(r@) =~= before.push(views(v@)[i as int]));
        assert(views(v@).take(i + 1) =~= views(v@).take(i as int).push(views(v@)[i as int]));
        i = i + 1;
    }
    assert(views(v@).take(views(v@).len() as int) =~= views(v@));
    r
}

fn sense_gloss_exec(sense: &JsonValue) -> (r: Option<Vec<char>>)
    ensures
        r matches Some(t) ==> sense_gloss(*sense) == Some(t@),
        r is None ==> sense_gloss(*sense) is None,
{
    match sense.get("glosses") {
        Some(g) => match g.as_array() {
            Some(gs) => {
                let texts = strs_of_exec(gs);
                let two = first_n_exec(&texts, 2);
                let sep = chars_of(" / ");
                Some(join_exec(&two, &sep))
            },
            None => None,
        },
        None => None,
    }
}

/// The first two senses of a dictionary excerpt, each with its first two
/// glosses.
pub fn dictionary_senses(excerpt: &JsonValue) -> (r: Option<String>)
    ensures
        r matches Some(x) ==> dict_senses(*excerpt) == Some(x@),
        r is None ==> dict_senses(*excerpt) is None,
{
    let ss = match excerpt.get("senses") {
        Some(v) => match v.as_array() {
            Some(ss) => ss,
            None => {
                return None;
            },
        },
        None => {
            return None;
        },
    };
    let mut texts: Vec<Vec<char>> = Vec::new();
    let mut i: usize = 0;
    while i < ss.len()
        invariant
            0 <= i <= ss@.len(),
            views(texts@) == sense_texts(ss@.take(i as int)),
        decreases ss@.len() - i,
    {
        assert(ss@.take(i + 1).drop_last() =~= ss@.take(i as int));
        assert(ss@.take(i + 1).last() == ss@[i as int]);
        match sense_gloss_exec(&ss[i]) {
            Some(t) => {
                if t.len() > 0 {
                    let ghost before = views(texts@);
                    let ghost tv = t@;
                    texts.push(t);
                    assert(views(texts@) =~= before.push(tv));
                }
            },
            None => {},
        }
        i = i + 1;
    }
    assert(ss@.take(ss@.len() as int) =~= ss@);
    let items = first_n_exec(&texts, 2);
    if items.len() == 0 {
        return None;
    }
    let sep = chars_of("；");
    let j = join_exec(&items, &sep);
    Some(string_of(&j))
}

fn compact_tags_exec(tags: &Vec<JsonValue>) -> (r: Vec<char>)
    ensures
        r@ == compact_tags(tags@),
{
    let texts = strs_of_exec(tags);
    let ghost tv = views(texts@);
    let a = chars_of("table-tags");
    let b = chars_of("inflection-template");
    let c = chars_of("class");
    let mut shown: Vec<Vec<char>> = Vec::new();
    let mut i: usize = 0;
    while i < texts.len()
        invariant
            0 <= i <= texts@.len(),
            tv == views(texts@),
            a@ == "table-tags"@,
            b@ == "inflection-template"@,
            c@ == "class"@,
            views(shown@) == keep(tv.take(i as int), |t: Seq<char>| is_shown_tag(t)),
        decreases texts@.len() - i,
    {
        assert(tv.take(i + 1).drop_last() =~= tv.take(i as int));
        assert(tv.take(i + 1).last() == texts@[i as int]@);
        if !(same(&texts[i], &a) || same(&texts[i], &b) || same(&texts[i], &c)) {
            let x = slice_of(&texts[i], 0, texts[i].len());
            assert(x@ =~= tv[i as int]);
            let ghost before = views(shown@);
            shown.push(x);
            assert(views(shown@) =~= before.push(tv[i as int]));
        }
        i = i + 1;
    }
    assert(tv.take(tv.len() as int) =~= tv);
    let three = first_n_exec(&shown, 3);
    let sep = chars_of(", ");
    join_exec(&three, &sep)
}

fn form_text_exec(form: &JsonValue) -> (r: Option<Vec<char>>)
    ensures
        r matches Some(t) ==> form_text(*form) == Some(t@),
        r is None ==> form_text(*form) is None,
{
    let fv = match form.get("form") {
        Some(v) => match v.as_str() {
            Some(s) => s,
            None => {
                return None;
            },
        },
        None => {
            return None;
        },
    };
    let tags = match form.get("tags") {
        Some(v) => match v.as_array() {
            Some(ts) => compact_tags_exec(ts),
            None => Vec::new(),
        },
        None => Vec::new(),
    };
    let f = chars_of(fv);
    if same(&f, &chars_of("strong")) || same(&f, &chars_of("weak")) || same(&f, &chars_of("de-conj")) {
        return None;
    }
    if tags.len() == 0 {
        Some(f)
    } else {
        let mut out = f;
        extend_str(&mut out, " (");
        extend(&mut out, &tags);
        extend_str(&mut out, ")");
        Some(out)
    }
}

/// The first four forms of a dictionary excerpt, each with up to three tags.
pub fn dictionary_forms(excerpt: &JsonValue) -> (r: Option<String>)
    ensures
        r matches Some(x) ==> dict_forms(*excerpt) == Some(x@),
        r is None ==> dict_forms(*excerpt) is None,
{
    let fs = match excerpt.get("forms") {
        Some(v) => match v.as_array() {
            Some(fs) => fs,
            None => {
                return None;
            },
        },
        None => {
            return None;
        },
    };
    let mut texts: Vec<Vec<char>> = Vec::new();
    let mut i: usize = 0;
    while i < fs.len()
        invariant
            0 <= i <= fs@.len(),
            views(texts@) == form_texts(fs@.take(i as int)),
        decreases fs@.len() - i,
    {
        assert(fs@.take(i + 1).drop_last() =~= fs@.take(i as int));
        assert(fs@.take(i + 1).last() == fs@[i as int]);
        match form_text_exec(&fs[i]) {
            Some(t) => {
                let ghost before = views(texts@);
                let ghost tv = t@;
                texts.push(t);
                assert(views(texts@) =~= before.push(tv));
            },
            None => {},
        }
        i = i + 1;
    }
    assert(fs@.take(fs@.len() as int) =~= fs@);
    let items = first_n_exec(&texts, 4);
    if items.len() == 0 {
        return None;
    }
    let sep = chars_of("；");
    let j = join_exec(&items, &sep);
    Some(string_of(&j))
}

/// The pronunciation of the first sound of a dictionary excerpt that has one.
pub fn dictionary_ipa(excerpt: &JsonValue) -> (r: Option<String>)
    ensures
        r matches Some(x) ==> dict_ipa(*excerpt) == Some(x@),
        r is None ==> dict_ipa(*excerpt) is None,
{
    let ss = match excerpt.get("sounds") {
        Some(v) => match v.as_array() {
            Some(ss) => ss,
            None => {
                return None;
            },
        },
        None => {
            return None;
        },
    };
    let mut i: usize = 0;
    while i < ss.len()
        invariant
            0 <= i <= ss@.len(),
            dict_ipa(*excerpt) == sound_ipa_from(ss@, i as int),
        decreases ss@.len() - i,
    {
        match ss[i].get("ipa") {
            Some(v) => match v.as_str() {
                Some(x) => {
                    return Some(crate::text::owned(x));
                },
                None => {},
            },
            None => {},
        }
        i = i + 1;
    }
    None
}

// ---------------------------------------------------------------------------
// The answer
// ---------------------------------------------------------------------------

/// The words of an answer joined by single spaces.
pub open spec fn norm_answer(v: Seq<char>) -> Seq<char> {
    join(words(v), seq![' '])
}

/// The text cut to `max` characters, with `...` when something was cut.
pub open spec fn truncated(v: Seq<char>, max: nat) -> Seq<char> {
    if v.len() <= max {
        v
    } else {
        v.take(max as int) + "..."@
    }
}

/// The opening every answer starts with.
pub open spec fn lead_in() -> Seq<char> {
    "先按当前条目直接回答："@
}

/// The query in backticks after the opening.
pub open spec fn about(q: Seq<char>) -> Seq<char> {
    lead_in() + "`"@ + q + "`"@
}

/// The answer from the summary line, the senses and the forms.
pub open spec fn generic_answer(q: Seq<char>, md: Seq<char>, ex: JsonValue) -> Seq<char> {
    match (summary_from(lines(md), 0), dict_senses(ex), dict_forms(ex)) {
        (Some(s), Some(se), _) => about(q) + " 的核心还是 "@ + se + "。你可以先抓住这一点："@ + s,
        (Some(s), None, Some(f)) => about(q) + " 先抓这条主线："@ + s + " 常见形式有 "@ + f + "。"@,
        (Some(s), None, None) => about(q) + " 先抓这条主线："@ + s,
        (None, Some(se), _) => about(q) + " 的核心还是 "@ + se + "。"@,
        _ => about(q) + " 的核心信息已经在当前分析里，建议先抓住词义和关键形式，再继续细问。"@,
    }
}

pub open spec fn form_answer(q: Seq<char>, question: Seq<char>, md: Seq<char>, ex: JsonValue) -> Seq<char> {
    let forms = relevant_form_lines(question, section_lines_of(md, "关键形式"@));
    if forms.len() > 0 {
        about(q) + " 常用形式是 "@ + join(forms, "；"@) + "。"@
    } else {
        match dict_forms(ex) {
            Some(f) => about(q) + " 常用形式是 "@ + f + "。"@,
            None => generic_answer(q, md, ex),
        }
    }
}

pub open spec fn meaning_answer(q: Seq<char>, md: Seq<char>, ex: JsonValue) -> Seq<char> {
    match dict_senses(ex) {
        Some(se) => about(q) + " 这里优先记 "@ + se + "。"@,
        None => generic_answer(q, md, ex),
    }
}

pub open spec fn pronunciation_answer(q: Seq<char>, md: Seq<char>, ex: JsonValue) -> Seq<char> {
    match dict_ipa(ex) {
        Some(ipa) => about(q) + " 的音标是 /"@ + ipa + "/。如果你要记忆，先抓重音和长元音。"@,
        None => generic_answer(q, md, ex),
    }
}

pub open spec fn example_answer(q: Seq<char>, md: Seq<char>, ex: JsonValue) -> Seq<char> {
    let examples = section_lines_of(md, "例句"@);
    let notes = section_lines_of(md, "使用提示"@);
    if examples.len() > 0 {
        let first = lead_in() + "可以先看这个例子 "@ + examples[0];
        if notes.len() > 0 {
            first + " "@ + "提醒："@ + notes[0]
        } else {
            first
        }
    } else {
        generic_answer(q, md, ex)
    }
}

/// The analysis markdown, empty when there is none.
pub open spec fn analysis_markdown(a: JsonValue) -> Seq<char> {
    match json_get(a, "markdown"@) {
        Some(JsonValue::Str(m)) => m@,
        _ => Seq::empty(),
    }
}

/// The dictionary excerpt, `null` when there is none.
pub open spec fn analysis_excerpt(a: JsonValue) -> JsonValue {
    match json_get(a, "dictionary_excerpt"@) {
        Some(x) => x,
        None => JsonValue::Null,
    }
}

/// The answer for the question's intent, with whitespace collapsed and cut
/// to 180 characters.
pub open spec fn fallback_answer(q: Seq<char>, question: Seq<char>, a: JsonValue) -> Seq<char> {
    let md = analysis_markdown(a);
    let ex = analysis_excerpt(a);
    let answer = match intent_of(question) {
        FollowUpIntent::Form => form_answer(q, question, md, ex),
        FollowUpIntent::Meaning => meaning_answer(q, md, ex),
        FollowUpIntent::Pronunciation => pronunciation_answer(q, md, ex),
        FollowUpIntent::Example => example_answer(q, md, ex),
        FollowUpIntent::Generic => generic_answer(q, md, ex),
    };
    truncated(norm_answer(answer), 180)
}

/// An answer with all runs of whitespace turned into single spaces.
pub fn normalize_answer(value: &str) -> (r: String)
    ensures
        r@ == norm_answer(value@),
{
    let v = chars_of(value);
    let ws = words_exec(&v);
    let sp = vec![' '];
    assert(sp@ =~= seq![' ']);
    let j = join_exec(&ws, &sp);
    string_of(&j)
}

/// The text cut to `max_chars` characters, marked with `...` when cut.
pub fn truncate_text(value: &str, max_chars: usize) -> (r: String)
    ensures
        r@ == truncated(value@, max_chars as nat),
{
    let v = chars_of(value);
    if v.len() <= max_chars {
        string_of(&v)
    } else {
        let mut t = slice_of(&v, 0, max_chars);
        extend_str(&mut t, "...");
        assert(t@ =~= v@.take(max_chars as int) + "..."@);
        string_of(&t)
    }
}

fn about_exec(q: &str) -> (r: Vec<char>)
    ensures
        r@ == about(q@),
{
    let mut v = chars_of("先按当前条目直接回答：");
    extend_str(&mut v, "`");
    extend_str(&mut v, q);
    extend_str(&mut v, "`");
    v
}

fn generic_summary(q: &str, md: &str, ex: &JsonValue) -> (r: Vec<char>)
    ensures
        r@ == generic_answer(q@, md@, *ex),
{
    let summary = first_summary_line(md);
    let senses = dictionary_senses(ex);
    let forms = dictionary_forms(ex);
    let mut v = about_exec(q);
    match (summary, senses, forms) {
        (Some(s), Some(se), _) => {
            extend_str(&mut v, " 的核心还是 ");
            extend_str(&mut v, se.as_str());
            extend_str(&mut v, "。你可以先抓住这一点：");
            extend_str(&mut v, s.as_str());
        },
        (Some(s), None, Some(f)) => {
            extend_str(&mut v, " 先抓这条主线：");
            extend_str(&mut v, s.as_str());
            extend_str(&mut v, " 常见形式有 ");
            extend_str(&mut v, f.as_str());
            extend_str(&mut v, "。");
        },
        (Some(s), None, None) => {
            extend_str(&mut v, " 先抓这条主线：");
            extend_str(&mut v, s.as_str());
        },
        (None, Some(se), _) => {
            extend_str(&mut v, " 的核心还是 ");
            extend_str(&mut v, se.as_str());
            extend_str(&mut v, "。");
        },
        _ => {
            extend_str(&mut v, " 的核心信息已经在当前分析里，建议先抓住词义和关键形式，再继续细问。");
        },
    }
    v
}

fn build_form_answer(q: &str, question: &str, md: &str, ex: &JsonValue) -> (r: Vec<char>)
    ensures
        r@ == form_answer(q@, question@, md@, *ex),
{
    let key_forms = section_lines(md, "关键形式");
    let forms = select_relevant_form_lines(question, key_forms.as_slice());
    if forms.len() > 0 {
        let mut v = about_exec(q);
        extend_str(&mut v, " 常用形式是 ");
        let parts = crate::text::chars_of_all(&forms);
        let sep = chars_of("；");
        let j = join_exec(&parts, &sep);
        extend(&mut v, &j);
        extend_str(&mut v, "。");
        return v;
    }
    match dictionary_forms(ex) {
        Some(f) => {
            let mut v = about_exec(q);
            extend_str(&mut v, " 常用形式是 ");
            extend_str(&mut v, f.as_str());
            extend_str(&mut v, "。");
            v
        },
        None => generic_summary(q, md, ex),
    }
}

fn build_meaning_answer(q: &str, md: &str, ex: &JsonValue) -> (r: Vec<char>)
    ensures
        r@ == meaning_answer(q@, md@, *ex),
{
    match dictionary_senses(ex) {
        Some(se) => {
            let mut v = about_exec(q);
            extend_str(&mut v, " 这里优先记 ");
            extend_str(&mut v, se.as_str());
            extend_str(&mut v, "。");
            v
        },
        None => generic_summary(q, md, ex),
    }
}

fn build_pronunciation_answer(q: &str, md: &str, ex: &JsonValue) -> (r: Vec<char>)
    ensures
        r@ == pronunciation_answer(q@, md@, *ex),
{
    match dictionary_ipa(ex) {
        Some(ipa) => {
            let mut v = about_exec(q);
            extend_str(&mut v, " 的音标是 /");
            extend_str(&mut v, ipa.as_str());
            extend_str(&mut v, "/。如果你要记忆，先抓重音和长元音。");
            v
        },
        None => generic_summary(q, md, ex),
    }
}

fn build_example_answer(q: &str, md: &str, ex: &JsonValue) -> (r: Vec<char>)
    ensures
        r@ == example_answer(q@, md@, *ex),
{
    let examples = section_lines(md, "例句");
    let notes = section_lines(md, "使用提示");
    if examples.len() > 0 {
        let mut v = chars_of("先按当前条目直接回答：");
        extend_str(&mut v, "可以先看这个例子 ");
        extend_str(&mut v, examples[0].as_str());
        if notes.len() > 0 {
            extend_str(&mut v, " ");
            extend_str(&mut v, "提醒：");
            extend_str(&mut v, notes[0].as_str());
        }
        v
    } else {
        generic_summary(q, md, ex)
    }
}

/// The answer to a follow-up question built from the analysis alone: by the
/// question's intent, from the key forms, senses, pronunciation, examples or
/// summary, cut to 180 characters.
pub fn build_follow_up_fallback(query_text: &str, question: &str, analysis: &JsonValue) -> (r: String)
    ensures
        r@ == fallback_answer(query_text@, question@, *analysis),
{
    let md: &str = match analysis.get("markdown") {
        Some(v) => match v.as_str() {
            Some(m) => m,
            None => "",
        },
        None => "",
    };
    proof {
        reveal_strlit("");
    }
    assert(md@ == analysis_markdown(*analysis));
    let empty = JsonValue::Null;
    let ex: &JsonValue = match analysis.get("dictionary_excerpt") {
        Some(x) => x,
        None => &empty,
    };
    let answer = match detect_follow_up_intent(question) {
        FollowUpIntent::Form => build_form_answer(query_text, question, md, ex),
        FollowUpIntent::Meaning => build_meaning_answer(query_text, md, ex),
        FollowUpIntent::Pronunciation => build_pronunciation_answer(query_text, md, ex),
        FollowUpIntent::Example => build_example_answer(query_text, md, ex),
        FollowUpIntent::Generic => generic_summary(query_text, md, ex),
    };
    let a = string_of(&answer);
    let n = normalize_answer(a.as_str());
    truncate_text(n.as_str(), 180)
}

/// Whether a fallback model is set and differs from the primary one.
pub fn fallback_ready(primary_model: &str, fallback_model: &str) -> (r: bool)
    ensures
        r == (fallback_model@.len() > 0 && fallback_model@ != primary_model@),
{
    let f = chars_of(fallback_model);
    let p = chars_of(primary_model);
    f.len() > 0 && !same(&f, &p)
}

} // verus!
