//! The mathematical value of a JSON value, copying a JSON value, and the
//! dictionary excerpts built by copying parts of a dictionary entry.

use vstd::prelude::*;
use crate::dictionary::field_arr;
use crate::follow_up_answer::first_n;
use crate::json::{json_get, JsonValue};
use crate::text::owned;

verus! {

/// A JSON value with its texts as character sequences.
pub enum JsonV {
    Null,
    Bool(bool),
    Number(Seq<char>),
    Str(Seq<char>),
    Array(Seq<JsonV>),
    Object(Seq<(Seq<char>, JsonV)>),
}

/// The mathematical value of a JSON value.
pub open spec fn jview(v: JsonValue) -> JsonV
    decreases v,
{
    match v {
        JsonValue::Null => JsonV::Null,
        JsonValue::Bool(b) => JsonV::Bool(b),
        JsonValue::Number(t) => JsonV::Number(t@),
        JsonValue::Str(t) => JsonV::Str(t@),
        JsonValue::Array(xs) => JsonV::Array(jviews(xs@)),
        JsonValue::Object(ms) => JsonV::Object(jmembers(ms@)),
    }
}

pub open spec fn jviews(xs: Seq<JsonValue>) -> Seq<JsonV>
    decreases xs,
{
    if xs.len() == 0 {
        Seq::empty()
    } else {
        jviews(xs.drop_last()).push(jview(xs.last()))
    }
}

pub open spec fn jmembers(ms: Seq<(String, JsonValue)>) -> Seq<(Seq<char>, JsonV)>
    decreases ms,
{
    if ms.len() == 0 {
        Seq::empty()
    } else {
        jmembers(ms.drop_last()).push((ms.last().0@, jview(ms.last().1)))
    }
}

/// A copy of a JSON value.
pub fn clone_json(v: &JsonValue) -> (r: JsonValue)
    ensures
        jview(r) == jview(*v),
    decreases v,
{
    match v {
        JsonValue::Null => JsonValue::Null,
        JsonValue::Bool(b) => JsonValue::Bool(*b),
        JsonValue::Number(t) => JsonValue::Number(owned(t.as_str())),
        JsonValue::Str(t) => JsonValue::Str(owned(t.as_str())),
        JsonValue::Array(xs) => {
            let mut out: Vec<JsonValue> = Vec::new();
            let mut i: usize = 0;
            while i < xs.len()
                invariant
                    0 <= i <= xs@.len(),
                    *v == JsonValue::Array(*xs),
                    jviews(out@) == jviews(xs@.take(i as int)),
                decreases xs@.len() - i,
            {
                proof {
                    assert(decreases_to!(*xs => xs[i as int]));
                    assert(decreases_to!(*v => (*v)->Array_0));
                    assert((*v)->Array_0 == *xs);
                    assert(decreases_to!(*v => xs[i as int]));
                }
                let c = clone_json(&xs[i]);
                let ghost before = out@;
                out.push(c);
                assert(out@.drop_last() =~= before);
                assert(xs@.take(i + 1).drop_last() =~= xs@.take(i as int));
                assert(xs@.take(i + 1).last() == xs@[i as int]);
                i = i + 1;
            }
            assert(xs@.take(xs@.len() as int) =~= xs@);
            JsonValue::Array(out)
        },
        JsonValue::Object(ms) => {
            let mut out: Vec<(String, JsonValue)> = Vec::new();
            let mut i: usize = 0;
            while i < ms.len()
                invariant
                    0 <= i <= ms@.len(),
                    *v == JsonValue::Object(*ms),
                    jmembers(out@) == jmembers(ms@.take(i as int)),
                decreases ms@.len() - i,
            {
                proof {
                    assert(decreases_to!(*ms => ms[i as int]));
                    assert(decreases_to!(*v => (*v)->Object_0));
                    assert((*v)->Object_0 == *ms);
                    assert(decreases_to!(ms[i as int] => ms[i as int].1));
                    assert(decreases_to!(*v => ms[i as int].1));
                }
                let k = owned(ms[i].0.as_str());
                let c = clone_json(&ms[i].1);
                let ghost before = out@;
                out.push((k, c));
                assert(out@.drop_last() =~= before);
                assert(ms@.take(i + 1).drop_last() =~= ms@.take(i as int));
                assert(ms@.take(i + 1).last() == ms@[i as int]);
                i = i + 1;
            }
            assert(ms@.take(ms@.len() as int) =~= ms@);
            JsonValue::Object(out)
        },
    }
}

// ---------------------------------------------------------------------------
// Dictionary excerpts
// ---------------------------------------------------------------------------

/// The member of an object, `null` when there is none.
pub open spec fn member_or_null(v: JsonValue, key: Seq<char>) -> JsonV {
    match json_get(v, key) {
        Some(x) => jview(x),
        None => JsonV::Null,
    }
}

fn member_or_null_exec(v: &JsonValue, key: &str) -> (r: JsonValue)
    ensures
        jview(r) == member_or_null(*v, key@),
{
    match v.get(key) {
        Some(x) => clone_json(x),
        None => JsonValue::Null,
    }
}

/// A sense of the excerpt: its glosses and tags as they are.
pub open spec fn excerpt_sense(s: JsonValue) -> JsonV {
    JsonV::Object(seq![("glosses"@, member_or_null(s, "glosses"@)), ("tags"@, member_or_null(s, "tags"@))])
}

pub open spec fn excerpt_senses(ss: Seq<JsonValue>) -> Seq<JsonV>
    decreases ss.len(),
{
    if ss.len() == 0 {
        Seq::empty()
    } else {
        excerpt_senses(ss.drop_last()).push(excerpt_sense(ss.last()))
    }
}

/// The excerpt of a dictionary entry kept with an analysis: its word, part
/// of speech, sounds and forms as they are, and its first three senses
/// with their glosses and tags.
pub open spec fn dictionary_excerpt(raw: JsonValue) -> JsonV {
    JsonV::Object(
        seq![
            ("word"@, member_or_null(raw, "word"@)),
            ("pos"@, member_or_null(raw, "pos"@)),
            ("sounds"@, member_or_null(raw, "sounds"@)),
            ("forms"@, member_or_null(raw, "forms"@)),
            ("senses"@, JsonV::Array(excerpt_senses(first_n(field_arr(raw, "senses"@), 3)))),
        ],
    )
}

fn member(key: &str, value: JsonValue) -> (r: (String, JsonValue))
    ensures
        r.0@ == key@,
        r.1 == value,
{
    (owned(key), value)
}

pub fn build_dictionary_excerpt(raw_data: &JsonValue) -> (r: JsonValue)
    ensures
        jview(r) == dictionary_excerpt(*raw_data),
{
    let ghost ss = first_n(field_arr(*raw_data, "senses"@), 3);
    let mut senses: Vec<JsonValue> = Vec::new();
    match crate::dictionary::array_field(raw_data, "senses") {
        Some(items) => {
            let n: usize = if items.len() < 3 { items.len() } else { 3 };
            assert(ss =~= items@.take(n as int));
            let mut i: usize = 0;
            while i < n
                invariant
                    0 <= i <= n,
                    n <= items@.len(),
                    ss == items@.take(n as int),
                    jviews(senses@) == excerpt_senses(ss.take(i as int)),
                decreases n - i,
            {
                let g = member_or_null_exec(&items[i], "glosses");
                let t = member_or_null_exec(&items[i], "tags");
                let mut ms: Vec<(String, JsonValue)> = Vec::new();
                ms.push(member("glosses", g));
                ms.push(member("tags", t));
                let o = JsonValue::Object(ms);
                assert(jmembers(ms@) =~= seq![("glosses"@, jview(g)), ("tags"@, jview(t))]) by {
                    reveal_with_fuel(jmembers, 3);
                    assert(ms@.drop_last() =~= seq![ms@[0]]);
                    assert(seq![ms@[0]].drop_last() =~= Seq::<(String, JsonValue)>::empty());
                }
                assert(ss[i as int] == items@[i as int]);
                assert(jview(o) == excerpt_sense(ss[i as int]));
                let ghost before = senses@;
                senses.push(o);
                assert(senses@.drop_last() =~= before);
                assert(ss.take(i + 1).drop_last() =~= ss.take(i as int));
                i = i + 1;
            }
            assert(ss.take(n as int) =~= ss);
        },
        None => {
            assert(ss =~= Seq::<JsonValue>::empty());
        },
    }
    let w = member_or_null_exec(raw_data, "word");
    let p = member_or_null_exec(raw_data, "pos");
    let so = member_or_null_exec(raw_data, "sounds");
    let f = member_or_null_exec(raw_data, "forms");
    let sa = JsonValue::Array(senses);
    let mut ms: Vec<(String, JsonValue)> = Vec::new();
    ms.push(member("word", w));
    ms.push(member("pos", p));
    ms.push(member("sounds", so));
    ms.push(member("forms", f));
    ms.push(member("senses", sa));
    proof {
        let e = seq![
            ("word"@, jview(w)),
            ("pos"@, jview(p)),
            ("sounds"@, jview(so)),
            ("forms"@, jview(f)),
            ("senses"@, jview(sa)),
        ];
        assert(ms@.take(4).drop_last() =~= ms@.take(3));
        assert(ms@.take(3).drop_last() =~= ms@.take(2));
        assert(ms@.take(2).drop_last() =~= ms@.take(1));
        assert(ms@.take(1).drop_last() =~= ms@.take(0));
        assert(ms@.drop_last() =~= ms@.take(4));
        assert(jmembers(ms@.take(0)) =~= Seq::<(Seq<char>, JsonV)>::empty());
        reveal_with_fuel(jmembers, 6);
        assert(jmembers(ms@) =~= e);
    }
    JsonValue::Object(ms)
}

/// The glosses of the first sense, an empty list when there are none.
pub open spec fn first_glosses(raw: JsonValue) -> JsonV {
    match json_get(raw, "senses"@) {
        Some(JsonValue::Array(ss)) => if ss@.len() > 0 {
            member_or_empty_list(ss@[0], "glosses"@)
        } else {
            JsonV::Array(Seq::empty())
        },
        _ => JsonV::Array(Seq::empty()),
    }
}

pub open spec fn member_or_empty_list(v: JsonValue, key: Seq<char>) -> JsonV {
    match json_get(v, key) {
        Some(x) => jview(x),
        None => JsonV::Array(Seq::empty()),
    }
}

/// The preview of a lexeme's meaning: its part of speech and the glosses of
/// its first sense.
pub open spec fn gloss_preview(pos: Seq<char>, raw: JsonValue) -> JsonV {
    JsonV::Object(seq![("pos"@, JsonV::Str(pos)), ("glosses"@, first_glosses(raw))])
}

pub fn build_gloss_preview(pos: &str, raw_data: &JsonValue) -> (r: JsonValue)
    ensures
        jview(r) == gloss_preview(pos@, *raw_data),
{
    let glosses = match raw_data.get("senses") {
        Some(JsonValue::Array(ss)) => if ss.len() > 0 {
            match ss[0].get("glosses") {
                Some(g) => clone_json(g),
                None => JsonValue::Array(Vec::new()),
            }
        } else {
            JsonValue::Array(Vec::new())
        },
        _ => JsonValue::Array(Vec::new()),
    };
    proof {
        let e: Seq<JsonValue> = Seq::empty();
        assert(jviews(e) =~= Seq::<JsonV>::empty());
    }
    let ps = JsonValue::Str(owned(pos));
    let mut ms: Vec<(String, JsonValue)> = Vec::new();
    ms.push(member("pos", ps));
    ms.push(member("glosses", glosses));
    proof {
        reveal_with_fuel(jmembers, 3);
        assert(ms@.drop_last() =~= seq![ms@[0]]);
        assert(seq![ms@[0]].drop_last() =~= Seq::<(String, JsonValue)>::empty());
        assert(jmembers(ms@) =~= seq![("pos"@, JsonV::Str(pos@)), ("glosses"@, jview(glosses))]);
    }
    JsonValue::Object(ms)
}

} // verus!
