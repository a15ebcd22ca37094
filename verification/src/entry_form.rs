//! Whether a dictionary entry is a word of its own or only points at the
//! forms of other words.

use vstd::prelude::*;
use crate::dictionary::{array_field, field_arr};
use crate::follow_up_answer::{strs_of, strs_of_exec};
use crate::json::{json_get, member_from, JsonValue};
use crate::text::{chars_of, same, views};

verus! {

/// How the senses of an entry divide between form references and meanings
/// of its own.
#[derive(Debug, Clone, Copy, PartialEq, Eq, Structural)]
pub enum EntryFormStatus {
    Independent,
    Mixed,
    PureForm,
}

/// Whether a list of tags holds "form-of".
pub open spec fn has_form_of_tag(tags: Seq<JsonValue>) -> bool {
    strs_of(tags).contains("form-of"@)
}

/// A sense that only names another word's form: it has a non-empty
/// "form_of" list or the tag "form-of".
pub open spec fn sense_is_form_of(sense: JsonValue) -> bool {
    (match json_get(sense, "form_of"@) {
        Some(JsonValue::Array(xs)) => xs@.len() > 0,
        _ => false,
    }) || has_form_of_tag(field_arr(sense, "tags"@))
}

fn tags_have_form_of(tags: &Vec<JsonValue>) -> (r: bool)
    ensures
        r == has_form_of_tag(tags@),
{
    let texts = strs_of_exec(tags);
    let f = chars_of("form-of");
    let mut i: usize = 0;
    while i < texts.len()
        invariant
            0 <= i <= texts@.len(),
            f@ == "form-of"@,
            views(texts@) == strs_of(tags@),
            forall|j: int| 0 <= j < i ==> views(texts@)[j] != "form-of"@,
        decreases texts@.len() - i,
    {
        assert(views(texts@)[i as int] == texts@[i as int]@);
        if same(&texts[i], &f) {
            return true;
        }
        i = i + 1;
    }
    false
}

pub fn is_form_of_sense(sense: &JsonValue) -> (r: bool)
    ensures
        r == sense_is_form_of(*sense),
{
    let listed = match array_field(sense, "form_of") {
        Some(xs) => xs.len() > 0,
        None => false,
    };
    if listed {
        return true;
    }
    match array_field(sense, "tags") {
        Some(ts) => tags_have_form_of(ts),
        None => {
            assert(field_arr(*sense, "tags"@) =~= Seq::<JsonValue>::empty());
            assert(strs_of(Seq::<JsonValue>::empty()) =~= Seq::<Seq<char>>::empty());
            false
        },
    }
}

/// The status of an entry: mixed when it has senses of both kinds, a pure
/// form when every sense is a form reference, independent otherwise and
/// without a sense list.
pub open spec fn form_status(entry: JsonValue) -> EntryFormStatus {
    match json_get(entry, "senses"@) {
        Some(JsonValue::Array(ss)) => {
            let form = exists|i: int| 0 <= i < ss@.len() && sense_is_form_of(#[trigger] ss@[i]);
            let own = exists|i: int| 0 <= i < ss@.len() && !sense_is_form_of(#[trigger] ss@[i]);
            if form && own {
                EntryFormStatus::Mixed
            } else if form {
                EntryFormStatus::PureForm
            } else {
                EntryFormStatus::Independent
            }
        },
        _ => EntryFormStatus::Independent,
    }
}

pub fn classify_form_status(entry: &JsonValue) -> (r: EntryFormStatus)
    ensures
        r == form_status(*entry),
{
    let senses = match array_field(entry, "senses") {
        Some(s) => s,
        None => {
            return EntryFormStatus::Independent;
        },
    };
    let mut has_form = false;
    let mut has_own = false;
    let mut i: usize = 0;
    while i < senses.len()
        invariant
            0 <= i <= senses@.len(),
            has_form <==> exists|j: int| 0 <= j < i && sense_is_form_of(#[trigger] senses@[j]),
            has_own <==> exists|j: int| 0 <= j < i && !sense_is_form_of(#[trigger] senses@[j]),
        decreases senses@.len() - i,
    {
        if is_form_of_sense(&senses[i]) {
            has_form = true;
        } else {
            has_own = true;
        }
        i = i + 1;
    }
    if has_form && has_own {
        EntryFormStatus::Mixed
    } else if has_form {
        EntryFormStatus::PureForm
    } else {
        EntryFormStatus::Independent
    }
}

/// The senses that are not form references, in order.
pub open spec fn own_senses(ss: Seq<JsonValue>) -> Seq<JsonValue>
    decreases ss.len(),
{
    if ss.len() == 0 {
        ss
    } else if sense_is_form_of(ss.last()) {
        own_senses(ss.drop_last())
    } else {
        own_senses(ss.drop_last()).push(ss.last())
    }
}

/// The index of the first member named "senses" from index `i` on.
pub open spec fn senses_index_from(ms: Seq<(String, JsonValue)>, i: int) -> Option<int>
    decreases ms.len() - i,
{
    if i < 0 || i >= ms.len() {
        None
    } else if ms[i].0@ == "senses"@ {
        Some(i)
    } else {
        senses_index_from(ms, i + 1)
    }
}

/// `after` is `before` with the sense list, when there is one, holding only
/// the senses that are not form references; everything else is unchanged.
pub open spec fn stripped_of_form_senses(before: JsonValue, after: JsonValue) -> bool {
    match before {
        JsonValue::Object(ms) => {
            &&& after is Object
            &&& after->Object_0@.len() == ms@.len()
            &&& forall|k: int|
                #![trigger after->Object_0@[k]]
                0 <= k < ms@.len() ==> if senses_index_from(ms@, 0) == Some(k) && ms@[k].1 is Array {
                    &&& after->Object_0@[k].0@ == ms@[k].0@
                    &&& after->Object_0@[k].1 is Array
                    &&& after->Object_0@[k].1->Array_0@ == own_senses(ms@[k].1->Array_0@)
                } else {
                    after->Object_0@[k] == ms@[k]
                }
        },
        _ => after == before,
    }
}

fn keep_own_senses(ss: Vec<JsonValue>) -> (r: Vec<JsonValue>)
    ensures
        r@ == own_senses(ss@),
{
    let ghost all = ss@;
    let mut rest = ss;
    let mut kept: Vec<JsonValue> = Vec::new();
    let mut d: usize = 0;
    let total = rest.len();
    assert(all.skip(0) =~= all);
    while rest.len() > 0
        invariant
            d + rest@.len() == all.len(),
            total == all.len(),
            rest@ == all.skip(d as int),
            kept@ == own_senses(all.take(d as int)),
        decreases rest@.len(),
    {
        let x = rest.remove(0);
        assert(all.take(d + 1).drop_last() =~= all.take(d as int));
        assert(all.take(d + 1).last() == x);
        assert(rest@ =~= all.skip(d + 1));
        if !is_form_of_sense(&x) {
            kept.push(x);
        }
        d = d + 1;
    }
    assert(all.take(d as int) =~= all);
    kept
}

/// The entry without its form-reference senses.
pub fn strip_form_of_senses(entry: JsonValue) -> (r: JsonValue)
    ensures
        stripped_of_form_senses(entry, r),
{
    match entry {
        JsonValue::Object(members) => {
            let ghost ms = members@;
            let mut members = members;
            let n = members.len();
            let mut k: usize = 0;
            let senses_key = chars_of("senses");
            while k < n
                invariant_except_break
                    0 <= k <= n,
                    n == members@.len(),
                    members@ == ms,
                    senses_key@ == "senses"@,
                    senses_index_from(ms, 0) == senses_index_from(ms, k as int),
                ensures
                    0 <= k <= n,
                    n == members@.len(),
                    members@ == ms,
                    senses_index_from(ms, 0) == (if k < n {
                        Some(k as int)
                    } else {
                        None
                    }),
                decreases n - k,
            {
                let name = chars_of(members[k].0.as_str());
                if same(&name, &senses_key) {
                    break;
                }
                k = k + 1;
            }
            if k < n {
                let (name, value) = members.remove(k);
                let ghost mid = members@;
                match value {
                    JsonValue::Array(ss) => {
                        let kept = keep_own_senses(ss);
                        members.insert(k, (name, JsonValue::Array(kept)));
                    },
                    other => {
                        members.insert(k, (name, other));
                        assert(members@ =~= ms);
                    },
                }
                let r = JsonValue::Object(members);
                assert forall|j: int| 0 <= j < ms.len() && j != k implies r->Object_0@[j]
                    == ms[j] by {
                    if j < k {
                        assert(r->Object_0@[j] == mid[j]);
                    } else {
                        assert(r->Object_0@[j] == mid[j - 1]);
                    }
                }
                r
            } else {
                JsonValue::Object(members)
            }
        },
        other => other,
    }
}

/// Whether some sense carries the tag "form-of".
pub open spec fn some_form_of_tag(ss: Seq<JsonValue>) -> bool {
    exists|i: int| 0 <= i < ss.len() && has_form_of_tag(field_arr(#[trigger] ss[i], "tags"@))
}

fn senses_tagged_form_of(ss: &Vec<JsonValue>) -> (r: bool)
    ensures
        r == some_form_of_tag(ss@),
{
    let mut i: usize = 0;
    while i < ss.len()
        invariant
            0 <= i <= ss@.len(),
            forall|j: int| 0 <= j < i ==> !has_form_of_tag(field_arr(#[trigger] ss@[j], "tags"@)),
        decreases ss@.len() - i,
    {
        let tagged = match array_field(&ss[i], "tags") {
            Some(ts) => tags_have_form_of(ts),
            None => {
                assert(strs_of(Seq::<JsonValue>::empty()) =~= Seq::<Seq<char>>::empty());
                false
            },
        };
        if tagged {
            return true;
        }
        i = i + 1;
    }
    false
}

/// Whether a dictionary entry has a sense tagged "form-of".
pub fn is_form_reference_entry(raw_data: &JsonValue) -> (r: bool)
    ensures
        r == some_form_of_tag(field_arr(*raw_data, "senses"@)),
{
    match array_field(raw_data, "senses") {
        Some(ss) => senses_tagged_form_of(ss),
        None => false,
    }
}

/// The senses of the dictionary excerpt stored in an analysis.
pub open spec fn excerpt_senses(analysis: JsonValue) -> Seq<JsonValue> {
    match json_get(analysis, "dictionary_excerpt"@) {
        Some(e) => field_arr(e, "senses"@),
        None => Seq::empty(),
    }
}

/// Whether a stored analysis was grounded on an entry with a sense tagged
/// "form-of".
pub fn is_form_reference_analysis(analysis: &JsonValue) -> (r: bool)
    ensures
        r == some_form_of_tag(excerpt_senses(*analysis)),
{
    match analysis.get("dictionary_excerpt") {
        Some(e) => is_form_reference_entry(e),
        None => false,
    }
}

proof fn lemma_member_is_first(ms: Seq<(String, JsonValue)>, i: int)
    requires
        0 <= i,
    ensures
        member_from(ms, "senses"@, i) == (match senses_index_from(ms, i) {
            Some(k) => Some(ms[k].1),
            None => None,
        }),
    decreases ms.len() - i,
{
    if i < ms.len() && ms[i].0@ != "senses"@ {
        lemma_member_is_first(ms, i + 1);
    }
}

proof fn lemma_same_keys_same_index(a: Seq<(String, JsonValue)>, b: Seq<(String, JsonValue)>, i: int)
    requires
        0 <= i,
        a.len() == b.len(),
        forall|k: int| 0 <= k < a.len() ==> (#[trigger] a[k]).0@ == b[k].0@,
    ensures
        senses_index_from(a, i) == senses_index_from(b, i),
    decreases a.len() - i,
{
    if i < a.len() {
        lemma_same_keys_same_index(a, b, i + 1);
    }
}

proof fn lemma_own_senses_clean(ss: Seq<JsonValue>)
    ensures
        forall|k: int| 0 <= k < own_senses(ss).len() ==> !sense_is_form_of(#[trigger] own_senses(ss)[k]),
    decreases ss.len(),
{
    if ss.len() > 0 {
        let t = ss.drop_last();
        lemma_own_senses_clean(t);
        let o = own_senses(ss);
        assert forall|k: int| 0 <= k < o.len() implies !sense_is_form_of(#[trigger] o[k]) by {
            if sense_is_form_of(ss.last()) {
                assert(o == own_senses(t));
            } else {
                assert(o == own_senses(t).push(ss.last()));
                if k < own_senses(t).len() {
                    assert(o[k] == own_senses(t)[k]);
                }
            }
        }
    }
}

proof fn lemma_senses_index_range(ms: Seq<(String, JsonValue)>, i: int)
    requires
        0 <= i,
    ensures
        senses_index_from(ms, i) matches Some(k) ==> i <= k < ms.len() && ms[k].0@ == "senses"@,
    decreases ms.len() - i,
{
    if i < ms.len() && ms[i].0@ != "senses"@ {
        lemma_senses_index_range(ms, i + 1);
    }
}

/// An entry without its form-reference senses is a word of its own.
pub proof fn law_stripped_entry_is_independent(before: JsonValue, after: JsonValue)
    requires
        stripped_of_form_senses(before, after),
    ensures
        form_status(after) == EntryFormStatus::Independent,
{
    match before {
        JsonValue::Object(ms) => {
            let ns = after->Object_0@;
            assert forall|k: int| 0 <= k < ms@.len() implies (#[trigger] ns[k]).0@ == ms@[k].0@ by {
                assert(after->Object_0@[k] == ns[k]);
            }
            lemma_same_keys_same_index(ns, ms@, 0);
            lemma_member_is_first(ns, 0);
            lemma_senses_index_range(ms@, 0);
            assert(json_get(after, "senses"@) == member_from(ns, "senses"@, 0));
            match senses_index_from(ms@, 0) {
                Some(k) => {
                    assert(after->Object_0@[k] == ns[k]);
                    if ms@[k].1 is Array {
                        lemma_own_senses_clean(ms@[k].1->Array_0@);
                    }
                },
                None => {},
            }
        },
        _ => {},
    }
}

} // verus!
