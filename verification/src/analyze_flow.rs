//! The decisions of a word analysis request: which text is analysed, which
//! dictionary entry grounds it, whether a stored entry answers it, what is
//! stored afterwards and how the list of recent searches changes.

use vstd::prelude::*;
use crate::documents::{AnalysisDocument, QualityMode};
use crate::json::{json_get, JsonValue};
use crate::text::{is_blank, cat, chars_of, contains, contains_lit, owned, same, str_views, trim, trim_str};

verus! {

/// Whether the answer is a full grounded analysis or a compact one built
/// from the dictionary alone.
#[derive(Debug, Clone, Copy, PartialEq, Eq, Structural)]
pub enum AnalysisMode {
    Full,
    Compact,
}

impl AnalysisMode {
    /// The mode's name in log lines.
    pub fn name(self) -> (r: &'static str)
        ensures
            r@ == (match self {
                AnalysisMode::Full => "full"@,
                AnalysisMode::Compact => "compact"@,
            }),
    {
        match self {
            AnalysisMode::Full => "full",
            AnalysisMode::Compact => "compact",
        }
    }
}

/// Why an analysis request is refused before any lookup.
#[derive(Debug, Clone, Copy, PartialEq, Eq, Structural)]
pub enum AnalyzeError {
    EmptyQuery,
}

impl AnalyzeError {
    pub fn message(self) -> (r: &'static str)
        ensures
            r@ == "query_text cannot be empty"@,
    {
        "query_text cannot be empty"
    }
}

/// The query text of a request: the raw text trimmed, refused when nothing
/// is left.
pub fn request_query(raw: &str) -> (r: Result<String, AnalyzeError>)
    ensures
        r is Err <==> trim(raw@).len() == 0,
        r matches Ok(q) ==> q@ == trim(raw@),
{
    if is_blank(raw) {
        Err(AnalyzeError::EmptyQuery)
    } else {
        Ok(trim_str(raw))
    }
}

/// A generation hint trimmed; a blank hint counts as none.
pub fn generation_hint(hint: Option<&str>) -> (r: Option<String>)
    ensures
        hint is None ==> r is None,
        hint matches Some(h) ==> (trim(h@).len() == 0 ==> r is None) && (trim(h@).len() > 0 ==> (r
            is Some && r.unwrap()@ == trim(h@))),
{
    match hint {
        None => None,
        Some(h) => {
            if is_blank(h) {
                None
            } else {
                Some(trim_str(h))
            }
        },
    }
}

/// What a dictionary lookup found: the entry's headword, and whether the
/// entry only points at another word's form.
#[derive(Debug)]
pub struct DictionaryHit {
    pub headword: String,
    pub is_form_reference: bool,
}

/// Which dictionary entry grounds the analysis.
#[derive(Debug, Clone, Copy, PartialEq, Eq, Structural)]
pub enum EntryChoice {
    /// The entry whose headword is the query.
    Exact,
    /// The entry that lists the query among its forms.
    Form,
    /// No entry was found.
    Missing,
}

/// The text to analyse and the entry that grounds it.
#[derive(Debug)]
pub struct PrototypeResolution {
    pub prototype: String,
    pub entry: EntryChoice,
}

/// Whether the entry listing the query as a form must be looked up: when no
/// entry has the query as headword, or when that entry only points at
/// another word's form.
pub fn needs_form_lookup(exact: Option<&DictionaryHit>) -> (r: bool)
    ensures
        r == (exact is None || exact.unwrap().is_form_reference),
{
    match exact {
        None => true,
        Some(e) => e.is_form_reference,
    }
}

/// A dictionary hit as its headword and whether it only points at forms.
pub open spec fn hit_view(h: Option<&DictionaryHit>) -> Option<(Seq<char>, bool)> {
    match h {
        Some(e) => Some((e.headword@, e.is_form_reference)),
        None => None,
    }
}

/// The prototype chosen from the two lookups.
pub open spec fn prototype_of(
    query: Seq<char>,
    exact: Option<(Seq<char>, bool)>,
    form: Option<(Seq<char>, bool)>,
) -> (Seq<char>, EntryChoice) {
    match exact {
        Some(e) => if e.1 && form is Some && form.unwrap().0 != e.0 {
            (form.unwrap().0, EntryChoice::Form)
        } else {
            (e.0, EntryChoice::Exact)
        },
        None => match form {
            Some(f) => (f.0, EntryChoice::Form),
            None => (query, EntryChoice::Missing),
        },
    }
}

/// The prototype of a query: the headword of the exact entry, unless that
/// entry is a form reference and the query is listed as a form of another
/// headword; otherwise the headword listing the query as a form; otherwise
/// the query itself, with no entry.
pub fn resolve_prototype(
    query: &str,
    exact: Option<&DictionaryHit>,
    form: Option<&DictionaryHit>,
) -> (r: PrototypeResolution)
    ensures
        (r.prototype@, r.entry) == prototype_of(query@, hit_view(exact), hit_view(form)),
{
    match exact {
        Some(e) => {
            if e.is_form_reference {
                match form {
                    Some(f) => {
                        let fh = chars_of(f.headword.as_str());
                        let eh = chars_of(e.headword.as_str());
                        if !same(&fh, &eh) {
                            return PrototypeResolution {
                                prototype: owned(f.headword.as_str()),
                                entry: EntryChoice::Form,
                            };
                        }
                    },
                    None => {},
                }
            }
            PrototypeResolution { prototype: owned(e.headword.as_str()), entry: EntryChoice::Exact }
        },
        None => match form {
            Some(f) => PrototypeResolution {
                prototype: owned(f.headword.as_str()),
                entry: EntryChoice::Form,
            },
            None => PrototypeResolution { prototype: owned(query), entry: EntryChoice::Missing },
        },
    }
}

/// Which stored entry an analysis overwrites.
#[derive(Debug, Clone, Copy, PartialEq, Eq, Structural)]
pub enum ExistingLookup {
    /// The entry with this id.
    ById(i64),
    /// The entry stored under the prototype.
    ByPrototype,
    /// None: a new entry is stored.
    Skip,
}

/// An explicit entry id wins; a forced refresh overwrites the entry stored
/// under the prototype; otherwise a new entry is stored.
pub fn existing_entry_lookup(entry_id: Option<i64>, force_refresh: bool) -> (r: ExistingLookup)
    ensures
        entry_id matches Some(id) ==> r == ExistingLookup::ById(id),
        entry_id is None && force_refresh ==> r == ExistingLookup::ByPrototype,
        entry_id is None && !force_refresh ==> r == ExistingLookup::Skip,
{
    match entry_id {
        Some(id) => ExistingLookup::ById(id),
        None => if force_refresh {
            ExistingLookup::ByPrototype
        } else {
            ExistingLookup::Skip
        },
    }
}

/// Appends the query as an alias when it differs from the prototype and is
/// not an alias yet.
pub fn add_query_alias(aliases: &mut Vec<String>, prototype: &str, query: &str)
    ensures
        str_views(final(aliases)@) == (if prototype@ != query@ && !str_views(old(aliases)@).contains(
            query@,
        ) {
            str_views(old(aliases)@).push(query@)
        } else {
            str_views(old(aliases)@)
        }),
{
    let p = chars_of(prototype);
    let q = chars_of(query);
    if same(&p, &q) {
        return;
    }
    let mut found = false;
    let mut i: usize = 0;
    let n = aliases.len();
    while i < n
        invariant
            n == aliases@.len(),
            0 <= i <= n,
            q@ == query@,
            found <==> exists|j: int| 0 <= j < i && str_views(aliases@)[j] == query@,
        decreases n - i,
    {
        let a = chars_of(aliases[i].as_str());
        assert(str_views(aliases@)[i as int] == aliases@[i as int]@);
        if same(&a, &q) {
            found = true;
        }
        i = i + 1;
    }
    proof {
        if str_views(aliases@).contains(query@) {
            let j = choose|j: int| 0 <= j < str_views(aliases@).len() && str_views(aliases@)[j] == query@;
            assert(0 <= j < i);
        }
    }
    if !found {
        let ghost before = aliases@;
        aliases.push(owned(query));
        assert(str_views(aliases@) =~= str_views(before).push(query@));
    }
}

/// A generated analysis is stored unless it has neither a dictionary entry
/// nor an AI generation behind it.
pub fn should_persist(has_dictionary_entry: bool, used_ai_generation: bool) -> (r: bool)
    ensures
        r == (has_dictionary_entry || used_ai_generation),
{
    has_dictionary_entry || used_ai_generation
}

/// The source label of a generated answer: a compact answer is
/// "generated" when a dictionary entry grounds it and "待确认" otherwise; a
/// full answer names the model tier.
pub fn generated_source(mode: AnalysisMode, quality: QualityMode, has_dictionary_entry: bool) -> (r:
    &'static str)
    ensures
        mode == AnalysisMode::Compact && has_dictionary_entry ==> r@ == "generated"@,
        mode == AnalysisMode::Compact && !has_dictionary_entry ==> r@ == "待确认"@,
        mode == AnalysisMode::Full ==> r@ == tier_label(quality),
{
    match mode {
        AnalysisMode::Compact => if has_dictionary_entry {
            "generated"
        } else {
            "待确认"
        },
        AnalysisMode::Full => quality_label(quality),
    }
}

/// The name of a model tier shown to the user.
pub open spec fn tier_label(quality: QualityMode) -> Seq<char> {
    match quality {
        QualityMode::Default => "Flash"@,
        QualityMode::Pro => "Pro"@,
    }
}

pub fn quality_label(quality: QualityMode) -> (r: &'static str)
    ensures
        r@ == tier_label(quality),
{
    match quality {
        QualityMode::Default => "Flash",
        QualityMode::Pro => "Pro",
    }
}

/// How many recent searches are kept.
pub const RECENT_SEARCH_LIMIT: usize = 20;

/// `s` without its first element equal to `q`.
pub open spec fn without_first(s: Seq<Seq<char>>, q: Seq<char>) -> Seq<Seq<char>>
    decreases s.len(),
{
    if s.len() == 0 {
        s
    } else if s[0] == q {
        s.drop_first()
    } else {
        seq![s[0]] + without_first(s.drop_first(), q)
    }
}

/// The recent searches after a search for `q`: `q` moves to the front, and
/// at most the limit of searches stay.
pub open spec fn recent_after(s: Seq<Seq<char>>, q: Seq<char>) -> Seq<Seq<char>> {
    let moved = seq![q] + without_first(s, q);
    if moved.len() <= RECENT_SEARCH_LIMIT {
        moved
    } else {
        moved.take(RECENT_SEARCH_LIMIT as int)
    }
}

proof fn lemma_without_first(s: Seq<Seq<char>>, q: Seq<char>, i: int)
    requires
        0 <= i <= s.len(),
        forall|j: int| 0 <= j < i ==> s[j] != q,
        i < s.len() ==> s[i] == q,
    ensures
        without_first(s, q) == (if i < s.len() {
            s.remove(i)
        } else {
            s
        }),
    decreases i,
{
    if i == 0 {
        if s.len() > 0 {
            assert(s.remove(0) =~= s.drop_first());
        }
    } else {
        let t = s.drop_first();
        assert forall|j: int| 0 <= j < i - 1 implies t[j] != q by {
            assert(t[j] == s[j + 1]);
        }
        if i < s.len() {
            assert(t[i - 1] == s[i]);
        }
        lemma_without_first(t, q, i - 1);
        assert(s[0] != q);
        if i < s.len() {
            assert(seq![s[0]] + t.remove(i - 1) =~= s.remove(i));
        } else {
            assert(seq![s[0]] + t =~= s);
        }
    }
}

/// Moves a search to the front of the recent searches and keeps at most
/// the limit of them.
pub fn update_recent_searches(recent: &mut Vec<String>, query: &str)
    ensures
        str_views(final(recent)@) == recent_after(str_views(old(recent)@), query@),
{
    let ghost s0 = str_views(recent@);
    let q = chars_of(query);
    let n = recent.len();
    let mut i: usize = 0;
    while i < n
        invariant_except_break
            n == recent@.len(),
            0 <= i <= n,
            q@ == query@,
            s0 == str_views(recent@),
            forall|j: int| 0 <= j < i ==> s0[j] != query@,
        ensures
            0 <= i <= n,
            n == recent@.len(),
            s0 == str_views(recent@),
            forall|j: int| 0 <= j < i ==> s0[j] != query@,
            i < n ==> s0[i as int] == query@,
        decreases n - i,
    {
        let a = chars_of(recent[i].as_str());
        assert(s0[i as int] == recent@[i as int]@);
        if same(&a, &q) {
            break;
        }
        i = i + 1;
    }
    proof {
        lemma_without_first(s0, query@, i as int);
    }
    if i < n {
        let ghost before = recent@;
        let _old = recent.remove(i);
        assert(str_views(recent@) =~= str_views(before).remove(i as int));
    }
    let ghost mid = recent@;
    recent.insert(0, owned(query));
    assert(str_views(recent@) =~= seq![query@] + str_views(mid));
    let ghost full = recent@;
    recent.truncate(RECENT_SEARCH_LIMIT);
    proof {
        if full.len() > RECENT_SEARCH_LIMIT {
            assert(str_views(recent@) =~= str_views(full).take(RECENT_SEARCH_LIMIT as int));
        }
    }
}

/// No text occurs twice.
pub open spec fn distinct(s: Seq<Seq<char>>) -> bool {
    forall|i: int, j: int| 0 <= i < j < s.len() ==> s[i] != s[j]
}

proof fn lemma_without_first_distinct(s: Seq<Seq<char>>, q: Seq<char>)
    requires
        distinct(s),
    ensures
        distinct(without_first(s, q)),
        !without_first(s, q).contains(q),
        forall|x: Seq<char>| without_first(s, q).contains(x) ==> s.contains(x),
    decreases s.len(),
{
    if s.len() == 0 {
    } else if s[0] == q {
        let w = s.drop_first();
        assert forall|i: int, j: int| 0 <= i < j < w.len() implies w[i] != w[j] by {
            assert(w[i] == s[i + 1] && w[j] == s[j + 1]);
        }
        assert forall|k: int| 0 <= k < w.len() implies w[k] != q by {
            assert(w[k] == s[k + 1]);
        }
        assert forall|x: Seq<char>| w.contains(x) implies s.contains(x) by {
            let k = choose|k: int| 0 <= k < w.len() && w[k] == x;
            assert(s[k + 1] == x);
        }
    } else {
        let t = s.drop_first();
        assert forall|i: int, j: int| 0 <= i < j < t.len() implies t[i] != t[j] by {
            assert(t[i] == s[i + 1] && t[j] == s[j + 1]);
        }
        lemma_without_first_distinct(t, q);
        let w = without_first(t, q);
        let r = seq![s[0]] + w;
        assert(r == without_first(s, q));
        assert(!w.contains(s[0])) by {
            if w.contains(s[0]) {
                assert(t.contains(s[0]));
                let k = choose|k: int| 0 <= k < t.len() && t[k] == s[0];
                assert(s[k + 1] == s[0]);
            }
        }
        assert forall|i: int, j: int| 0 <= i < j < r.len() implies r[i] != r[j] by {
            if i == 0 {
                assert(r[j] == w[j - 1]);
                assert(w.contains(r[j]));
            } else {
                assert(r[i] == w[i - 1] && r[j] == w[j - 1]);
            }
        }
        assert(!r.contains(q)) by {
            if r.contains(q) {
                let k = choose|k: int| 0 <= k < r.len() && r[k] == q;
                if k > 0 {
                    assert(w[k - 1] == q);
                }
            }
        }
        assert forall|x: Seq<char>| r.contains(x) implies s.contains(x) by {
            let k = choose|k: int| 0 <= k < r.len() && r[k] == x;
            if k == 0 {
                assert(s[0] == x);
            } else {
                assert(w[k - 1] == x);
                assert(t.contains(x));
                let m = choose|m: int| 0 <= m < t.len() && t[m] == x;
                assert(s[m + 1] == x);
            }
        }
    }
}

/// After a search the searched text leads the recent searches, at most the
/// limit of searches are kept, and a list without repeats stays without
/// repeats.
pub proof fn law_recent_searches(s: Seq<Seq<char>>, q: Seq<char>)
    ensures
        recent_after(s, q).len() >= 1,
        recent_after(s, q)[0] == q,
        recent_after(s, q).len() <= RECENT_SEARCH_LIMIT,
        distinct(s) ==> distinct(recent_after(s, q)),
{
    let w = without_first(s, q);
    let moved = seq![q] + w;
    assert(moved[0] == q);
    if distinct(s) {
        lemma_without_first_distinct(s, q);
        assert forall|i: int, j: int| 0 <= i < j < moved.len() implies moved[i] != moved[j] by {
            if i == 0 {
                assert(moved[j] == w[j - 1]);
            } else {
                assert(moved[i] == w[i - 1] && moved[j] == w[j - 1]);
            }
        }
        let r = recent_after(s, q);
        assert forall|i: int, j: int| 0 <= i < j < r.len() implies r[i] != r[j] by {
            assert(r[i] == moved[i] && r[j] == moved[j]);
        }
    }
}

/// Whether a stream failure was the client going away.
pub fn is_stream_canceled(message: &str) -> (r: bool)
    ensures
        r == contains(message@, "stream analyze canceled by client"@),
{
    let m = chars_of(message);
    contains_lit(&m, "stream analyze canceled by client")
}

/// The markdown stored in an analysis value, empty when there is none.
pub open spec fn stored_markdown(analysis: JsonValue) -> Seq<char> {
    match json_get(analysis, "markdown"@) {
        Some(JsonValue::Str(s)) => s@,
        _ => Seq::empty(),
    }
}

pub fn analysis_markdown(analysis: &JsonValue) -> (r: String)
    ensures
        r@ == stored_markdown(*analysis),
{
    match analysis.get("markdown") {
        Some(JsonValue::Str(s)) => owned(s.as_str()),
        _ => String::new(),
    }
}

/// The model name stored in an analysis value.
pub open spec fn stored_model(analysis: JsonValue) -> Option<Seq<char>> {
    match json_get(analysis, "model"@) {
        Some(JsonValue::Str(s)) => Some(s@),
        _ => None,
    }
}

pub fn analysis_model(analysis: &JsonValue) -> (r: Option<String>)
    ensures
        r is None <==> stored_model(*analysis) is None,
        r matches Some(m) ==> stored_model(*analysis) == Some(m@),
{
    match analysis.get("model") {
        Some(JsonValue::Str(s)) => Some(owned(s.as_str())),
        _ => None,
    }
}

/// The first and last part of the answer for a query that nothing matched.
pub open spec fn no_candidate_head() -> Seq<char> {
    "## 未找到可靠候选\n\n- `"@
}

pub open spec fn no_candidate_tail() -> Seq<char> {
    "` 没有命中字典、知识库或可还原词形。\n- 普通查词不会再自动调用 AI 猜测原型，避免把一次搜索悄悄路由到不可控结果。\n- 可以从候选列表中选择最接近的一项，或使用 Tab 联想搜索补充语义线索。"@
}

/// The answer for a query that no dictionary entry, stored entry or known
/// form matched.
pub fn build_no_candidate_analysis(query: &str) -> (r: AnalysisDocument)
    ensures
        r.markdown@ == no_candidate_head() + query@ + no_candidate_tail(),
        str_views(r.tags@) == seq!["未找到可靠候选"@],
        r.structured is None,
        r.aliases@.len() == 0,
        r.prototype is None,
        r.attached_phrase_modules@.len() == 0,
        r.dictionary_excerpt is None,
        r.model is None,
        r.quality_mode is None,
{
    let head = cat("## 未找到可靠候选\n\n- `", query);
    let markdown = cat(head.as_str(), "` 没有命中字典、知识库或可还原词形。\n- 普通查词不会再自动调用 AI 猜测原型，避免把一次搜索悄悄路由到不可控结果。\n- 可以从候选列表中选择最接近的一项，或使用 Tab 联想搜索补充语义线索。");
    let mut tags: Vec<String> = Vec::new();
    tags.push(owned("未找到可靠候选"));
    assert(str_views(tags@) =~= seq!["未找到可靠候选"@]);
    AnalysisDocument {
        markdown,
        structured: None,
        tags,
        aliases: Vec::new(),
        prototype: None,
        attached_phrase_modules: Vec::new(),
        dictionary_excerpt: None,
        model: None,
        quality_mode: None,
    }
}

} // verus!
