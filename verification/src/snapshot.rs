//! Checking a snapshot of the knowledge base before it is restored, and
//! planning which entries and learning records a restore keeps.

use vstd::prelude::*;
use crate::dictionary::field_str;
use crate::json::{json_get, JsonValue};
use crate::text::{chars_of, extend, extend_str, owned, same, str_views, string_of};

verus! {

/// The format tag of a knowledge snapshot.
pub const KNOWLEDGE_SNAPSHOT_FORMAT: &'static str = "de_ai_hilfer_knowledge_snapshot_v1";

/// The format tag of a restore plan.
pub const KNOWLEDGE_RESTORE_PLAN_FORMAT: &'static str = "de_ai_hilfer_restore_plan_v1";

/// A stored knowledge entry: the fields a restore checks, and the rest of
/// the record as `E`.
#[derive(Debug)]
pub struct KnowledgeEntry<E> {
    pub id: i64,
    pub query_text: String,
    pub lexeme_id: Option<i64>,
    pub prototype: Option<String>,
    pub entry_type: String,
    pub analysis: JsonValue,
    pub rest: E,
}

/// A learning record: the entry it belongs to, and the rest as `P`.
#[derive(Debug)]
pub struct LearningProgress<P> {
    pub entry_id: i64,
    pub rest: P,
}

/// The word of the dictionary excerpt stored in an analysis.
pub open spec fn excerpt_word(analysis: JsonValue) -> Option<Seq<char>> {
    match json_get(analysis, "dictionary_excerpt"@) {
        Some(e) => match e {
            JsonValue::Object(_) => field_str(e, "word"@),
            _ => None,
        },
        None => None,
    }
}

pub fn dictionary_excerpt_word(analysis: &JsonValue) -> (r: Option<&str>)
    ensures
        r matches Some(w) ==> excerpt_word(*analysis) == Some(w@),
        r is None ==> excerpt_word(*analysis) is None,
{
    match analysis.get("dictionary_excerpt") {
        Some(e) => match e {
            JsonValue::Object(_) => crate::dictionary::str_field(e, "word"),
            _ => None,
        },
        None => None,
    }
}

/// The prototype stored in an analysis.
pub fn analysis_prototype(analysis: &JsonValue) -> (r: Option<&str>)
    ensures
        r matches Some(p) ==> field_str(*analysis, "prototype"@) == Some(p@),
        r is None ==> field_str(*analysis, "prototype"@) is None,
{
    crate::dictionary::str_field(analysis, "prototype")
}

/// `a`, " != ", `b` after a label.
pub open spec fn mismatch(label: Seq<char>, a: Seq<char>, b: Seq<char>) -> Seq<char> {
    label + a + " != "@ + b
}

/// Why an entry cannot be restored as it is: a word entry whose query text,
/// prototype, excerpt word and analysis prototype all agree passes.
pub open spec fn entry_reasons<E>(e: KnowledgeEntry<E>) -> Seq<Seq<char>> {
    let r1 = if e.entry_type@ != "WORD"@ {
        seq!["unsupported entry_type: "@ + e.entry_type@]
    } else {
        Seq::empty()
    };
    let r2 = match e.prototype {
        Some(p) => if p@ == e.query_text@ {
            r1
        } else {
            r1.push(mismatch("query_text/prototype mismatch: "@, e.query_text@, p@))
        },
        None => r1.push("missing prototype"@),
    };
    let r3 = match excerpt_word(e.analysis) {
        None => r2.push("missing analysis.dictionary_excerpt.word"@),
        Some(w) => match e.prototype {
            Some(p) => if p@ == w {
                r2
            } else {
                r2.push(mismatch("dictionary_excerpt.word mismatch: "@, p@, w))
            },
            None => r2,
        },
    };
    match (e.prototype, field_str(e.analysis, "prototype"@)) {
        (Some(p), Some(a)) => if p@ != a {
            r3.push(mismatch("analysis.prototype mismatch: "@, p@, a))
        } else {
            r3
        },
        _ => r3,
    }
}

fn push_str(v: &mut Vec<String>, t: Vec<char>)
    ensures
        str_views(final(v)@) == str_views(old(v)@).push(t@),
{
    let ghost before = str_views(v@);
    let s = string_of(&t);
    v.push(s);
    assert(str_views(v@) =~= before.push(t@));
}

fn mismatch_text(label: &str, a: &str, b: &str) -> (r: Vec<char>)
    ensures
        r@ == mismatch(label@, a@, b@),
{
    let mut t = chars_of(label);
    extend_str(&mut t, a);
    extend_str(&mut t, " != ");
    extend_str(&mut t, b);
    t
}

/// The reasons an entry fails the snapshot checks, empty when it passes.
pub fn validate_snapshot_entry<E>(entry: &KnowledgeEntry<E>) -> (r: Vec<String>)
    ensures
        str_views(r@) == entry_reasons(*entry),
{
    let mut reasons: Vec<String> = Vec::new();
    let et = chars_of(entry.entry_type.as_str());
    let word = chars_of("WORD");
    if !same(&et, &word) {
        let mut t = chars_of("unsupported entry_type: ");
        extend(&mut t, &et);
        push_str(&mut reasons, t);
    }
    assert(str_views(reasons@) =~= (if entry.entry_type@ != "WORD"@ {
        seq!["unsupported entry_type: "@ + entry.entry_type@]
    } else {
        Seq::<Seq<char>>::empty()
    }));
    match &entry.prototype {
        Some(p) => {
            let pv = chars_of(p.as_str());
            let qv = chars_of(entry.query_text.as_str());
            if !same(&pv, &qv) {
                push_str(
                    &mut reasons,
                    mismatch_text(
                        "query_text/prototype mismatch: ",
                        entry.query_text.as_str(),
                        p.as_str(),
                    ),
                );
            }
        },
        None => push_str(&mut reasons, chars_of("missing prototype")),
    }
    match dictionary_excerpt_word(&entry.analysis) {
        None => push_str(&mut reasons, chars_of("missing analysis.dictionary_excerpt.word")),
        Some(w) => match &entry.prototype {
            Some(p) => {
                let pv = chars_of(p.as_str());
                let wv = chars_of(w);
                if !same(&pv, &wv) {
                    push_str(
                        &mut reasons,
                        mismatch_text("dictionary_excerpt.word mismatch: ", p.as_str(), w),
                    );
                }
            },
            None => {},
        },
    }
    match (&entry.prototype, analysis_prototype(&entry.analysis)) {
        (Some(p), Some(a)) => {
            let pv = chars_of(p.as_str());
            let av = chars_of(a);
            if !same(&pv, &av) {
                push_str(
                    &mut reasons,
                    mismatch_text("analysis.prototype mismatch: ", p.as_str(), a),
                );
            }
        },
        _ => {},
    }
    reasons
}

/// An entry that fails the snapshot checks, with its reasons.
#[derive(Debug)]
pub struct SnapshotValidationIssue {
    pub entry_id: i64,
    pub query_text: String,
    pub prototype: Option<String>,
    pub reasons: Vec<String>,
}

/// The outcome of checking a snapshot.
#[derive(Debug)]
pub struct SnapshotValidationSummary {
    pub total_entries: usize,
    pub valid_entries: usize,
    pub invalid_entries: usize,
    pub issues: Vec<SnapshotValidationIssue>,
}

/// The indices of the entries that fail the checks, in order.
pub open spec fn failing<E>(es: Seq<KnowledgeEntry<E>>) -> Seq<int>
    decreases es.len(),
{
    if es.len() == 0 {
        Seq::empty()
    } else if entry_reasons(es.last()).len() > 0 {
        failing(es.drop_last()).push(es.len() - 1)
    } else {
        failing(es.drop_last())
    }
}

proof fn lemma_failing_bound<E>(es: Seq<KnowledgeEntry<E>>)
    ensures
        failing(es).len() <= es.len(),
        forall|k: int| 0 <= k < failing(es).len() ==> 0 <= #[trigger] failing(es)[k] < es.len(),
    decreases es.len(),
{
    if es.len() > 0 {
        lemma_failing_bound(es.drop_last());
    }
}

fn copy_option(s: &Option<String>) -> (r: Option<String>)
    ensures
        s is None ==> r is None,
        s matches Some(x) ==> (r is Some && r.unwrap()@ == x@),
{
    match s {
        Some(x) => Some(owned(x.as_str())),
        None => None,
    }
}

/// Checks every entry of a snapshot: one issue per failing entry, in
/// order, and the counts of passing and failing entries.
pub fn validate_snapshot<E>(entries: &Vec<KnowledgeEntry<E>>) -> (r: SnapshotValidationSummary)
    ensures
        r.total_entries == entries@.len(),
        r.invalid_entries == failing(entries@).len(),
        r.valid_entries == entries@.len() - failing(entries@).len(),
        r.issues@.len() == failing(entries@).len(),
        forall|k: int|
            0 <= k < r.issues@.len() ==> {
                let e = #[trigger] entries@[failing(entries@)[k]];
                &&& r.issues@[k].entry_id == e.id
                &&& r.issues@[k].query_text@ == e.query_text@
                &&& (r.issues@[k].prototype is None <==> e.prototype is None)
                &&& (r.issues@[k].prototype is Some ==> r.issues@[k].prototype.unwrap()@
                    == e.prototype.unwrap()@)
                &&& str_views(r.issues@[k].reasons@) == entry_reasons(e)
            },
{
    let mut issues: Vec<SnapshotValidationIssue> = Vec::new();
    let mut i: usize = 0;
    while i < entries.len()
        invariant
            0 <= i <= entries@.len(),
            issues@.len() == failing(entries@.take(i as int)).len(),
            forall|k: int|
                0 <= k < issues@.len() ==> {
                    let e = #[trigger] entries@[failing(entries@.take(i as int))[k]];
                    &&& issues@[k].entry_id == e.id
                    &&& issues@[k].query_text@ == e.query_text@
                    &&& (issues@[k].prototype is None <==> e.prototype is None)
                    &&& (issues@[k].prototype is Some ==> issues@[k].prototype.unwrap()@
                        == e.prototype.unwrap()@)
                    &&& str_views(issues@[k].reasons@) == entry_reasons(e)
                },
        decreases entries@.len() - i,
    {
        let ghost pre = entries@.take(i as int);
        let ghost cur = entries@.take(i + 1);
        assert(cur.drop_last() =~= pre);
        assert(cur.last() == entries@[i as int]);
        proof {
            lemma_failing_bound(pre);
            assert forall|k: int| 0 <= k < failing(pre).len() implies #[trigger] pre[failing(
                pre,
            )[k]] == entries@[failing(pre)[k]] by {}
        }
        let reasons = validate_snapshot_entry(&entries[i]);
        if reasons.len() > 0 {
            let issue = SnapshotValidationIssue {
                entry_id: entries[i].id,
                query_text: owned(entries[i].query_text.as_str()),
                prototype: copy_option(&entries[i].prototype),
                reasons,
            };
            issues.push(issue);
            assert(failing(cur) == failing(pre).push(i as int));
        } else {
            assert(failing(cur) == failing(pre));
        }
        i = i + 1;
    }
    assert(entries@.take(entries@.len() as int) =~= entries@);
    proof {
        lemma_failing_bound(entries@);
    }
    let n = entries.len();
    let bad = issues.len();
    SnapshotValidationSummary {
        total_entries: n,
        valid_entries: n - bad,
        invalid_entries: bad,
        issues,
    }
}

/// A snapshot's checks count every entry once: the passing and the failing
/// entries make up the total.
pub proof fn law_validation_counts<E>(entries: Seq<KnowledgeEntry<E>>)
    ensures
        failing(entries).len() <= entries.len(),
        (entries.len() - failing(entries).len()) + failing(entries).len() == entries.len(),
{
    lemma_failing_bound(entries);
}

// ---------------------------------------------------------------------------
// Restore plans
// ---------------------------------------------------------------------------

/// How a prototype was matched to a dictionary lexeme.
#[derive(Debug, Clone, Copy, PartialEq, Eq, Structural)]
pub enum ResolutionMode {
    Exact,
    CaseInsensitive,
}

/// The lexeme an entry is restored onto.
#[derive(Debug, Clone, Copy, PartialEq, Eq, Structural)]
pub struct ResolvedLexeme {
    pub lexeme_id: i64,
    pub mode: ResolutionMode,
}

/// The single id among the rows; none for no row or several.
pub fn unique_lexeme_id(ids: &Vec<i64>) -> (r: Option<i64>)
    ensures
        ids@.len() == 1 ==> r == Some(ids@[0]),
        ids@.len() != 1 ==> r is None,
{
    if ids.len() == 1 {
        Some(ids[0])
    } else {
        None
    }
}

/// The lexeme a prototype is restored onto: the unique lexeme with exactly
/// that surface, if it has a raw entry of its own; else, only when no such
/// unique lexeme exists, the unique lexeme with that surface in any case,
/// under the same condition. The case-insensitive lookup is not consulted
/// when an exact one was found.
pub fn resolve_target_lexeme(
    exact: Option<i64>,
    exact_independent: bool,
    case_insensitive: Option<i64>,
    case_insensitive_independent: bool,
) -> (r: Option<ResolvedLexeme>)
    ensures
        exact matches Some(id) ==> r == (if exact_independent {
            Some(ResolvedLexeme { lexeme_id: id, mode: ResolutionMode::Exact })
        } else {
            None
        }),
        exact is None ==> r == (match case_insensitive {
            Some(id) => if case_insensitive_independent {
                Some(ResolvedLexeme { lexeme_id: id, mode: ResolutionMode::CaseInsensitive })
            } else {
                None
            },
            None => None,
        }),
{
    match exact {
        Some(id) => if exact_independent {
            Some(ResolvedLexeme { lexeme_id: id, mode: ResolutionMode::Exact })
        } else {
            None
        },
        None => match case_insensitive {
            Some(id) => if case_insensitive_independent {
                Some(ResolvedLexeme { lexeme_id: id, mode: ResolutionMode::CaseInsensitive })
            } else {
                None
            },
            None => None,
        },
    }
}

pub open spec fn mode_name(m: ResolutionMode) -> Seq<char> {
    match m {
        ResolutionMode::Exact => "exact"@,
        ResolutionMode::CaseInsensitive => "case_insensitive"@,
    }
}

fn mode_text(m: ResolutionMode) -> (r: String)
    ensures
        r@ == mode_name(m),
{
    match m {
        ResolutionMode::Exact => owned("exact"),
        ResolutionMode::CaseInsensitive => owned("case_insensitive"),
    }
}

/// The prototype to resolve for an entry that passes the checks; none for
/// an entry that fails them.
pub fn restore_target<E>(entry: &KnowledgeEntry<E>) -> (r: Option<String>)
    ensures
        entry_reasons(*entry).len() == 0 && entry.prototype is Some ==> (r is Some && r.unwrap()@
            == entry.prototype.unwrap()@),
        !(entry_reasons(*entry).len() == 0 && entry.prototype is Some) ==> r is None,
{
    let reasons = validate_snapshot_entry(entry);
    if reasons.len() > 0 {
        return None;
    }
    copy_option(&entry.prototype)
}

/// An entry that a restore leaves out, with its reasons.
#[derive(Debug)]
pub struct RestoreRejectedEntry {
    pub entry_id: i64,
    pub query_text: String,
    pub prototype: Option<String>,
    pub reasons: Vec<String>,
}

/// A learning record that a restore leaves out, with its reasons.
#[derive(Debug)]
pub struct RestoreSkippedLearningProgress {
    pub entry_id: i64,
    pub reasons: Vec<String>,
}

/// An entry that a restore keeps, pointed at its lexeme.
#[derive(Debug)]
pub struct RestorePreparedEntry<E> {
    pub entry: KnowledgeEntry<E>,
    pub resolution_mode: String,
}

/// What a restore keeps and leaves out.
#[derive(Debug)]
pub struct KnowledgeRestorePlan<E, P> {
    pub format: String,
    pub source_snapshot_format: String,
    pub total_entries: usize,
    pub restorable_entries: Vec<RestorePreparedEntry<E>>,
    pub rejected_entries: Vec<RestoreRejectedEntry>,
    pub retained_learning_progress: Vec<LearningProgress<P>>,
    pub skipped_learning_progress: Vec<RestoreSkippedLearningProgress>,
}

/// An entry is restored when it passes the checks and its prototype
/// resolved to a lexeme.
pub open spec fn restorable<E>(e: KnowledgeEntry<E>, res: Option<ResolvedLexeme>) -> bool {
    entry_reasons(e).len() == 0 && e.prototype is Some && res is Some
}

/// Why an entry is left out of a restore.
pub open spec fn rejection_reasons<E>(e: KnowledgeEntry<E>) -> Seq<Seq<char>> {
    if entry_reasons(e).len() > 0 {
        entry_reasons(e)
    } else if e.prototype is None {
        seq!["missing prototype"@]
    } else {
        seq!["prototype did not resolve to a unique restorable lexeme"@]
    }
}

/// The indices of the entries a restore keeps (`keep` true) or leaves out.
pub open spec fn plan_indices<E>(
    es: Seq<KnowledgeEntry<E>>,
    rs: Seq<Option<ResolvedLexeme>>,
    keep: bool,
) -> Seq<int>
    decreases es.len(),
{
    if es.len() == 0 {
        Seq::empty()
    } else {
        let prev = plan_indices(es.drop_last(), rs, keep);
        if restorable(es.last(), rs[es.len() - 1]) == keep {
            prev.push(es.len() - 1)
        } else {
            prev
        }
    }
}

proof fn lemma_plan_indices<E>(es: Seq<KnowledgeEntry<E>>, rs: Seq<Option<ResolvedLexeme>>, keep: bool)
    ensures
        forall|k: int|
            0 <= k < plan_indices(es, rs, keep).len() ==> 0 <= #[trigger] plan_indices(
                es,
                rs,
                keep,
            )[k] < es.len() && restorable(es[plan_indices(es, rs, keep)[k]], rs[plan_indices(es, rs, keep)[k]]) == keep,
        plan_indices(es, rs, true).len() + plan_indices(es, rs, false).len() == es.len(),
    decreases es.len(),
{
    if es.len() > 0 {
        lemma_plan_indices(es.drop_last(), rs, keep);
        lemma_plan_indices(es.drop_last(), rs, !keep);
        let t = es.drop_last();
        assert forall|k: int| 0 <= k < plan_indices(t, rs, keep).len() implies #[trigger] t[plan_indices(t, rs, keep)[k]] == es[plan_indices(t, rs, keep)[k]] by {}
    }
}

/// The ids of the restored entries.
pub open spec fn restored_ids<E>(es: Seq<KnowledgeEntry<E>>, rs: Seq<Option<ResolvedLexeme>>) -> Seq<i64> {
    plan_indices(es, rs, true).map_values(|i: int| es[i].id)
}

/// A learning record is kept when its entry is restored.
pub open spec fn progress_kept<P>(p: LearningProgress<P>, ids: Seq<i64>) -> bool {
    ids.contains(p.entry_id)
}

fn contains_id(ids: &Vec<i64>, id: i64) -> (r: bool)
    ensures
        r == ids@.contains(id),
{
    let mut i: usize = 0;
    while i < ids.len()
        invariant
            0 <= i <= ids@.len(),
            forall|j: int| 0 <= j < i ==> ids@[j] != id,
        decreases ids@.len() - i,
    {
        if ids[i] == id {
            return true;
        }
        i = i + 1;
    }
    false
}

/// The restore plan of a snapshot: each entry that passes the checks and
/// whose prototype resolved (`resolutions` holds, per entry, what its
/// prototype resolved to) is kept, pointed at its lexeme; every other
/// entry is left out with its reasons; learning records are kept exactly
/// when their entry is kept.
pub fn build_restore_plan<E, P>(
    entries: Vec<KnowledgeEntry<E>>,
    resolutions: &Vec<Option<ResolvedLexeme>>,
    progress: Vec<LearningProgress<P>>,
    snapshot_format: &str,
) -> (r: KnowledgeRestorePlan<E, P>)
    requires
        resolutions@.len() == entries@.len(),
    ensures
        r.format@ == KNOWLEDGE_RESTORE_PLAN_FORMAT@,
        r.source_snapshot_format@ == snapshot_format@,
        r.total_entries == entries@.len(),
        r.restorable_entries@.len() == plan_indices(entries@, resolutions@, true).len(),
        forall|k: int|
            0 <= k < r.restorable_entries@.len() ==> {
                let i = #[trigger] plan_indices(entries@, resolutions@, true)[k];
                let res = resolutions@[i].unwrap();
                &&& r.restorable_entries@[k].entry == KnowledgeEntry {
                    lexeme_id: Some(res.lexeme_id),
                    ..entries@[i]
                }
                &&& r.restorable_entries@[k].resolution_mode@ == mode_name(res.mode)
            },
        r.rejected_entries@.len() == plan_indices(entries@, resolutions@, false).len(),
        forall|k: int|
            0 <= k < r.rejected_entries@.len() ==> {
                let e = entries@[#[trigger] plan_indices(entries@, resolutions@, false)[k]];
                &&& r.rejected_entries@[k].entry_id == e.id
                &&& r.rejected_entries@[k].query_text@ == e.query_text@
                &&& (r.rejected_entries@[k].prototype is None <==> e.prototype is None)
                &&& (r.rejected_entries@[k].prototype is Some
                    ==> r.rejected_entries@[k].prototype.unwrap()@ == e.prototype.unwrap()@)
                &&& str_views(r.rejected_entries@[k].reasons@) == rejection_reasons(e)
            },
        r.retained_learning_progress@ == crate::text::keep(
            progress@,
            |p: LearningProgress<P>| progress_kept(p, restored_ids(entries@, resolutions@)),
        ),
        r.skipped_learning_progress@.len() == progress@.len()
            - r.retained_learning_progress@.len(),
        r.skipped_learning_progress@.map_values(|x: RestoreSkippedLearningProgress| x.entry_id)
            == crate::text::keep(
            progress@,
            |p: LearningProgress<P>| !progress_kept(p, restored_ids(entries@, resolutions@)),
        ).map_values(|p: LearningProgress<P>| p.entry_id),
        forall|k: int|
            0 <= k < r.skipped_learning_progress@.len() ==> str_views(
                #[trigger] r.skipped_learning_progress@[k].reasons@,
            ) == seq!["owning knowledge entry is not restorable"@],
{
    let ghost es = entries@;
    let ghost rs = resolutions@;
    let total = entries.len();
    let mut rest = entries;
    let mut kept: Vec<RestorePreparedEntry<E>> = Vec::new();
    let mut rejected: Vec<RestoreRejectedEntry> = Vec::new();
    let mut kept_ids: Vec<i64> = Vec::new();
    let mut d: usize = 0;
    assert(es.skip(0) =~= es);
    while rest.len() > 0
        invariant
            d + rest@.len() == es.len(),
            total == es.len(),
            rs == resolutions@,
            rs.len() == es.len(),
            rest@ == es.skip(d as int),
            kept@.len() == plan_indices(es.take(d as int), rs, true).len(),
            kept_ids@ == restored_ids(es.take(d as int), rs),
            forall|k: int|
                0 <= k < kept@.len() ==> {
                    let i = #[trigger] plan_indices(es.take(d as int), rs, true)[k];
                    let res = rs[i].unwrap();
                    &&& kept@[k].entry == KnowledgeEntry { lexeme_id: Some(res.lexeme_id), ..es[i] }
                    &&& kept@[k].resolution_mode@ == mode_name(res.mode)
                },
            rejected@.len() == plan_indices(es.take(d as int), rs, false).len(),
            forall|k: int|
                0 <= k < rejected@.len() ==> {
                    let e = es[#[trigger] plan_indices(es.take(d as int), rs, false)[k]];
                    &&& rejected@[k].entry_id == e.id
                    &&& rejected@[k].query_text@ == e.query_text@
                    &&& (rejected@[k].prototype is None <==> e.prototype is None)
                    &&& (rejected@[k].prototype is Some ==> rejected@[k].prototype.unwrap()@
                        == e.prototype.unwrap()@)
                    &&& str_views(rejected@[k].reasons@) == rejection_reasons(e)
                },
        decreases rest@.len(),
    {
        let ghost pre = es.take(d as int);
        let ghost cur = es.take(d + 1);
        let mut entry = rest.remove(0);
        assert(cur.drop_last() =~= pre);
        assert(cur.last() == entry);
        assert(rest@ =~= es.skip(d + 1));
        proof {
            lemma_plan_indices(pre, rs, true);
            lemma_plan_indices(pre, rs, false);
            assert forall|k: int| 0 <= k < plan_indices(pre, rs, true).len() implies #[trigger] pre[plan_indices(pre, rs, true)[k]] == es[plan_indices(pre, rs, true)[k]] by {}
            assert forall|k: int| 0 <= k < plan_indices(pre, rs, false).len() implies #[trigger] pre[plan_indices(pre, rs, false)[k]] == es[plan_indices(pre, rs, false)[k]] by {}
        }
        let reasons = validate_snapshot_entry(&entry);
        let target = if reasons.len() == 0 {
            match resolutions[d] {
                Some(res) => if entry.prototype.is_some() {
                    Some(res)
                } else {
                    None
                },
                None => None,
            }
        } else {
            None
        };
        match target {
            Some(res) => {
                let ghost before_ids = kept_ids@;
                kept_ids.push(entry.id);
                entry.lexeme_id = Some(res.lexeme_id);
                kept.push(RestorePreparedEntry { entry, resolution_mode: mode_text(res.mode) });
                assert(plan_indices(cur, rs, true) == plan_indices(pre, rs, true).push(d as int));
                assert(plan_indices(cur, rs, false) == plan_indices(pre, rs, false));
                assert(restored_ids(cur, rs) =~= restored_ids(pre, rs).push(es[d as int].id));
            },
            None => {
                let mut why: Vec<String> = Vec::new();
                if reasons.len() > 0 {
                    why = reasons;
                } else if entry.prototype.is_none() {
                    push_str(&mut why, chars_of("missing prototype"));
                } else {
                    push_str(&mut why, chars_of("prototype did not resolve to a unique restorable lexeme"));
                }
                assert(str_views(why@) =~= rejection_reasons(es[d as int]));
                rejected.push(RestoreRejectedEntry {
                    entry_id: entry.id,
                    query_text: owned(entry.query_text.as_str()),
                    prototype: copy_option(&entry.prototype),
                    reasons: why,
                });
                assert(plan_indices(cur, rs, false) == plan_indices(pre, rs, false).push(d as int));
                assert(plan_indices(cur, rs, true) == plan_indices(pre, rs, true));
                assert(restored_ids(cur, rs) =~= restored_ids(pre, rs));
            },
        }
        d = d + 1;
    }
    assert(es.take(d as int) =~= es);
    let ghost ids = kept_ids@;
    let ghost ps = progress@;
    let mut prest = progress;
    let mut retained: Vec<LearningProgress<P>> = Vec::new();
    let mut skipped: Vec<RestoreSkippedLearningProgress> = Vec::new();
    let mut j: usize = 0;
    let ptotal = prest.len();
    assert(ps.skip(0) =~= ps);
    while prest.len() > 0
        invariant
            j + prest@.len() == ps.len(),
            ptotal == ps.len(),
            prest@ == ps.skip(j as int),
            ids == kept_ids@,
            retained@ == crate::text::keep(
                ps.take(j as int),
                |p: LearningProgress<P>| progress_kept(p, ids),
            ),
            skipped@.len() == j - retained@.len(),
            skipped@.map_values(|x: RestoreSkippedLearningProgress| x.entry_id) == crate::text::keep(
                ps.take(j as int),
                |p: LearningProgress<P>| !progress_kept(p, ids),
            ).map_values(|p: LearningProgress<P>| p.entry_id),
            forall|k: int|
                0 <= k < skipped@.len() ==> str_views(#[trigger] skipped@[k].reasons@) == seq![
                    "owning knowledge entry is not restorable"@,
                ],
        decreases prest@.len(),
    {
        let p = prest.remove(0);
        assert(ps.take(j + 1).drop_last() =~= ps.take(j as int));
        assert(ps.take(j + 1).last() == p);
        assert(prest@ =~= ps.skip(j + 1));
        proof {
            crate::text::lemma_keep_len(ps.take(j as int), |p: LearningProgress<P>| progress_kept(p, ids));
        }
        if contains_id(&kept_ids, p.entry_id) {
            retained.push(p);
        } else {
            let mut why: Vec<String> = Vec::new();
            push_str(&mut why, chars_of("owning knowledge entry is not restorable"));
            assert(str_views(why@) =~= seq!["owning knowledge entry is not restorable"@]);
            let ghost before = skipped@;
            skipped.push(RestoreSkippedLearningProgress { entry_id: p.entry_id, reasons: why });
            assert(skipped@.map_values(|x: RestoreSkippedLearningProgress| x.entry_id) =~= before.map_values(
                |x: RestoreSkippedLearningProgress| x.entry_id,
            ).push(p.entry_id));
        }
        j = j + 1;
    }
    assert(ps.take(j as int) =~= ps);
    KnowledgeRestorePlan {
        format: owned(KNOWLEDGE_RESTORE_PLAN_FORMAT),
        source_snapshot_format: owned(snapshot_format),
        total_entries: total,
        restorable_entries: kept,
        rejected_entries: rejected,
        retained_learning_progress: retained,
        skipped_learning_progress: skipped,
    }
}

/// Every entry of a snapshot ends in exactly one of the two lists of its
/// restore plan, and every learning record in exactly one of the two
/// others.
pub proof fn law_restore_plan_partition<E, P>(
    es: Seq<KnowledgeEntry<E>>,
    rs: Seq<Option<ResolvedLexeme>>,
    ps: Seq<LearningProgress<P>>,
)
    ensures
        plan_indices(es, rs, true).len() + plan_indices(es, rs, false).len() == es.len(),
        crate::text::keep(ps, |p: LearningProgress<P>| progress_kept(p, restored_ids(es, rs))).len()
            <= ps.len(),
{
    lemma_plan_indices(es, rs, true);
    crate::text::lemma_keep_len(ps, |p: LearningProgress<P>| progress_kept(p, restored_ids(es, rs)));
}

/// Whether a restore may drop the follow-up questions still stored.
#[derive(Debug, Clone, Copy)]
pub struct ApplyRestoreOptions {
    pub allow_drop_follow_ups: bool,
}

/// What a restore wrote and dropped.
#[derive(Debug, Clone, Copy)]
pub struct ApplyRestoreSummary {
    pub restored_entries: usize,
    pub restored_learning_progress: usize,
    pub dropped_follow_ups: usize,
}

/// The message refusing a restore that would drop stored follow-ups.
pub open spec fn refusal_message(count: int) -> Seq<char> {
    "refusing to restore because follow_ups still contains "@ + crate::text::signed_decimal(count)
        + " rows; rerun with --allow-drop-follow-ups after confirming they can be discarded"@
}

/// A restore is refused while follow-ups are stored, unless dropping them
/// was allowed.
pub fn check_restore_allowed(follow_up_count: i64, options: ApplyRestoreOptions) -> (r: Result<
    (),
    String,
>)
    ensures
        r is Err <==> (follow_up_count > 0 && !options.allow_drop_follow_ups),
        r matches Err(m) ==> m@ == refusal_message(follow_up_count as int),
{
    if follow_up_count > 0 && !options.allow_drop_follow_ups {
        let mut m = chars_of("refusing to restore because follow_ups still contains ");
        let n = crate::text::signed_decimal_exec(follow_up_count);
        extend(&mut m, &n);
        extend_str(
            &mut m,
            " rows; rerun with --allow-drop-follow-ups after confirming they can be discarded",
        );
        Err(string_of(&m))
    } else {
        Ok(())
    }
}

/// The summary of an applied restore plan.
pub fn restore_summary<E, P>(plan: &KnowledgeRestorePlan<E, P>, follow_up_count: i64) -> (r:
    ApplyRestoreSummary)
    requires
        0 <= follow_up_count <= usize::MAX,
    ensures
        r.restored_entries == plan.restorable_entries@.len(),
        r.restored_learning_progress == plan.retained_learning_progress@.len(),
        r.dropped_follow_ups == follow_up_count,
{
    ApplyRestoreSummary {
        restored_entries: plan.restorable_entries.len(),
        restored_learning_progress: plan.retained_learning_progress.len(),
        dropped_follow_ups: follow_up_count as usize,
    }
}

} // verus!
