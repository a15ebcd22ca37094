//! The decisions of a lookup: which suggestions a typed query gets and in
//! what order, and which route an intelligent search takes through the
//! dictionary, the knowledge base and the inference steps.

use vstd::prelude::*;
use crate::analyze_flow::{stored_markdown, DictionaryHit};
use crate::documents::AnalyzeResponse;
use crate::dictionary::{array_field, field_arr};
use crate::entry_form::{excerpt_senses, is_form_reference_analysis, some_form_of_tag};
use crate::follow_up_answer::{first_n, first_n_exec, strs_of, strs_of_exec};
use crate::json::JsonValue;
use crate::query_match::{
    german_candidate, lev, looks_like_german_candidate, match_form, normalize_for_match,
    score_of, threshold_for, fuzzy_score, fuzzy_threshold,
};
use crate::query_suggestions::{
    at_most, case_tier_of, first_per_text, law_suggestions_distinct_and_bounded,
    lemma_answer_keeps, lexeme_relation_tier, match_tier_of, rank_candidate, rank_order,
    sort_and_limit, source_tier_of, DBSuggestion, RankedSuggestion,
};
use crate::stage2_quality::byte_len;
use crate::text::{
    chars_of, contains, contains_lit, extend, extend_str, is_blank, join, join_exec, owned,
    same, str_views, string_of, trim, trim_str, views,
};

verus! {

// ---------------------------------------------------------------------------
// Suggestions
// ---------------------------------------------------------------------------

/// How the suggestion lookups run for a typed query.
#[derive(Debug)]
pub struct SuggestionPlan {
    /// The query trimmed.
    pub query: String,
    /// Whether the fuzzy lookups run: the folded query has three
    /// characters or more.
    pub fuzzy_enabled: bool,
}

/// `None` for a query shorter than two bytes once trimmed: it gets no
/// suggestions.
pub fn plan_suggestions(query: &str) -> (r: Option<SuggestionPlan>)
    ensures
        r is None <==> byte_len(trim(query@)) < 2,
        r matches Some(p) ==> p.query@ == trim(query@) && p.fuzzy_enabled == (match_form(
            trim(query@),
        ).len() >= 3),
{
    let q = trim_str(query);
    if q.as_str().len() < 2 {
        return None;
    }
    let n = chars_of(normalize_for_match(q.as_str()).as_str());
    let fuzzy_enabled = n.len() >= 3;
    Some(SuggestionPlan { query: q, fuzzy_enabled })
}

/// A knowledge entry found for a query, with the preview and markdown of
/// its analysis.
#[derive(Debug)]
pub struct KnowledgeCandidate {
    pub id: i64,
    pub query_text: String,
    pub preview: String,
    pub analysis_markdown: String,
}

/// A dictionary lexeme found for a query.
#[derive(Debug)]
pub struct LexemeCandidate {
    pub surface: String,
    pub matched_surface: String,
    pub matched_source: String,
    pub pos_summary: Vec<String>,
    pub gloss_preview: JsonValue,
}

/// The fields of a suggestion as texts.
pub struct SuggestionV {
    pub kind: Seq<char>,
    pub entry_id: i64,
    pub query_text: Seq<char>,
    pub preview: Seq<char>,
    pub markdown: Seq<char>,
    pub source: Seq<char>,
}

pub open spec fn suggestion_view(s: DBSuggestion) -> SuggestionV {
    SuggestionV {
        kind: s.suggestion_type@,
        entry_id: s.entry_id,
        query_text: s.query_text@,
        preview: s.preview@,
        markdown: s.analysis_markdown@,
        source: s.source@,
    }
}

/// The suggestion for a knowledge entry.
pub open spec fn knowledge_view(e: KnowledgeCandidate, kind: Seq<char>) -> SuggestionV {
    SuggestionV {
        kind,
        entry_id: e.id,
        query_text: e.query_text@,
        preview: e.preview@,
        markdown: e.analysis_markdown@,
        source: "知识库"@,
    }
}

pub fn build_knowledge_suggestion(entry: &KnowledgeCandidate, suggestion_type: &str) -> (r:
    DBSuggestion)
    ensures
        suggestion_view(r) == knowledge_view(*entry, suggestion_type@),
{
    DBSuggestion {
        suggestion_type: owned(suggestion_type),
        entry_id: entry.id,
        query_text: owned(entry.query_text.as_str()),
        preview: owned(entry.preview.as_str()),
        analysis_markdown: owned(entry.analysis_markdown.as_str()),
        source: owned("知识库"),
    }
}

/// The suggestion for a knowledge entry found by one of its aliases.
pub open spec fn alias_view(e: KnowledgeCandidate, alias: Seq<char>, kind: Seq<char>) -> SuggestionV {
    SuggestionV { preview: "↪ "@ + alias + " · "@ + e.preview@, ..knowledge_view(e, kind) }
}

pub fn build_alias_suggestion(entry: &KnowledgeCandidate, alias_text: &str, suggestion_type: &str) -> (r:
    DBSuggestion)
    ensures
        suggestion_view(r) == alias_view(*entry, alias_text@, suggestion_type@),
{
    let mut p = chars_of("↪ ");
    extend_str(&mut p, alias_text);
    extend_str(&mut p, " · ");
    extend_str(&mut p, entry.preview.as_str());
    DBSuggestion {
        suggestion_type: owned(suggestion_type),
        entry_id: entry.id,
        query_text: owned(entry.query_text.as_str()),
        preview: string_of(&p),
        analysis_markdown: owned(entry.analysis_markdown.as_str()),
        source: owned("知识库"),
    }
}

/// The elements of an array; empty for any other value.
pub open spec fn array_items(v: JsonValue) -> Seq<JsonValue> {
    match v {
        JsonValue::Array(xs) => xs@,
        _ => Seq::empty(),
    }
}

/// The glosses of the gloss preview items, item by item.
pub open spec fn preview_glosses(items: Seq<JsonValue>) -> Seq<Seq<char>>
    decreases items.len(),
{
    if items.len() == 0 {
        Seq::empty()
    } else {
        preview_glosses(items.drop_last()) + strs_of(field_arr(items.last(), "glosses"@))
    }
}

/// The preview line of a lexeme: part of speech, its first two glosses and
/// the surface it was found by when that differs.
pub open spec fn lexeme_preview(e: LexemeCandidate) -> Seq<char> {
    let pos = if e.pos_summary@.len() == 0 {
        "未知词性"@
    } else {
        join(str_views(e.pos_summary@), " / "@)
    };
    let items = array_items(e.gloss_preview);
    let senses = join(first_n(preview_glosses(items), 2), " / "@);
    let mapped = if e.matched_surface@ != e.surface@ {
        " ↪ "@ + e.matched_surface@
    } else {
        Seq::empty()
    };
    if senses.len() == 0 {
        "词典候选 · "@ + pos + mapped
    } else {
        "词典候选 · "@ + pos + " · "@ + senses + mapped
    }
}

pub fn lexeme_suggestion_preview(entry: &LexemeCandidate) -> (r: String)
    ensures
        r@ == lexeme_preview(*entry),
{
    let mut out = chars_of("词典候选 · ");
    if entry.pos_summary.len() == 0 {
        extend_str(&mut out, "未知词性");
    } else {
        let parts = crate::text::chars_of_all(&entry.pos_summary);
        let sep = chars_of(" / ");
        let j = join_exec(&parts, &sep);
        extend(&mut out, &j);
    }
    let ghost items = array_items(entry.gloss_preview);
    let mut glosses: Vec<Vec<char>> = Vec::new();
    match entry.gloss_preview.as_array() {
        Some(xs) => {
            let mut i: usize = 0;
            while i < xs.len()
                invariant
                    0 <= i <= xs@.len(),
                    items == xs@,
                    views(glosses@) == preview_glosses(items.take(i as int)),
                decreases xs@.len() - i,
            {
                assert(items.take(i + 1).drop_last() =~= items.take(i as int));
                assert(items.take(i + 1).last() == xs@[i as int]);
                let ts: Vec<Vec<char>> = match array_field(&xs[i], "glosses") {
                    Some(gs) => strs_of_exec(gs),
                    None => {
                        let e: Vec<Vec<char>> = Vec::new();
                        assert(views(e@) =~= strs_of(Seq::<JsonValue>::empty()));
                        e
                    },
                };
                let ghost before = views(glosses@);
                let mut j: usize = 0;
                while j < ts.len()
                    invariant
                        0 <= j <= ts@.len(),
                        views(glosses@) == before + views(ts@).take(j as int),
                    decreases ts@.len() - j,
                {
                    let x = crate::text::clone_chars(&ts[j]);
                    let ghost xv = x@;
                    let ghost prev = glosses@;
                    glosses.push(x);
                    assert(views(glosses@) =~= views(prev).push(xv));
                    assert(views(glosses@) =~= before + views(ts@).take(j + 1));
                    j = j + 1;
                }
                assert(views(ts@).take(ts@.len() as int) =~= views(ts@));
                i = i + 1;
            }
            assert(items.take(xs@.len() as int) =~= items);
        },
        None => {
            assert(views(glosses@) =~= preview_glosses(items));
        },
    }
    let two = first_n_exec(&glosses, 2);
    let sep = chars_of(" / ");
    let senses = join_exec(&two, &sep);
    if senses.len() > 0 {
        extend_str(&mut out, " · ");
        extend(&mut out, &senses);
    }
    let s = chars_of(entry.surface.as_str());
    let m = chars_of(entry.matched_surface.as_str());
    if !same(&m, &s) {
        extend_str(&mut out, " ↪ ");
        extend(&mut out, &m);
    }
    proof {
        reveal_strlit("未知词性");
    }
    string_of(&out)
}

/// The suggestion for a dictionary lexeme.
pub open spec fn lexeme_view(e: LexemeCandidate, kind: Seq<char>) -> SuggestionV {
    SuggestionV {
        kind,
        entry_id: 0,
        query_text: e.surface@,
        preview: lexeme_preview(e),
        markdown: Seq::empty(),
        source: "词典"@,
    }
}

pub fn build_lexeme_suggestion(entry: &LexemeCandidate, suggestion_type: &str) -> (r: DBSuggestion)
    ensures
        suggestion_view(r) == lexeme_view(*entry, suggestion_type@),
{
    DBSuggestion {
        suggestion_type: owned(suggestion_type),
        entry_id: 0,
        query_text: owned(entry.surface.as_str()),
        preview: lexeme_suggestion_preview(entry),
        analysis_markdown: String::new(),
        source: owned("词典"),
    }
}

/// The fields a ranked suggestion is ordered by, with its texts.
pub struct RankedV {
    pub suggestion: SuggestionV,
    pub normalized: Seq<char>,
    pub match_tier: u8,
    pub source_tier: u8,
    pub relation_tier: u8,
    pub case_tier: u8,
    pub distance: nat,
}

pub open spec fn ranked_view(x: RankedSuggestion) -> RankedV {
    RankedV {
        suggestion: suggestion_view(x.suggestion),
        normalized: x.normalized_query_text@,
        match_tier: x.match_tier,
        source_tier: x.source_tier,
        relation_tier: x.relation_tier,
        case_tier: x.case_tier,
        distance: x.distance as nat,
    }
}

/// What ranking a candidate gives: nothing when a folded form is empty
/// (or too long to measure) or the candidate does not match.
pub open spec fn rank_of(
    query: Seq<char>,
    match_text: Seq<char>,
    source: Seq<char>,
    s: SuggestionV,
    rel: u8,
) -> Option<RankedV> {
    let nq = match_form(query);
    let nm = match_form(match_text);
    if nq.len() == 0 || nm.len() == 0 || nq.len() >= usize::MAX || nm.len() >= usize::MAX {
        None
    } else {
        match match_tier_of(query, match_text) {
            None => None,
            Some(t) => Some(
                RankedV {
                    suggestion: s,
                    normalized: match_form(s.query_text),
                    match_tier: t,
                    source_tier: source_tier_of(source, s.kind),
                    relation_tier: rel,
                    case_tier: case_tier_of(query, match_text),
                    distance: lev(nq, nm),
                },
            ),
        }
    }
}

/// The ranked knowledge entries, in input order.
pub open spec fn knowledge_part(query: Seq<char>, es: Seq<KnowledgeCandidate>, kind: Seq<char>) -> Seq<
    RankedV,
>
    decreases es.len(),
{
    if es.len() == 0 {
        Seq::empty()
    } else {
        let prev = knowledge_part(query, es.drop_last(), kind);
        match rank_of(query, es.last().query_text@, "知识库"@, knowledge_view(es.last(), kind), 0) {
            Some(x) => prev.push(x),
            None => prev,
        }
    }
}

/// The ranked knowledge entries found by an alias, matched by the alias.
pub open spec fn alias_part(
    query: Seq<char>,
    es: Seq<(KnowledgeCandidate, String)>,
    kind: Seq<char>,
) -> Seq<RankedV>
    decreases es.len(),
{
    if es.len() == 0 {
        Seq::empty()
    } else {
        let prev = alias_part(query, es.drop_last(), kind);
        let e = es.last();
        match rank_of(query, e.1@, "知识库"@, alias_view(e.0, e.1@, kind), 0) {
            Some(x) => prev.push(x),
            None => prev,
        }
    }
}

/// How close a lexeme is related to the query by the surface it was found
/// by.
pub open spec fn relation_tier_of(source: Seq<char>) -> u8 {
    if source == "headword"@ {
        0u8
    } else if source == "form_of"@ {
        1u8
    } else if source == "form"@ {
        2u8
    } else if source == "alias"@ {
        3u8
    } else {
        4u8
    }
}

/// The ranked dictionary lexemes, matched by the surface they were found by.
pub open spec fn lexeme_part(query: Seq<char>, es: Seq<LexemeCandidate>) -> Seq<RankedV>
    decreases es.len(),
{
    if es.len() == 0 {
        Seq::empty()
    } else {
        let prev = lexeme_part(query, es.drop_last());
        let e = es.last();
        match rank_of(
            query,
            e.matched_surface@,
            "词典"@,
            lexeme_view(e, "dictionary_lexeme"@),
            relation_tier_of(e.matched_source@),
        ) {
            Some(x) => prev.push(x),
            None => prev,
        }
    }
}

/// All ranked candidates in lookup order: knowledge prefix matches, alias
/// prefix matches, lexemes, knowledge fuzzy matches, alias fuzzy matches.
/// When a lexeme was found, alias matches are left out.
pub open spec fn assembled(
    query: Seq<char>,
    prefix: Seq<KnowledgeCandidate>,
    alias_prefix: Seq<(KnowledgeCandidate, String)>,
    lexemes: Seq<LexemeCandidate>,
    fuzzy: Seq<KnowledgeCandidate>,
    alias_fuzzy: Seq<(KnowledgeCandidate, String)>,
) -> Seq<RankedV> {
    let prefer = lexemes.len() > 0;
    knowledge_part(query, prefix, "knowledge_prefix"@) + (if prefer {
        Seq::empty()
    } else {
        alias_part(query, alias_prefix, "knowledge_alias_prefix"@)
    }) + lexeme_part(query, lexemes) + knowledge_part(query, fuzzy, "knowledge_fuzzy"@) + (
    if prefer {
        Seq::empty()
    } else {
        alias_part(query, alias_fuzzy, "knowledge_alias_fuzzy"@)
    })
}

fn push_ranked(v: &mut Vec<RankedSuggestion>, x: Option<RankedSuggestion>)
    ensures
        x matches Some(y) ==> final(v)@ == old(v)@.push(y),
        x is None ==> final(v)@ == old(v)@,
{
    match x {
        Some(y) => v.push(y),
        None => {},
    }
}

fn rank_knowledge(
    query: &str,
    es: &Vec<KnowledgeCandidate>,
    kind: &str,
    out: &mut Vec<RankedSuggestion>,
)
    ensures
        final(out)@.map_values(|x: RankedSuggestion| ranked_view(x)) == old(out)@.map_values(
            |x: RankedSuggestion| ranked_view(x),
        ) + knowledge_part(query@, es@, kind@),
{
    let ghost base = out@.map_values(|x: RankedSuggestion| ranked_view(x));
    let mut i: usize = 0;
    while i < es.len()
        invariant
            0 <= i <= es@.len(),
            out@.map_values(|x: RankedSuggestion| ranked_view(x)) == base + knowledge_part(
                query@,
                es@.take(i as int),
                kind@,
            ),
        decreases es@.len() - i,
    {
        assert(es@.take(i + 1).drop_last() =~= es@.take(i as int));
        assert(es@.take(i + 1).last() == es@[i as int]);
        let s = build_knowledge_suggestion(&es[i], kind);
        let r = rank_candidate(query, es[i].query_text.as_str(), "知识库", s, 0);
        proof {
            let ro = rank_of(query@, es@[i as int].query_text@, "知识库"@, knowledge_view(es@[i as int], kind@), 0);
            if r is Some {
                assert(ro == Some(ranked_view(r.unwrap())));
            } else {
                assert(ro is None);
            }
        }
        let ghost before = out@;
        push_ranked(out, r);
        proof {
            let f = |x: RankedSuggestion| ranked_view(x);
            if r is Some {
                assert(out@.map_values(f) =~= before.map_values(f).push(ranked_view(r.unwrap())));
            } else {
                assert(out@.map_values(f) =~= before.map_values(f));
            }
        }
        assert(out@.map_values(|x: RankedSuggestion| ranked_view(x)) =~= base + knowledge_part(
            query@,
            es@.take(i + 1),
            kind@,
        ));
        i = i + 1;
    }
    assert(es@.take(es@.len() as int) =~= es@);
}

fn rank_aliases(
    query: &str,
    es: &Vec<(KnowledgeCandidate, String)>,
    kind: &str,
    out: &mut Vec<RankedSuggestion>,
)
    ensures
        final(out)@.map_values(|x: RankedSuggestion| ranked_view(x)) == old(out)@.map_values(
            |x: RankedSuggestion| ranked_view(x),
        ) + alias_part(query@, es@, kind@),
{
    let ghost base = out@.map_values(|x: RankedSuggestion| ranked_view(x));
    let mut i: usize = 0;
    while i < es.len()
        invariant
            0 <= i <= es@.len(),
            out@.map_values(|x: RankedSuggestion| ranked_view(x)) == base + alias_part(
                query@,
                es@.take(i as int),
                kind@,
            ),
        decreases es@.len() - i,
    {
        assert(es@.take(i + 1).drop_last() =~= es@.take(i as int));
        assert(es@.take(i + 1).last() == es@[i as int]);
        let s = build_alias_suggestion(&es[i].0, es[i].1.as_str(), kind);
        let r = rank_candidate(query, es[i].1.as_str(), "知识库", s, 0);
        proof {
            let ro = rank_of(query@, es@[i as int].1@, "知识库"@, alias_view(es@[i as int].0, es@[i as int].1@, kind@), 0);
            if r is Some {
                assert(ro == Some(ranked_view(r.unwrap())));
            } else {
                assert(ro is None);
            }
        }
        let ghost before = out@;
        push_ranked(out, r);
        proof {
            let f = |x: RankedSuggestion| ranked_view(x);
            if r is Some {
                assert(out@.map_values(f) =~= before.map_values(f).push(ranked_view(r.unwrap())));
            } else {
                assert(out@.map_values(f) =~= before.map_values(f));
            }
        }
        assert(out@.map_values(|x: RankedSuggestion| ranked_view(x)) =~= base + alias_part(
            query@,
            es@.take(i + 1),
            kind@,
        ));
        i = i + 1;
    }
    assert(es@.take(es@.len() as int) =~= es@);
}

fn rank_lexemes(query: &str, es: &Vec<LexemeCandidate>, out: &mut Vec<RankedSuggestion>)
    ensures
        final(out)@.map_values(|x: RankedSuggestion| ranked_view(x)) == old(out)@.map_values(
            |x: RankedSuggestion| ranked_view(x),
        ) + lexeme_part(query@, es@),
{
    let ghost base = out@.map_values(|x: RankedSuggestion| ranked_view(x));
    let mut i: usize = 0;
    while i < es.len()
        invariant
            0 <= i <= es@.len(),
            out@.map_values(|x: RankedSuggestion| ranked_view(x)) == base + lexeme_part(
                query@,
                es@.take(i as int),
            ),
        decreases es@.len() - i,
    {
        assert(es@.take(i + 1).drop_last() =~= es@.take(i as int));
        assert(es@.take(i + 1).last() == es@[i as int]);
        let s = build_lexeme_suggestion(&es[i], "dictionary_lexeme");
        let rel = lexeme_relation_tier(es[i].matched_source.as_str());
        let r = rank_candidate(query, es[i].matched_surface.as_str(), "词典", s, rel);
        proof {
            let ro = rank_of(query@, es@[i as int].matched_surface@, "词典"@, lexeme_view(es@[i as int], "dictionary_lexeme"@), relation_tier_of(es@[i as int].matched_source@));
            if r is Some {
                assert(ro == Some(ranked_view(r.unwrap())));
            } else {
                assert(ro is None);
            }
        }
        let ghost before = out@;
        push_ranked(out, r);
        proof {
            let f = |x: RankedSuggestion| ranked_view(x);
            if r is Some {
                assert(out@.map_values(f) =~= before.map_values(f).push(ranked_view(r.unwrap())));
            } else {
                assert(out@.map_values(f) =~= before.map_values(f));
            }
        }
        assert(out@.map_values(|x: RankedSuggestion| ranked_view(x)) =~= base + lexeme_part(
            query@,
            es@.take(i + 1),
        ));
        i = i + 1;
    }
    assert(es@.take(es@.len() as int) =~= es@);
}

/// Every candidate ranked, in lookup order; see `assembled`.
pub fn collect_ranked(
    query: &str,
    prefix: &Vec<KnowledgeCandidate>,
    alias_prefix: &Vec<(KnowledgeCandidate, String)>,
    lexemes: &Vec<LexemeCandidate>,
    fuzzy: &Vec<KnowledgeCandidate>,
    alias_fuzzy: &Vec<(KnowledgeCandidate, String)>,
) -> (r: Vec<RankedSuggestion>)
    ensures
        r@.map_values(|x: RankedSuggestion| ranked_view(x)) == assembled(
            query@,
            prefix@,
            alias_prefix@,
            lexemes@,
            fuzzy@,
            alias_fuzzy@,
        ),
{
    let prefer = lexemes.len() > 0;
    let mut out: Vec<RankedSuggestion> = Vec::new();
    assert(out@.map_values(|x: RankedSuggestion| ranked_view(x)) =~= Seq::<RankedV>::empty());
    rank_knowledge(query, prefix, "knowledge_prefix", &mut out);
    if !prefer {
        rank_aliases(query, alias_prefix, "knowledge_alias_prefix", &mut out);
    }
    rank_lexemes(query, lexemes, &mut out);
    rank_knowledge(query, fuzzy, "knowledge_fuzzy", &mut out);
    if !prefer {
        rank_aliases(query, alias_fuzzy, "knowledge_alias_fuzzy", &mut out);
    }
    assert(out@.map_values(|x: RankedSuggestion| ranked_view(x)) =~= assembled(
        query@,
        prefix@,
        alias_prefix@,
        lexemes@,
        fuzzy@,
        alias_fuzzy@,
    ));
    out
}

/// How many suggestions a query gets.
pub const SUGGESTION_LIMIT: usize = 10;

/// The candidates ranked for a query: the lookups run with the trimmed
/// query, and the fuzzy lookups only count when the folded query has three
/// characters or more.
pub open spec fn suggestion_candidates(
    query: Seq<char>,
    prefix: Seq<KnowledgeCandidate>,
    alias_prefix: Seq<(KnowledgeCandidate, String)>,
    lexemes: Seq<LexemeCandidate>,
    fuzzy: Seq<KnowledgeCandidate>,
    alias_fuzzy: Seq<(KnowledgeCandidate, String)>,
) -> Seq<RankedV> {
    let q = trim(query);
    let fuzzy_on = match_form(q).len() >= 3;
    assembled(
        q,
        prefix,
        alias_prefix,
        lexemes,
        if fuzzy_on { fuzzy } else { Seq::empty() },
        if fuzzy_on { alias_fuzzy } else { Seq::empty() },
    )
}

/// Whether every ranked candidate has the given suggestion type.
pub open spec fn all_of_kind(s: Seq<RankedV>, kind: Seq<char>) -> bool {
    forall|i: int| 0 <= i < s.len() ==> (#[trigger] s[i]).suggestion.kind == kind
}

proof fn lemma_knowledge_part_kind(query: Seq<char>, es: Seq<KnowledgeCandidate>, kind: Seq<char>)
    ensures
        all_of_kind(knowledge_part(query, es, kind), kind),
    decreases es.len(),
{
    if es.len() > 0 {
        lemma_knowledge_part_kind(query, es.drop_last(), kind);
    }
}

proof fn lemma_alias_part_kind(
    query: Seq<char>,
    es: Seq<(KnowledgeCandidate, String)>,
    kind: Seq<char>,
)
    ensures
        all_of_kind(alias_part(query, es, kind), kind),
    decreases es.len(),
{
    if es.len() > 0 {
        lemma_alias_part_kind(query, es.drop_last(), kind);
    }
}

proof fn lemma_lexeme_part_kind(query: Seq<char>, es: Seq<LexemeCandidate>)
    ensures
        all_of_kind(lexeme_part(query, es), "dictionary_lexeme"@),
    decreases es.len(),
{
    if es.len() > 0 {
        lemma_lexeme_part_kind(query, es.drop_last());
    }
}

/// The suggestion types a ranked candidate can have: alias matches only
/// when no lexeme was found, fuzzy matches only from fuzzy lookups.
proof fn lemma_assembled_kinds(
    query: Seq<char>,
    prefix: Seq<KnowledgeCandidate>,
    alias_prefix: Seq<(KnowledgeCandidate, String)>,
    lexemes: Seq<LexemeCandidate>,
    fuzzy: Seq<KnowledgeCandidate>,
    alias_fuzzy: Seq<(KnowledgeCandidate, String)>,
)
    ensures
        forall|i: int|
            0 <= i < assembled(query, prefix, alias_prefix, lexemes, fuzzy, alias_fuzzy).len()
                ==> {
                let k = (#[trigger] assembled(
                    query,
                    prefix,
                    alias_prefix,
                    lexemes,
                    fuzzy,
                    alias_fuzzy,
                )[i]).suggestion.kind;
                ||| k == "knowledge_prefix"@
                ||| (lexemes.len() == 0 && k == "knowledge_alias_prefix"@)
                ||| k == "dictionary_lexeme"@
                ||| (fuzzy.len() > 0 && k == "knowledge_fuzzy"@)
                ||| (lexemes.len() == 0 && alias_fuzzy.len() > 0 && k == "knowledge_alias_fuzzy"@)
            },
{
    let prefer = lexemes.len() > 0;
    let a = knowledge_part(query, prefix, "knowledge_prefix"@);
    let b: Seq<RankedV> = if prefer {
        Seq::empty()
    } else {
        alias_part(query, alias_prefix, "knowledge_alias_prefix"@)
    };
    let c = lexeme_part(query, lexemes);
    let d = knowledge_part(query, fuzzy, "knowledge_fuzzy"@);
    let e: Seq<RankedV> = if prefer {
        Seq::empty()
    } else {
        alias_part(query, alias_fuzzy, "knowledge_alias_fuzzy"@)
    };
    lemma_knowledge_part_kind(query, prefix, "knowledge_prefix"@);
    lemma_alias_part_kind(query, alias_prefix, "knowledge_alias_prefix"@);
    lemma_lexeme_part_kind(query, lexemes);
    lemma_knowledge_part_kind(query, fuzzy, "knowledge_fuzzy"@);
    lemma_alias_part_kind(query, alias_fuzzy, "knowledge_alias_fuzzy"@);
    if fuzzy.len() == 0 {
        assert(d =~= Seq::<RankedV>::empty());
    }
    if alias_fuzzy.len() == 0 {
        assert(alias_part(query, alias_fuzzy, "knowledge_alias_fuzzy"@) =~= Seq::<RankedV>::empty());
    }
    let all = assembled(query, prefix, alias_prefix, lexemes, fuzzy, alias_fuzzy);
    assert(all =~= a + b + c + d + e);
    assert forall|i: int| 0 <= i < all.len() implies {
        let k = (#[trigger] all[i]).suggestion.kind;
        ||| k == "knowledge_prefix"@
        ||| (lexemes.len() == 0 && k == "knowledge_alias_prefix"@)
        ||| k == "dictionary_lexeme"@
        ||| (fuzzy.len() > 0 && k == "knowledge_fuzzy"@)
        ||| (lexemes.len() == 0 && alias_fuzzy.len() > 0 && k == "knowledge_alias_fuzzy"@)
    } by {
        let ab = a + b;
        let abc = ab + c;
        let abcd = abc + d;
        if i < a.len() {
            assert(all[i] == a[i]);
        } else if i < ab.len() {
            assert(all[i] == b[i - a.len()]);
        } else if i < abc.len() {
            assert(all[i] == c[i - ab.len()]);
        } else if i < abcd.len() {
            assert(all[i] == d[i - abc.len()]);
        } else {
            assert(all[i] == e[i - abcd.len()]);
        }
    }
}

proof fn lemma_kind_names_differ()
    ensures
        "knowledge_prefix"@ != "knowledge_fuzzy"@,
        "knowledge_prefix"@ != "knowledge_alias_prefix"@,
        "knowledge_prefix"@ != "knowledge_alias_fuzzy"@,
        "dictionary_lexeme"@ != "knowledge_fuzzy"@,
        "dictionary_lexeme"@ != "knowledge_alias_prefix"@,
        "dictionary_lexeme"@ != "knowledge_alias_fuzzy"@,
        "knowledge_alias_prefix"@ != "knowledge_fuzzy"@,
        "knowledge_alias_prefix"@ != "knowledge_alias_fuzzy"@,
        "knowledge_fuzzy"@ != "knowledge_alias_fuzzy"@,
{
    reveal_strlit("knowledge_prefix");
    reveal_strlit("knowledge_fuzzy");
    reveal_strlit("knowledge_alias_prefix");
    reveal_strlit("knowledge_alias_fuzzy");
    reveal_strlit("dictionary_lexeme");
    assert("knowledge_prefix"@.len() == 16);
    assert("knowledge_fuzzy"@.len() == 15);
    assert("knowledge_alias_prefix"@.len() == 22);
    assert("knowledge_alias_fuzzy"@.len() == 21);
    assert("dictionary_lexeme"@.len() == 17);
}

/// The suggestions for a typed query from the lookup results. A query
/// shorter than two bytes once trimmed gets none. Otherwise every candidate
/// is ranked against the trimmed query in lookup order (see
/// `suggestion_candidates`; the fuzzy lists count only when the folded query
/// has three characters or more), then ordered best first, one per text, at
/// most ten.
pub fn get_suggestions(
    query: &str,
    prefix: &Vec<KnowledgeCandidate>,
    alias_prefix: &Vec<(KnowledgeCandidate, String)>,
    lexemes: &Vec<LexemeCandidate>,
    fuzzy: &Vec<KnowledgeCandidate>,
    alias_fuzzy: &Vec<(KnowledgeCandidate, String)>,
) -> (r: Vec<DBSuggestion>)
    ensures
        byte_len(trim(query@)) < 2 ==> r@.len() == 0,
        byte_len(trim(query@)) >= 2 ==> exists|ranked: Seq<RankedSuggestion>|
            #![auto]
            ranked.map_values(|x: RankedSuggestion| ranked_view(x)) == suggestion_candidates(
                query@,
                prefix@,
                alias_prefix@,
                lexemes@,
                fuzzy@,
                alias_fuzzy@,
            ) && r@ == at_most(first_per_text(rank_order(ranked)), SUGGESTION_LIMIT as nat).map_values(
                |x: RankedSuggestion| x.suggestion,
            ),
        r@.len() <= SUGGESTION_LIMIT,
        forall|i: int, j: int|
            0 <= i < j < r@.len() ==> r@[i].query_text@ != r@[j].query_text@,
        match_form(trim(query@)).len() < 3 ==> forall|i: int|
            0 <= i < r@.len() ==> (#[trigger] r@[i]).suggestion_type@ != "knowledge_fuzzy"@
                && r@[i].suggestion_type@ != "knowledge_alias_fuzzy"@,
        lexemes@.len() > 0 ==> forall|i: int|
            0 <= i < r@.len() ==> (#[trigger] r@[i]).suggestion_type@ != "knowledge_alias_prefix"@
                && r@[i].suggestion_type@ != "knowledge_alias_fuzzy"@,
{
    let plan = match plan_suggestions(query) {
        None => {
            return Vec::new();
        },
        Some(p) => p,
    };
    let no_knowledge: Vec<KnowledgeCandidate> = Vec::new();
    let no_aliases: Vec<(KnowledgeCandidate, String)> = Vec::new();
    let q = plan.query.as_str();
    let ranked = if plan.fuzzy_enabled {
        collect_ranked(q, prefix, alias_prefix, lexemes, fuzzy, alias_fuzzy)
    } else {
        collect_ranked(q, prefix, alias_prefix, lexemes, &no_knowledge, &no_aliases)
    };
    let ghost w = ranked@;
    let ghost fz: Seq<KnowledgeCandidate> = if plan.fuzzy_enabled { fuzzy@ } else { Seq::empty() };
    let ghost afz: Seq<(KnowledgeCandidate, String)> = if plan.fuzzy_enabled {
        alias_fuzzy@
    } else {
        Seq::empty()
    };
    proof {
        assert(no_knowledge@ =~= Seq::<KnowledgeCandidate>::empty());
        assert(no_aliases@ =~= Seq::<(KnowledgeCandidate, String)>::empty());
        let cands = assembled(trim(query@), prefix@, alias_prefix@, lexemes@, fz, afz);
        assert(w.map_values(|x: RankedSuggestion| ranked_view(x)) == cands);
        assert(cands == suggestion_candidates(
            query@,
            prefix@,
            alias_prefix@,
            lexemes@,
            fuzzy@,
            alias_fuzzy@,
        ));
        lemma_assembled_kinds(trim(query@), prefix@, alias_prefix@, lexemes@, fz, afz);
        lemma_kind_names_differ();
        let p = |x: RankedSuggestion|
            {
                let k = x.suggestion.suggestion_type@;
                &&& (!plan.fuzzy_enabled ==> k != "knowledge_fuzzy"@ && k != "knowledge_alias_fuzzy"@)
                &&& (lexemes@.len() > 0 ==> k != "knowledge_alias_prefix"@ && k
                    != "knowledge_alias_fuzzy"@)
            };
        assert forall|i: int| 0 <= i < w.len() implies p(#[trigger] w[i]) by {
            let mv = w.map_values(|x: RankedSuggestion| ranked_view(x));
            assert(mv[i] == ranked_view(w[i]));
            assert(cands[i].suggestion.kind == w[i].suggestion.suggestion_type@);
        }
        lemma_answer_keeps(w, SUGGESTION_LIMIT as nat, p);
        law_suggestions_distinct_and_bounded(rank_order(w), SUGGESTION_LIMIT as nat);
    }
    let r = sort_and_limit(ranked, SUGGESTION_LIMIT);
    proof {
        let ans = at_most(first_per_text(rank_order(w)), SUGGESTION_LIMIT as nat);
        assert(r@ == ans.map_values(|x: RankedSuggestion| x.suggestion));
        assert forall|i: int| 0 <= i < r@.len() implies r@[i] == (#[trigger] ans[i]).suggestion by {}
    }
    r
}

// ---------------------------------------------------------------------------
// Intelligent search
// ---------------------------------------------------------------------------

/// A stored knowledge entry found under the search term.
#[derive(Debug)]
pub struct KnowledgeHit {
    pub query_text: String,
    pub analysis: JsonValue,
}

/// A stored entry is passed over when neither the term nor the entry looks
/// German and the entry's markdown says that nothing was found.
pub open spec fn bypass_of(term: Seq<char>, query_text: Seq<char>, analysis: JsonValue) -> bool {
    !german_candidate(term) && !german_candidate(query_text) && contains(
        stored_markdown(analysis),
        "暂未命中字典或知识库"@,
    )
}

pub fn should_bypass_knowledge_hit(term: &str, entry: &KnowledgeHit) -> (r: bool)
    ensures
        r == bypass_of(term@, entry.query_text@, entry.analysis),
{
    if looks_like_german_candidate(term) || looks_like_german_candidate(entry.query_text.as_str()) {
        return false;
    }
    let md = crate::analyze_flow::analysis_markdown(&entry.analysis);
    let mv = chars_of(md.as_str());
    contains_lit(&mv, "暂未命中字典或知识库")
}

/// Where an intelligent search goes once the knowledge base and the
/// dictionary were asked.
#[derive(Debug)]
pub enum SearchRoute {
    /// Answer with the stored knowledge entry.
    Knowledge,
    /// A compact analysis of the headword, labelled by the source.
    Compact { headword: String, source: String },
    /// Nothing found: go on with the inference steps.
    Infer,
}

/// The route as texts: 0 for the stored entry, 1 for a compact analysis of
/// a headword with a source label, 2 for inference.
pub open spec fn route_of(
    term: Seq<char>,
    knowledge: Option<&KnowledgeHit>,
    direct: Option<&DictionaryHit>,
    form: Option<&DictionaryHit>,
) -> (u8, Seq<char>, Seq<char>) {
    let stored = knowledge is Some && !bypass_of(
        term,
        knowledge.unwrap().query_text@,
        knowledge.unwrap().analysis,
    );
    if stored && form is Some && form.unwrap().headword@ != knowledge.unwrap().query_text@
        && some_form_of_tag(excerpt_senses(knowledge.unwrap().analysis)) {
        (1, form.unwrap().headword@, "字典变形推断"@)
    } else if stored {
        (0, Seq::empty(), Seq::empty())
    } else if direct is Some && form is Some && direct.unwrap().headword@ != form.unwrap().headword@
        && direct.unwrap().is_form_reference {
        (1, form.unwrap().headword@, "字典变形推断"@)
    } else if direct is Some {
        (1, direct.unwrap().headword@, "字典直达"@)
    } else if form is Some {
        (1, form.unwrap().headword@, "字典变形推断"@)
    } else {
        (2, Seq::empty(), Seq::empty())
    }
}

pub open spec fn route_view(r: SearchRoute) -> (u8, Seq<char>, Seq<char>) {
    match r {
        SearchRoute::Knowledge => (0, Seq::empty(), Seq::empty()),
        SearchRoute::Compact { headword, source } => (1, headword@, source@),
        SearchRoute::Infer => (2, Seq::empty(), Seq::empty()),
    }
}

/// The route of an intelligent search: a stored entry answers unless it is
/// passed over or a form lookup shows it was stored under a form of another
/// headword; then a headword that the dictionary lists the term as a form
/// of wins over an entry that only points at forms, then the entry with
/// the term as headword, then the entry listing the term as a form.
pub fn route_intelligent_search(
    term: &str,
    knowledge: Option<&KnowledgeHit>,
    direct: Option<&DictionaryHit>,
    form: Option<&DictionaryHit>,
) -> (r: SearchRoute)
    ensures
        route_view(r) == route_of(term@, knowledge, direct, form),
{
    match knowledge {
        Some(entry) => {
            if !should_bypass_knowledge_hit(term, entry) {
                match form {
                    Some(f) => {
                        let fh = chars_of(f.headword.as_str());
                        let qt = chars_of(entry.query_text.as_str());
                        if !same(&fh, &qt) && is_form_reference_analysis(&entry.analysis) {
                            return SearchRoute::Compact {
                                headword: owned(f.headword.as_str()),
                                source: owned("字典变形推断"),
                            };
                        }
                    },
                    None => {},
                }
                return SearchRoute::Knowledge;
            }
        },
        None => {},
    }
    match (direct, form) {
        (Some(d), Some(f)) => {
            let dh = chars_of(d.headword.as_str());
            let fh = chars_of(f.headword.as_str());
            if !same(&dh, &fh) && d.is_form_reference {
                return SearchRoute::Compact {
                    headword: owned(f.headword.as_str()),
                    source: owned("字典变形推断"),
                };
            }
        },
        _ => {},
    }
    match direct {
        Some(d) => SearchRoute::Compact {
            headword: owned(d.headword.as_str()),
            source: owned("字典直达"),
        },
        None => match form {
            Some(f) => SearchRoute::Compact {
                headword: owned(f.headword.as_str()),
                source: owned("字典变形推断"),
            },
            None => SearchRoute::Infer,
        },
    }
}

/// A headword inferred from a hint replaces the term when it folds to
/// another text.
pub fn is_semantic_override(term: &str, headword: &str) -> (r: bool)
    ensures
        r == (match_form(headword@) != match_form(term@)),
{
    let h = chars_of(normalize_for_match(headword).as_str());
    let t = chars_of(normalize_for_match(term).as_str());
    !same(&h, &t)
}

/// A headword found by embedding for a hint is taken when it looks German
/// and folds to another text than the term.
pub fn accept_hint_embedding(term: &str, headword: &str) -> (r: bool)
    ensures
        r == (german_candidate(headword@) && match_form(headword@) != match_form(term@)),
{
    looks_like_german_candidate(headword) && is_semantic_override(term, headword)
}

/// The source label of a compact answer: "generated" is replaced by the
/// label of the step that found the headword.
pub fn relabel_source(source: &str, generated_source: &str) -> (r: String)
    ensures
        source@ == "generated"@ ==> r@ == generated_source@,
        source@ != "generated"@ ==> r@ == source@,
{
    let s = chars_of(source);
    let g = chars_of("generated");
    if same(&s, &g) {
        owned(generated_source)
    } else {
        owned(source)
    }
}

/// A candidate close enough to the term: its score is within the term's
/// threshold.
pub open spec fn close_enough(nt: Seq<char>, c: Seq<char>) -> bool {
    nt.len() < usize::MAX - 4 && match_form(c).len() < usize::MAX - 4 && score_of(nt, match_form(c))
        <= threshold_for(nt.len())
}

/// The index of the close candidate with the lowest score, the first one
/// among equals.
pub open spec fn best_candidate(nt: Seq<char>, cs: Seq<Seq<char>>) -> Option<int>
    decreases cs.len(),
{
    if cs.len() == 0 {
        None
    } else {
        let prev = best_candidate(nt, cs.drop_last());
        let c = cs.last();
        if close_enough(nt, c) && (prev is None || score_of(nt, match_form(c)) < score_of(
            nt,
            match_form(cs[prev.unwrap()]),
        )) {
            Some(cs.len() - 1)
        } else {
            prev
        }
    }
}

proof fn lemma_best_candidate_range(nt: Seq<char>, cs: Seq<Seq<char>>)
    ensures
        best_candidate(nt, cs) matches Some(k) ==> 0 <= k < cs.len() && close_enough(nt, cs[k]),
    decreases cs.len(),
{
    if cs.len() > 0 {
        lemma_best_candidate_range(nt, cs.drop_last());
    }
}

/// The dictionary headword closest to the term by fuzzy score, among those
/// within the term's threshold.
pub fn infer_headword_locally(term: &str, candidates: &Vec<String>) -> (r: Option<String>)
    ensures
        best_candidate(match_form(term@), str_views(candidates@)) matches Some(k) ==> r is Some
            && r.unwrap()@ == candidates@[k]@,
        best_candidate(match_form(term@), str_views(candidates@)) is None ==> r is None,
{
    let nt = chars_of(normalize_for_match(term).as_str());
    let ghost cs = str_views(candidates@);
    let mut best: Option<usize> = None;
    let mut best_score: usize = 0;
    let mut i: usize = 0;
    while i < candidates.len()
        invariant
            0 <= i <= candidates@.len(),
            cs == str_views(candidates@),
            nt@ == match_form(term@),
            best_candidate(nt@, cs.take(i as int)) == (match best {
                Some(k) => Some(k as int),
                None => None::<int>,
            }),
            best matches Some(k) ==> k < i && best_score == score_of(nt@, match_form(cs[k as int])),
        decreases candidates@.len() - i,
    {
        assert(cs.take(i + 1).drop_last() =~= cs.take(i as int));
        assert(cs.take(i + 1).last() == candidates@[i as int]@);
        proof {
            lemma_best_candidate_range(nt@, cs.take(i as int));
            if best is Some {
                assert(cs.take(i + 1)[best.unwrap() as int] == cs[best.unwrap() as int]);
            }
        }
        let c = chars_of(normalize_for_match(candidates[i].as_str()).as_str());
        if nt.len() < usize::MAX - 4 && c.len() < usize::MAX - 4 {
            let score = fuzzy_score(&nt, &c);
            if score <= fuzzy_threshold(nt.len()) {
                let better = match best {
                    None => true,
                    Some(_) => score < best_score,
                };
                if better {
                    best = Some(i);
                    best_score = score;
                }
            }
        }
        i = i + 1;
    }
    assert(cs.take(candidates@.len() as int) =~= cs);
    match best {
        Some(k) => Some(owned(candidates[k].as_str())),
        None => None,
    }
}

/// The step of an intelligent search that found a headword.
#[derive(Debug, Clone, Copy, PartialEq, Eq, Structural)]
pub enum InferStep {
    LocalFuzzy,
    Embedding,
    Ai,
}

/// The source label of an inference step.
pub fn inference_source(step: InferStep) -> (r: &'static str)
    ensures
        r@ == (match step {
            InferStep::LocalFuzzy => "本地模糊推断"@,
            InferStep::Embedding => "语义向量推断"@,
            InferStep::Ai => "AI推断"@,
        }),
{
    match step {
        InferStep::LocalFuzzy => "本地模糊推断",
        InferStep::Embedding => "语义向量推断",
        InferStep::Ai => "AI推断",
    }
}

/// The note on why an intelligent search could not finish.
pub open spec fn pending_note(hint: Seq<char>) -> Seq<char> {
    if hint.len() == 0 {
        "当前本地字典没有直接命中，且这个查询场景仍需要 AI 做语义推断。"@
    } else {
        "当前本地字典没有直接命中，线索“"@ + hint + "”仍需要 AI 做语义推断。"@
    }
}

pub open spec fn pending_markdown(hint: Seq<char>) -> Seq<char> {
    "## 高级查询暂未完成\n\n- "@ + pending_note(hint)
        + "\n- 现阶段本地已经能处理：字典直达、变形识别、近似拼写。\n- 如果你输入的是中文语义线索，请等待 AI 推断链路进一步稳定后再试，或先补一个更接近的德语拼写。 "@
}

/// The markdown answered while an intelligent search still needs a model
/// to infer the headword; `hint` is the trimmed hint.
pub fn intelligent_search_pending_markdown(hint: &str) -> (r: String)
    ensures
        r@ == pending_markdown(hint@),
{
    let h = chars_of(hint);
    let mut out = chars_of("## 高级查询暂未完成\n\n- ");
    if h.len() == 0 {
        extend_str(&mut out, "当前本地字典没有直接命中，且这个查询场景仍需要 AI 做语义推断。");
    } else {
        extend_str(&mut out, "当前本地字典没有直接命中，线索“");
        extend(&mut out, &h);
        extend_str(&mut out, "”仍需要 AI 做语义推断。");
    }
    extend_str(
        &mut out,
        "\n- 现阶段本地已经能处理：字典直达、变形识别、近似拼写。\n- 如果你输入的是中文语义线索，请等待 AI 推断链路进一步稳定后再试，或先补一个更接近的德语拼写。 ",
    );
    string_of(&out)
}

/// The answer while an intelligent search still needs a model to infer the
/// headword: no entry, the pending markdown, and the source "需要AI推断".
pub fn build_intelligent_search_pending_response(term: &str, hint: &str) -> (r: AnalyzeResponse)
    ensures
        r.entry_id == 0,
        r.query_text@ == term@,
        r.analysis_markdown@ == pending_markdown(hint@),
        r.structured_analysis is None,
        r.phrase_lookup is None,
        r.phrase_usage_preview is None,
        r.attached_phrase_modules@.len() == 0,
        r.source@ == "需要AI推断"@,
        r.model is None,
        r.quality_mode is None,
        r.follow_ups@.len() == 0,
{
    AnalyzeResponse {
        entry_id: 0,
        query_text: owned(term),
        analysis_markdown: intelligent_search_pending_markdown(hint),
        structured_analysis: None,
        phrase_lookup: None,
        phrase_usage_preview: None,
        attached_phrase_modules: Vec::new(),
        source: owned("需要AI推断"),
        model: None,
        quality_mode: None,
        follow_ups: Vec::new(),
    }
}

// ---------------------------------------------------------------------------
// Library pages
// ---------------------------------------------------------------------------

/// The page size asked for, kept between 1 and 60.
pub fn clamp_page_limit(limit: i64) -> (r: i64)
    ensures
        limit < 1 ==> r == 1,
        limit > 60 ==> r == 60,
        1 <= limit <= 60 ==> r == limit,
{
    if limit < 1 {
        1
    } else if limit > 60 {
        60
    } else {
        limit
    }
}

/// The value of a run of decimal digits.
pub open spec fn digits_value(d: Seq<char>) -> int
    decreases d.len(),
{
    if d.len() == 0 {
        0
    } else {
        digits_value(d.drop_last()) * 10 + (d.last() as int - '0' as int)
    }
}

pub open spec fn all_digits(d: Seq<char>) -> bool {
    forall|i: int| 0 <= i < d.len() ==> '0' <= #[trigger] d[i] <= '9'
}

/// The digits after an optional sign, and whether the sign was `-`.
pub open spec fn unsigned_part(s: Seq<char>) -> (bool, Seq<char>) {
    if s.len() > 0 && s[0] == '-' {
        (true, s.drop_first())
    } else if s.len() > 0 && s[0] == '+' {
        (false, s.drop_first())
    } else {
        (false, s)
    }
}

/// The `i64` a text denotes: an optional sign and at least one decimal
/// digit, nothing else, in range.
pub open spec fn parsed_i64(s: Seq<char>) -> Option<int> {
    let (neg, d) = unsigned_part(s);
    if d.len() == 0 || !all_digits(d) {
        None
    } else {
        let v = if neg {
            -digits_value(d)
        } else {
            digits_value(d)
        };
        if i64::MIN <= v <= i64::MAX {
            Some(v)
        } else {
            None
        }
    }
}

proof fn lemma_digits_prefix(d: Seq<char>, j: int)
    requires
        all_digits(d),
        0 <= j <= d.len(),
    ensures
        0 <= digits_value(d.take(j)) <= digits_value(d),
    decreases d.len(),
{
    if d.len() == 0 {
        assert(d.take(j) =~= d);
    } else if j == d.len() {
        assert(d.take(j) =~= d);
        lemma_digits_prefix(d.drop_last(), j - 1);
    } else {
        let t = d.drop_last();
        assert(t.take(j) =~= d.take(j));
        assert forall|i: int| 0 <= i < t.len() implies '0' <= #[trigger] t[i] <= '9' by {
            assert(t[i] == d[i]);
        }
        lemma_digits_prefix(t, j);
        lemma_digits_prefix(t, t.len() as int);
        assert(t.take(t.len() as int) =~= t);
        assert('0' <= d[d.len() - 1] <= '9');
    }
}

/// Why a library cursor was refused.
#[derive(Debug, Clone, Copy, PartialEq, Eq, Structural)]
pub enum CursorError {
    Invalid,
}

impl CursorError {
    pub fn message(self) -> (r: &'static str)
        ensures
            r@ == "invalid library cursor"@,
    {
        "invalid library cursor"
    }
}

/// The offset a library cursor names: 0 without a cursor or for a blank
/// one, the non-negative integer it holds otherwise.
pub fn parse_library_cursor(cursor: Option<&str>) -> (r: Result<i64, CursorError>)
    ensures
        (cursor is None || trim(cursor.unwrap()@).len() == 0) ==> r == Ok::<i64, CursorError>(0),
        cursor is Some && trim(cursor.unwrap()@).len() > 0 ==> (match parsed_i64(trim(cursor.unwrap()@)) {
            Some(v) => if v >= 0 {
                r == Ok::<i64, CursorError>(v as i64)
            } else {
                r == Err::<i64, CursorError>(CursorError::Invalid)
            },
            None => r == Err::<i64, CursorError>(CursorError::Invalid),
        }),
{
    let c = match cursor {
        None => {
            return Ok(0);
        },
        Some(c) => c,
    };
    let raw = chars_of(c);
    let t = crate::text::trim_exec(&raw);
    if t.len() == 0 {
        return Ok(0);
    }
    let ghost (neg_s, d) = unsigned_part(t@);
    let mut start: usize = 0;
    let mut neg = false;
    if t[0] == '-' {
        start = 1;
        neg = true;
    } else if t[0] == '+' {
        start = 1;
    }
    assert(d =~= t@.skip(start as int));
    assert(neg == neg_s);
    if start == t.len() {
        return Err(CursorError::Invalid);
    }
    let limit: u64 = 9223372036854775808;
    let mut acc: u64 = 0;
    let mut i: usize = start;
    while i < t.len()
        invariant
            start <= i <= t@.len(),
            t@ == trim(c@),
            t@.len() > 0,
            cursor == Some(c),
            (neg, d) == unsigned_part(t@),
            limit == 9223372036854775808u64,
            d == t@.skip(start as int),
            acc == digits_value(d.take(i - start)),
            acc <= limit,
            forall|k: int| 0 <= k < i - start ==> '0' <= #[trigger] d[k] <= '9',
        decreases t@.len() - i,
    {
        let ch = t[i];
        if !('0' <= ch && ch <= '9') {
            assert(d[i - start] == ch);
            return Err(CursorError::Invalid);
        }
        let digit: u64 = (ch as u32 - '0' as u32) as u64;
        assert(d.take(i - start + 1).drop_last() =~= d.take(i - start));
        assert(d.take(i - start + 1).last() == ch);
        if acc > (limit - digit) / 10 {
            proof {
                assert(forall|k: int| 0 <= k < i - start + 1 ==> '0' <= #[trigger] d[k] <= '9');
                assert(acc * 10 + digit > limit) by (nonlinear_arith)
                    requires
                        acc > (limit - digit) / 10,
                        digit <= 9,
                        limit == 9223372036854775808u64,
                ;
                if all_digits(d) {
                    lemma_digits_prefix(d, i - start + 1);
                }
            }
            return Err(CursorError::Invalid);
        }
        acc = acc * 10 + digit;
        i = i + 1;
    }
    assert(d.take(i - start) =~= d);
    assert(all_digits(d));
    if neg {
        if acc == 0 {
            Ok(0)
        } else {
            Err(CursorError::Invalid)
        }
    } else if acc > 9223372036854775807 {
        Err(CursorError::Invalid)
    } else {
        Ok(acc as i64)
    }
}

/// The cursor of the next page: the offset in decimal.
pub fn next_cursor(next_offset: Option<i64>) -> (r: Option<String>)
    ensures
        next_offset is None ==> r is None,
        next_offset is Some ==> (r is Some && r.unwrap()@ == crate::text::signed_decimal(
            next_offset.unwrap() as int,
        )),
{
    match next_offset {
        Some(v) => Some(string_of(&crate::text::signed_decimal_exec(v))),
        None => None,
    }
}

proof fn lemma_decimal_digits(n: nat)
    ensures
        crate::text::decimal(n).len() >= 1,
        all_digits(crate::text::decimal(n)),
        digits_value(crate::text::decimal(n)) == n,
    decreases n,
{
    let dc = crate::text::digit_chars();
    assert(dc =~= seq!['0', '1', '2', '3', '4', '5', '6', '7', '8', '9']);
    if n < 10 {
        let d = crate::text::decimal(n);
        assert(d == seq![dc[n as int]]);
        assert(d.drop_last() =~= Seq::<char>::empty());
        assert(dc[n as int] as int - '0' as int == n) by {
            if n == 0 {} else if n == 1 {} else if n == 2 {} else if n == 3 {} else if n == 4 {}
            else if n == 5 {} else if n == 6 {} else if n == 7 {} else if n == 8 {} else {}
        }
        assert(d.last() == dc[n as int]);
        assert(digits_value(d) == digits_value(d.drop_last()) * 10 + (d.last() as int - '0' as int));
        assert(digits_value(Seq::<char>::empty()) == 0);
    } else {
        lemma_decimal_digits(n / 10);
        let p = crate::text::decimal(n / 10);
        let d = crate::text::decimal(n);
        let m = (n % 10) as int;
        assert(d == p.push(dc[m]));
        assert(d.drop_last() =~= p);
        assert(dc[m] as int - '0' as int == m) by {
            if m == 0 {} else if m == 1 {} else if m == 2 {} else if m == 3 {} else if m == 4 {}
            else if m == 5 {} else if m == 6 {} else if m == 7 {} else if m == 8 {} else {}
        }
        assert forall|i: int| 0 <= i < d.len() implies '0' <= #[trigger] d[i] <= '9' by {
            if i < p.len() {
                assert(d[i] == p[i]);
            }
        }
        assert(d.last() == dc[m]);
        assert(digits_value(d) == digits_value(p) * 10 + m);
        assert((n / 10) * 10 + m == n);
    }
}

/// A cursor handed out for a page reads back as the same offset.
pub proof fn law_cursor_round_trip(offset: i64)
    requires
        offset >= 0,
    ensures
        parsed_i64(trim(crate::text::signed_decimal(offset as int))) == Some(offset as int),
{
    let d = crate::text::signed_decimal(offset as int);
    lemma_decimal_digits(offset as nat);
    assert(d == crate::text::decimal(offset as nat));
    assert('0' <= d[0] <= '9');
    assert('0' <= d[d.len() - 1] <= '9');
    assert(crate::text::lead(d, true, Seq::empty()) == 0);
    assert(d.skip(0) =~= d);
    assert(crate::text::trail(d, true, Seq::empty()) == 0);
    assert(d.take(d.len() as int) =~= d);
    assert(trim(d) == d);
    assert(unsigned_part(d) == (false, d));
}

} // verus!
