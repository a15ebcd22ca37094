//! Ranking suggestions for a typed query.

use vstd::prelude::*;
use crate::text::{
    chars_of, is_alphabetic, is_uppercase, same, starts_with, starts_with_exec, string_of,
    to_lowercase, trim, trim_str, unicode_alphabetic, unicode_lower, unicode_uppercase,
};
use crate::query_match::{
    fuzzy_threshold, lev, levenshtein_distance, match_form, normalize_for_match, threshold_for,
};

verus! {

/// A suggestion offered for a query.
#[derive(Debug)]
pub struct DBSuggestion {
    pub suggestion_type: String,
    pub entry_id: i64,
    pub query_text: String,
    pub preview: String,
    pub analysis_markdown: String,
    pub source: String,
}

/// A suggestion with the tiers it is ordered by.
#[derive(Debug)]
pub struct RankedSuggestion {
    pub suggestion: DBSuggestion,
    pub normalized_query_text: String,
    pub match_tier: u8,
    pub source_tier: u8,
    pub relation_tier: u8,
    pub case_tier: u8,
    pub distance: usize,
}

// ---------------------------------------------------------------------------
// Case agreement
// ---------------------------------------------------------------------------

/// The first letter of a text from index `i` on.
pub open spec fn first_alpha_from(v: Seq<char>, i: int) -> Option<char>
    decreases v.len() - i,
{
    if i < 0 || i >= v.len() {
        None
    } else if unicode_alphabetic(v[i]) {
        Some(v[i])
    } else {
        first_alpha_from(v, i + 1)
    }
}

/// Whether both texts have a first letter and both are upper case or both
/// are not.
pub open spec fn same_initial_case_of(q: Seq<char>, m: Seq<char>) -> bool {
    match (first_alpha_from(q, 0), first_alpha_from(m, 0)) {
        (Some(a), Some(b)) => unicode_uppercase(a) == unicode_uppercase(b),
        _ => false,
    }
}

/// 0 for the exact text, 1 for the same case of the first letter, 2 for the
/// same text ignoring case, 3 otherwise.
pub open spec fn case_tier_of(q: Seq<char>, m: Seq<char>) -> u8 {
    if m == q {
        0
    } else if same_initial_case_of(q, m) {
        1
    } else if unicode_lower(trim(m)) == unicode_lower(trim(q)) {
        2
    } else {
        3
    }
}

fn first_alphabetic_char(v: &Vec<char>) -> (r: Option<char>)
    ensures
        r == first_alpha_from(v@, 0),
{
    let mut i: usize = 0;
    while i < v.len()
        invariant
            0 <= i <= v@.len(),
            first_alpha_from(v@, 0) == first_alpha_from(v@, i as int),
        decreases v@.len() - i,
    {
        if is_alphabetic(v[i]) {
            return Some(v[i]);
        }
        i = i + 1;
    }
    None
}

fn same_initial_case(q: &Vec<char>, m: &Vec<char>) -> (r: bool)
    ensures
        r == same_initial_case_of(q@, m@),
{
    match (first_alphabetic_char(q), first_alphabetic_char(m)) {
        (Some(a), Some(b)) => is_uppercase(a) == is_uppercase(b),
        _ => false,
    }
}

fn lowered_trim(v: &str) -> (r: Vec<char>)
    ensures
        r@ == unicode_lower(trim(v@)),
{
    let t = trim_str(v);
    let l = to_lowercase(t.as_str());
    chars_of(l.as_str())
}

pub fn case_match_tier(query: &str, match_text: &str) -> (r: u8)
    ensures
        r == case_tier_of(query@, match_text@),
{
    let q = chars_of(query);
    let m = chars_of(match_text);
    if same(&m, &q) {
        return 0;
    }
    if same_initial_case(&q, &m) {
        return 1;
    }
    if same(&lowered_trim(match_text), &lowered_trim(query)) {
        return 2;
    }
    3
}

// ---------------------------------------------------------------------------
// Ranking one candidate
// ---------------------------------------------------------------------------

/// How much a source and suggestion kind is preferred, 0 first.
pub open spec fn source_tier_of(source: Seq<char>, kind: Seq<char>) -> u8 {
    if source == "知识库"@ && kind == "knowledge_prefix"@ {
        0
    } else if source == "知识库"@ && kind == "knowledge_alias_prefix"@ {
        1
    } else if source == "词典"@ && kind == "dictionary_lexeme"@ {
        2
    } else if source == "词典"@ && kind == "dictionary_prefix"@ {
        2
    } else if source == "知识库"@ && kind == "knowledge_fuzzy"@ {
        3
    } else if source == "知识库"@ && kind == "knowledge_alias_fuzzy"@ {
        4
    } else if source == "词典"@ && kind == "dictionary_fuzzy"@ {
        5
    } else if source == "知识库"@ {
        6
    } else {
        7
    }
}

/// Where each source and kind of suggestion stands: a knowledge-base prefix
/// hit first (tier 0), then a knowledge-base alias prefix hit (tier 1), then
/// dictionary lexeme and prefix hits (tier 2, equal), then knowledge-base
/// fuzzy hits, alias fuzzy hits and dictionary fuzzy hits, in this order.
pub proof fn law_source_tier_order()
    ensures
        source_tier_of("知识库"@, "knowledge_prefix"@) == 0,
        source_tier_of("知识库"@, "knowledge_alias_prefix"@) == 1,
        source_tier_of("知识库"@, "knowledge_prefix"@) < source_tier_of("知识库"@, "knowledge_alias_prefix"@),
        source_tier_of("知识库"@, "knowledge_alias_prefix"@) < source_tier_of("词典"@, "dictionary_lexeme"@),
        source_tier_of("词典"@, "dictionary_lexeme"@) == source_tier_of("词典"@, "dictionary_prefix"@),
        source_tier_of("词典"@, "dictionary_prefix"@) < source_tier_of("知识库"@, "knowledge_fuzzy"@),
        source_tier_of("知识库"@, "knowledge_fuzzy"@) < source_tier_of("知识库"@, "knowledge_alias_fuzzy"@),
        source_tier_of("知识库"@, "knowledge_alias_fuzzy"@) < source_tier_of("词典"@, "dictionary_fuzzy"@),
{
    reveal_strlit("知识库");
    reveal_strlit("词典");
    reveal_strlit("knowledge_prefix");
    reveal_strlit("knowledge_alias_prefix");
    reveal_strlit("knowledge_fuzzy");
    reveal_strlit("knowledge_alias_fuzzy");
    reveal_strlit("dictionary_lexeme");
    reveal_strlit("dictionary_prefix");
    reveal_strlit("dictionary_fuzzy");
    assert("知识库"@ != "词典"@) by {
        assert("知识库"@.len() != "词典"@.len());
    }
    assert("knowledge_prefix"@ != "knowledge_alias_prefix"@) by {
        assert("knowledge_prefix"@.len() != "knowledge_alias_prefix"@.len());
    }
    assert("knowledge_fuzzy"@ != "knowledge_prefix"@) by {
        assert("knowledge_fuzzy"@.len() != "knowledge_prefix"@.len());
    }
    assert("knowledge_fuzzy"@ != "knowledge_alias_prefix"@) by {
        assert("knowledge_fuzzy"@.len() != "knowledge_alias_prefix"@.len());
    }
    assert("knowledge_alias_fuzzy"@ != "knowledge_prefix"@) by {
        assert("knowledge_alias_fuzzy"@.len() != "knowledge_prefix"@.len());
    }
    assert("knowledge_alias_fuzzy"@ != "knowledge_alias_prefix"@) by {
        assert("knowledge_alias_fuzzy"@.len() != "knowledge_alias_prefix"@.len());
    }
    assert("knowledge_alias_fuzzy"@ != "knowledge_fuzzy"@) by {
        assert("knowledge_alias_fuzzy"@.len() != "knowledge_fuzzy"@.len());
    }
    assert("dictionary_prefix"@ != "dictionary_lexeme"@) by {
        assert("dictionary_prefix"@[11] != "dictionary_lexeme"@[11]);
    }
    assert("dictionary_fuzzy"@ != "dictionary_lexeme"@) by {
        assert("dictionary_fuzzy"@.len() != "dictionary_lexeme"@.len());
    }
    assert("dictionary_fuzzy"@ != "dictionary_prefix"@) by {
        assert("dictionary_fuzzy"@.len() != "dictionary_prefix"@.len());
    }
}

/// Two candidates that match equally well and agree in case are ordered by
/// source: a knowledge-base alias prefix hit comes before any dictionary
/// lexeme, dictionary prefix or knowledge-base fuzzy hit, and after a
/// knowledge-base prefix hit.
pub proof fn law_alias_prefix_ranks_between(a: RankedSuggestion, b: RankedSuggestion)
    requires
        a.match_tier == b.match_tier,
        a.case_tier == b.case_tier,
        a.source_tier == source_tier_of("知识库"@, "knowledge_alias_prefix"@),
    ensures
        b.source_tier == source_tier_of("词典"@, "dictionary_lexeme"@) || b.source_tier == source_tier_of(
            "词典"@,
            "dictionary_prefix"@,
        ) || b.source_tier == source_tier_of("知识库"@, "knowledge_fuzzy"@) ==> ranked_after(b, a)
            && !ranked_after(a, b),
        b.source_tier == source_tier_of("知识库"@, "knowledge_prefix"@) ==> ranked_after(a, b)
            && !ranked_after(b, a),
{
    law_source_tier_order();
}

fn is_text(v: &Vec<char>, lit: &str) -> (r: bool)
    ensures
        r == (v@ == lit@),
{
    same(v, &chars_of(lit))
}

fn source_tier(source: &str, kind: &str) -> (r: u8)
    ensures
        r == source_tier_of(source@, kind@),
{
    let s = chars_of(source);
    let k = chars_of(kind);
    let kb = is_text(&s, "知识库");
    let dict = is_text(&s, "词典");
    if kb && is_text(&k, "knowledge_prefix") {
        0
    } else if kb && is_text(&k, "knowledge_alias_prefix") {
        1
    } else if dict && is_text(&k, "dictionary_lexeme") {
        2
    } else if dict && is_text(&k, "dictionary_prefix") {
        2
    } else if kb && is_text(&k, "knowledge_fuzzy") {
        3
    } else if kb && is_text(&k, "knowledge_alias_fuzzy") {
        4
    } else if dict && is_text(&k, "dictionary_fuzzy") {
        5
    } else if kb {
        6
    } else {
        7
    }
}

/// How a candidate matches: 0 when its lowercased text starts with the
/// query's, 1 when its folded form starts with the query's, 2 when the
/// folded forms are close, and `None` otherwise.
pub open spec fn match_tier_of(query: Seq<char>, match_text: Seq<char>) -> Option<u8> {
    let nq = match_form(query);
    let nm = match_form(match_text);
    if starts_with(unicode_lower(trim(match_text)), unicode_lower(trim(query))) {
        Some(0u8)
    } else if starts_with(nm, nq) {
        Some(1u8)
    } else if lev(nq, nm) <= threshold_for(nq.len()) {
        Some(2u8)
    } else {
        None
    }
}

/// The ranked candidate, or `None` when either folded form is empty or the
/// candidate does not match the query.
pub fn rank_candidate(
    query: &str,
    match_text: &str,
    source: &str,
    suggestion: DBSuggestion,
    relation_tier: u8,
) -> (r: Option<RankedSuggestion>)
    ensures
        (match_form(query@).len() == 0 || match_form(match_text@).len() == 0 || match_tier_of(
            query@,
            match_text@,
        ) is None) ==> r is None,
        (match_form(query@).len() >= usize::MAX || match_form(match_text@).len() >= usize::MAX)
            ==> r is None,
        match_form(query@).len() > 0 && match_form(match_text@).len() > 0 && match_tier_of(
            query@,
            match_text@,
        ) is Some && match_form(query@).len() < usize::MAX && match_form(match_text@).len()
            < usize::MAX ==> (r matches Some(x) && x.suggestion == suggestion
            && x.normalized_query_text@ == match_form(suggestion.query_text@) && Some(x.match_tier)
            == match_tier_of(query@, match_text@) && x.source_tier == source_tier_of(
            source@,
            suggestion.suggestion_type@,
        ) && x.relation_tier == relation_tier && x.case_tier == case_tier_of(query@, match_text@)
            && x.distance == lev(match_form(query@), match_form(match_text@))),
{
    let nq = chars_of(normalize_for_match(query).as_str());
    let nm = chars_of(normalize_for_match(match_text).as_str());
    if nq.len() == 0 || nm.len() == 0 {
        return None;
    }
    if nq.len() == usize::MAX || nm.len() == usize::MAX {
        return None;
    }
    let ql = lowered_trim(query);
    let ml = lowered_trim(match_text);
    let distance = levenshtein_distance(&nq, &nm);
    let threshold = fuzzy_threshold(nq.len());
    let match_tier: u8 = if starts_with_exec(&ml, &ql) {
        0
    } else if starts_with_exec(&nm, &nq) {
        1
    } else if distance <= threshold {
        2
    } else {
        return None;
    };
    let source_tier = source_tier(source, suggestion.suggestion_type.as_str());
    let case_tier = case_match_tier(query, match_text);
    let normalized_query_text = normalize_for_match(suggestion.query_text.as_str());
    Some(
        RankedSuggestion {
            suggestion,
            normalized_query_text,
            match_tier,
            source_tier,
            relation_tier,
            case_tier,
            distance,
        },
    )
}

/// How close a lexeme suggestion is related to the query: headword, then
/// form-of, form, alias, anything else.
pub fn lexeme_relation_tier(matched_source: &str) -> (r: u8)
    ensures
        r == (if matched_source@ == "headword"@ {
            0u8
        } else if matched_source@ == "form_of"@ {
            1u8
        } else if matched_source@ == "form"@ {
            2u8
        } else if matched_source@ == "alias"@ {
            3u8
        } else {
            4u8
        }),
{
    let s = chars_of(matched_source);
    if is_text(&s, "headword") {
        0
    } else if is_text(&s, "form_of") {
        1
    } else if is_text(&s, "form") {
        2
    } else if is_text(&s, "alias") {
        3
    } else {
        4
    }
}

// ---------------------------------------------------------------------------
// Ordering and limiting
// ---------------------------------------------------------------------------

/// Lexicographic order of texts by character code, which is the order of
/// their UTF-8 bytes.
pub open spec fn text_lt(a: Seq<char>, b: Seq<char>) -> bool
    decreases a.len(),
{
    if a.len() == 0 {
        b.len() > 0
    } else if b.len() == 0 {
        false
    } else if a[0] != b[0] {
        a[0] < b[0]
    } else {
        text_lt(a.drop_first(), b.drop_first())
    }
}

/// Whether `a` is ranked strictly after `b`: by match tier, case tier,
/// source tier, relation tier, distance, folded text and text, in this
/// order.
pub open spec fn ranked_after(a: RankedSuggestion, b: RankedSuggestion) -> bool {
    if a.match_tier != b.match_tier {
        a.match_tier > b.match_tier
    } else if a.case_tier != b.case_tier {
        a.case_tier > b.case_tier
    } else if a.source_tier != b.source_tier {
        a.source_tier > b.source_tier
    } else if a.relation_tier != b.relation_tier {
        a.relation_tier > b.relation_tier
    } else if a.distance != b.distance {
        a.distance > b.distance
    } else if a.normalized_query_text@ != b.normalized_query_text@ {
        text_lt(b.normalized_query_text@, a.normalized_query_text@)
    } else {
        text_lt(b.suggestion.query_text@, a.suggestion.query_text@)
    }
}

/// `x` placed into a ranked sequence after every element not ranked after it.
pub open spec fn insert_ranked(s: Seq<RankedSuggestion>, x: RankedSuggestion) -> Seq<RankedSuggestion>
    decreases s.len(),
{
    if s.len() == 0 {
        seq![x]
    } else if ranked_after(s.last(), x) {
        insert_ranked(s.drop_last(), x).push(s.last())
    } else {
        s.push(x)
    }
}

/// The suggestions in rank order; those of equal rank keep their order.
pub open spec fn rank_order(s: Seq<RankedSuggestion>) -> Seq<RankedSuggestion>
    decreases s.len(),
{
    if s.len() == 0 {
        s
    } else {
        insert_ranked(rank_order(s.drop_last()), s.last())
    }
}

/// The first suggestion of each text, in order.
pub open spec fn first_per_text(s: Seq<RankedSuggestion>) -> Seq<RankedSuggestion>
    decreases s.len(),
{
    if s.len() == 0 {
        s
    } else {
        let r = first_per_text(s.drop_last());
        if r.map_values(|x: RankedSuggestion| x.suggestion.query_text@).contains(s.last().suggestion.query_text@) {
            r
        } else {
            r.push(s.last())
        }
    }
}

proof fn lemma_first_per_text_distinct(s: Seq<RankedSuggestion>)
    ensures
        forall|i: int, j: int|
            0 <= i < j < first_per_text(s).len() ==> first_per_text(s)[i].suggestion.query_text@
                != first_per_text(s)[j].suggestion.query_text@,
    decreases s.len(),
{
    if s.len() > 0 {
        let r = first_per_text(s.drop_last());
        lemma_first_per_text_distinct(s.drop_last());
        let texts = r.map_values(|x: RankedSuggestion| x.suggestion.query_text@);
        if !texts.contains(s.last().suggestion.query_text@) {
            assert forall|i: int| 0 <= i < r.len() implies r[i].suggestion.query_text@
                != s.last().suggestion.query_text@ by {
                assert(texts[i] == r[i].suggestion.query_text@);
            }
        }
    }
}

/// The suggestions answered never repeat a text and never exceed the limit:
/// whatever was ranked, at most `n` come out, each with a text of its own.
pub proof fn law_suggestions_distinct_and_bounded(s: Seq<RankedSuggestion>, n: nat)
    ensures
        at_most(first_per_text(s), n).len() <= n,
        forall|i: int, j: int|
            0 <= i < j < at_most(first_per_text(s), n).len() ==> at_most(first_per_text(s), n)[i].suggestion.query_text@
                != at_most(first_per_text(s), n)[j].suggestion.query_text@,
{
    lemma_first_per_text_distinct(s);
}

proof fn lemma_insert_ranked_keeps(
    s: Seq<RankedSuggestion>,
    x: RankedSuggestion,
    p: spec_fn(RankedSuggestion) -> bool,
)
    requires
        forall|i: int| 0 <= i < s.len() ==> p(#[trigger] s[i]),
        p(x),
    ensures
        forall|i: int| 0 <= i < insert_ranked(s, x).len() ==> p(#[trigger] insert_ranked(s, x)[i]),
    decreases s.len(),
{
    let r = insert_ranked(s, x);
    if s.len() > 0 && ranked_after(s.last(), x) {
        let t = s.drop_last();
        assert forall|i: int| 0 <= i < t.len() implies p(#[trigger] t[i]) by {
            assert(t[i] == s[i]);
        }
        lemma_insert_ranked_keeps(t, x, p);
        assert(p(s[s.len() - 1]));
        let u = insert_ranked(t, x);
        assert(r == u.push(s.last()));
        assert forall|i: int| 0 <= i < r.len() implies p(#[trigger] r[i]) by {
            if i < u.len() {
                assert(r[i] == u[i]);
            }
        }
    } else if s.len() > 0 {
        assert(r == s.push(x));
        assert forall|i: int| 0 <= i < r.len() implies p(#[trigger] r[i]) by {
            if i < s.len() {
                assert(r[i] == s[i]);
            }
        }
    } else {
        assert(r == seq![x]);
        assert forall|i: int| 0 <= i < r.len() implies p(#[trigger] r[i]) by {
            assert(r[i] == x);
        }
    }
}

proof fn lemma_rank_order_keeps(s: Seq<RankedSuggestion>, p: spec_fn(RankedSuggestion) -> bool)
    requires
        forall|i: int| 0 <= i < s.len() ==> p(#[trigger] s[i]),
    ensures
        forall|i: int| 0 <= i < rank_order(s).len() ==> p(#[trigger] rank_order(s)[i]),
    decreases s.len(),
{
    if s.len() > 0 {
        let t = s.drop_last();
        assert forall|i: int| 0 <= i < t.len() implies p(#[trigger] t[i]) by {
            assert(t[i] == s[i]);
        }
        lemma_rank_order_keeps(t, p);
        assert(p(s[s.len() - 1]));
        lemma_insert_ranked_keeps(rank_order(t), s.last(), p);
    }
}

proof fn lemma_first_per_text_keeps(s: Seq<RankedSuggestion>, p: spec_fn(RankedSuggestion) -> bool)
    requires
        forall|i: int| 0 <= i < s.len() ==> p(#[trigger] s[i]),
    ensures
        forall|i: int| 0 <= i < first_per_text(s).len() ==> p(#[trigger] first_per_text(s)[i]),
    decreases s.len(),
{
    if s.len() > 0 {
        let t = s.drop_last();
        assert forall|i: int| 0 <= i < t.len() implies p(#[trigger] t[i]) by {
            assert(t[i] == s[i]);
        }
        lemma_first_per_text_keeps(t, p);
        assert(p(s[s.len() - 1]));
        let u = first_per_text(t);
        let r = first_per_text(s);
        assert forall|i: int| 0 <= i < r.len() implies p(#[trigger] r[i]) by {
            if i < u.len() {
                assert(r[i] == u[i]);
            } else {
                assert(r[i] == s.last());
            }
        }
    }
}

/// What holds of every ranked suggestion holds of every suggestion
/// answered: ordering, dropping repeated texts and limiting add none.
pub(crate) proof fn lemma_answer_keeps(
    s: Seq<RankedSuggestion>,
    n: nat,
    p: spec_fn(RankedSuggestion) -> bool,
)
    requires
        forall|i: int| 0 <= i < s.len() ==> p(#[trigger] s[i]),
    ensures
        forall|i: int|
            0 <= i < at_most(first_per_text(rank_order(s)), n).len() ==> p(
                #[trigger] at_most(first_per_text(rank_order(s)), n)[i],
            ),
{
    lemma_rank_order_keeps(s, p);
    lemma_first_per_text_keeps(rank_order(s), p);
    let f = first_per_text(rank_order(s));
    assert forall|i: int| 0 <= i < at_most(f, n).len() implies p(#[trigger] at_most(f, n)[i]) by {
        assert(at_most(f, n)[i] == f[i]);
    }
}

/// At most the first `n` elements.
pub open spec fn at_most<A>(s: Seq<A>, n: nat) -> Seq<A> {
    if s.len() <= n {
        s
    } else {
        s.take(n as int)
    }
}

pub(crate) fn text_less(a: &Vec<char>, b: &Vec<char>) -> (r: bool)
    ensures
        r == text_lt(a@, b@),
{
    let mut i: usize = 0;
    assert(a@.skip(0) =~= a@);
    assert(b@.skip(0) =~= b@);
    while i < a.len() && i < b.len() && a[i] == b[i]
        invariant
            0 <= i <= a@.len(),
            i <= b@.len(),
            text_lt(a@, b@) == text_lt(a@.skip(i as int), b@.skip(i as int)),
        decreases a@.len() - i,
    {
        assert(a@.skip(i as int).drop_first() =~= a@.skip(i + 1));
        assert(b@.skip(i as int).drop_first() =~= b@.skip(i + 1));
        i = i + 1;
    }
    if i == a.len() {
        i < b.len()
    } else if i == b.len() {
        false
    } else {
        assert(a@.skip(i as int)[0] == a@[i as int]);
        assert(b@.skip(i as int)[0] == b@[i as int]);
        a[i] < b[i]
    }
}

fn is_ranked_after(a: &RankedSuggestion, b: &RankedSuggestion) -> (r: bool)
    ensures
        r == ranked_after(*a, *b),
{
    if a.match_tier != b.match_tier {
        a.match_tier > b.match_tier
    } else if a.case_tier != b.case_tier {
        a.case_tier > b.case_tier
    } else if a.source_tier != b.source_tier {
        a.source_tier > b.source_tier
    } else if a.relation_tier != b.relation_tier {
        a.relation_tier > b.relation_tier
    } else if a.distance != b.distance {
        a.distance > b.distance
    } else {
        let an = chars_of(a.normalized_query_text.as_str());
        let bn = chars_of(b.normalized_query_text.as_str());
        if !same(&an, &bn) {
            text_less(&bn, &an)
        } else {
            let aq = chars_of(a.suggestion.query_text.as_str());
            let bq = chars_of(b.suggestion.query_text.as_str());
            text_less(&bq, &aq)
        }
    }
}

proof fn lemma_insert_at(s: Seq<RankedSuggestion>, x: RankedSuggestion, p: int)
    requires
        0 <= p <= s.len(),
        forall|k: int| p <= k < s.len() ==> ranked_after(#[trigger] s[k], x),
        p == 0 || !ranked_after(s[p - 1], x),
    ensures
        insert_ranked(s, x) == s.take(p).push(x) + s.skip(p),
    decreases s.len(),
{
    if s.len() == 0 {
        assert(s.take(p).push(x) + s.skip(p) =~= seq![x]);
    } else if p == s.len() {
        assert(s.take(p).push(x) + s.skip(p) =~= s.push(x));
    } else {
        let t = s.drop_last();
        assert(ranked_after(s[s.len() - 1], x));
        assert forall|k: int| p <= k < t.len() implies ranked_after(#[trigger] t[k], x) by {
            assert(t[k] == s[k]);
        }
        if p > 0 {
            assert(t[p - 1] == s[p - 1]);
        }
        lemma_insert_at(t, x, p);
        assert(s.take(p).push(x) + s.skip(p) =~= (t.take(p).push(x) + t.skip(p)).push(s.last()));
    }
}

/// The suggestions ranked best first, one per text, at most `limit` of them.
pub fn sort_and_limit(ranked: Vec<RankedSuggestion>, limit: usize) -> (r: Vec<DBSuggestion>)
    ensures
        r@ == at_most(first_per_text(rank_order(ranked@)), limit as nat).map_values(
            |x: RankedSuggestion| x.suggestion,
        ),
{
    let ghost input = ranked@;
    let mut rest = ranked;
    let total = rest.len();
    let mut sorted: Vec<RankedSuggestion> = Vec::new();
    let mut k: usize = 0;
    assert(input.skip(0) =~= input);
    while rest.len() > 0
        invariant
            k + rest@.len() == input.len(),
            total == input.len(),
            rest@ == input.skip(k as int),
            sorted@ == rank_order(input.take(k as int)),
        decreases rest@.len(),
    {
        let x = rest.remove(0);
        assert(input.take(k + 1).drop_last() =~= input.take(k as int));
        assert(input.take(k + 1).last() == x);
        assert(rest@ =~= input.skip(k + 1));
        let mut p: usize = sorted.len();
        while p > 0 && is_ranked_after(&sorted[p - 1], &x)
            invariant
                0 <= p <= sorted@.len(),
                forall|j: int| p <= j < sorted@.len() ==> ranked_after(#[trigger] sorted@[j], x),
            decreases p,
        {
            p = p - 1;
        }
        proof {
            lemma_insert_at(sorted@, x, p as int);
        }
        let ghost before = sorted@;
        sorted.insert(p, x);
        assert(sorted@ =~= before.take(p as int).push(x) + before.skip(p as int));
        k = k + 1;
    }
    assert(input.take(k as int) =~= input);
    let ghost ordered = sorted@;
    let mut kept: Vec<RankedSuggestion> = Vec::new();
    let mut seen: Vec<Vec<char>> = Vec::new();
    let mut d: usize = 0;
    let count = sorted.len();
    assert(ordered.skip(0) =~= ordered);
    while sorted.len() > 0
        invariant
            ordered == rank_order(input),
            count == ordered.len(),
            d + sorted@.len() == ordered.len(),
            sorted@ == ordered.skip(d as int),
            kept@ == first_per_text(ordered.take(d as int)),
            crate::text::views(seen@) =~= kept@.map_values(|x: RankedSuggestion| x.suggestion.query_text@),
        decreases sorted@.len(),
    {
        let x = sorted.remove(0);
        assert(ordered.take(d + 1).drop_last() =~= ordered.take(d as int));
        assert(ordered.take(d + 1).last() == x);
        assert(sorted@ =~= ordered.skip(d + 1));
        let t = chars_of(x.suggestion.query_text.as_str());
        let mut found = false;
        let mut j: usize = 0;
        while j < seen.len()
            invariant
                0 <= j <= seen@.len(),
                found <==> exists|m: int| 0 <= m < j && crate::text::views(seen@)[m] == t@,
            decreases seen@.len() - j,
        {
            assert(crate::text::views(seen@)[j as int] == seen@[j as int]@);
            if same(&seen[j], &t) {
                found = true;
            }
            j = j + 1;
        }
        let ghost names = kept@.map_values(|x: RankedSuggestion| x.suggestion.query_text@);
        assert(found <==> names.contains(t@)) by {
            if names.contains(t@) {
                let m = choose|m: int| 0 <= m < names.len() && names[m] == t@;
                assert(crate::text::views(seen@)[m] == t@);
            }
        }
        if !found {
            let ghost kb = kept@;
            let ghost tv = t@;
            kept.push(x);
            seen.push(t);
            assert(kept@ =~= kb.push(ordered[d as int]));
            assert(crate::text::views(seen@) =~= kb.map_values(|x: RankedSuggestion| x.suggestion.query_text@).push(tv));
            assert(kept@.map_values(|x: RankedSuggestion| x.suggestion.query_text@) =~= kb.map_values(
                |x: RankedSuggestion| x.suggestion.query_text@,
            ).push(tv));
        }
        d = d + 1;
    }
    assert(ordered.take(d as int) =~= ordered);
    let ghost all = kept@;
    let mut out: Vec<DBSuggestion> = Vec::new();
    let mut n: usize = 0;
    while kept.len() > 0 && n < limit
        invariant
            n <= limit,
            n + kept@.len() == all.len(),
            kept@ == all.skip(n as int),
            out@ == all.take(n as int).map_values(|x: RankedSuggestion| x.suggestion),
        decreases kept@.len(),
    {
        let x = kept.remove(0);
        assert(all.take(n + 1) =~= all.take(n as int).push(x));
        assert(kept@ =~= all.skip(n + 1));
        out.push(x.suggestion);
        assert(out@ =~= all.take(n + 1).map_values(|x: RankedSuggestion| x.suggestion));
        n = n + 1;
    }
    assert(at_most(all, limit as nat) =~= all.take(n as int));
    out
}

} // verus!
