//! Cleaning a structured document, building one from a phrase preview, and
//! filling its gaps from the seed read off the markdown.

use vstd::prelude::*;
use crate::text::{
    chars_of, is_blank, is_ws, join, join_exec, lemma_normalized_words_idempotent, lemma_trim_idempotent, owned,
    same, str_views, string_of, to_lowercase, trim, trim_start, trim_str, unicode_lower, views, words, words_exec,
};
use crate::models::{
    example_views, insight_views, item_views, meaning_views, module_views, row_views, DeepInsightV,
    DocumentV, document_is_default, ExampleV, PhraseUsagePreview, GrammarRowV, MeaningV, StructuredAnalysisDocument, StructuredDeepInsight,
    StructuredExample, StructuredGrammarRow, StructuredMeaning, StructuredUsageModule,
    StructuredWordNetwork, StructuredWordNetworkItem, UsageModuleV, WordNetworkItemV, WordNetworkV,
};

verus! {

// ---------------------------------------------------------------------------
// Keys that tell entries apart
// ---------------------------------------------------------------------------

/// A case-insensitive key: the text lowercased.
pub open spec fn lower_key(s: Seq<char>) -> Seq<char> {
    unicode_lower(s)
}

pub open spec fn module_key(m: UsageModuleV) -> Seq<char> {
    lower_key(trim(m.title))
}

pub open spec fn insight_key(d: DeepInsightV) -> Seq<char> {
    lower_key(trim(d.title))
}

/// `acc` followed by each seed entry whose key is non-empty and not yet
/// among the keys of what came before it.
pub open spec fn merge_new<A>(acc: Seq<A>, seed: Seq<A>, key: spec_fn(A) -> Seq<char>) -> Seq<A>
    decreases seed.len(),
{
    if seed.len() == 0 {
        acc
    } else {
        let m = merge_new(acc, seed.drop_last(), key);
        let k = key(seed.last());
        if k.len() > 0 && !m.map_values(key).contains(k) {
            m.push(seed.last())
        } else {
            m
        }
    }
}

/// The trimmed key of a string.
fn key_of(s: &str) -> (r: Vec<char>)
    ensures
        r@ == lower_key(trim(s@)),
{
    let t = trim_str(s);
    let l = to_lowercase(t.as_str());
    chars_of(l.as_str())
}

/// Whether a key is among the keys.
fn has_key(keys: &Vec<Vec<char>>, k: &Vec<char>) -> (r: bool)
    ensures
        r == views(keys@).contains(k@),
{
    let mut i: usize = 0;
    while i < keys.len()
        invariant
            0 <= i <= keys@.len(),
            forall|j: int| 0 <= j < i ==> views(keys@)[j] != k@,
        decreases keys@.len() - i,
    {
        if same(&keys[i], k) {
            assert(views(keys@)[i as int] == k@);
            return true;
        }
        i = i + 1;
    }
    false
}

fn merge_usage_modules(values: Vec<StructuredUsageModule>, seed: &Vec<StructuredUsageModule>) -> (r:
    Vec<StructuredUsageModule>)
    ensures
        module_views(r@) == merge_new(module_views(values@), module_views(seed@), |m: UsageModuleV| module_key(m)),
{
    let ghost sv = module_views(seed@);
    let ghost v0 = module_views(values@);
    let mut out = values;
    let mut keys: Vec<Vec<char>> = Vec::new();
    let mut i: usize = 0;
    while i < out.len()
        invariant
            0 <= i <= out@.len(),
            module_views(out@) == v0,
            views(keys@) =~= v0.take(i as int).map_values(|m: UsageModuleV| module_key(m)),
        decreases out@.len() - i,
    {
        let k = key_of(out[i].title.as_str());
        keys.push(k);
        assert(v0.take(i + 1).map_values(|m: UsageModuleV| module_key(m)) =~= v0.take(i as int).map_values(
            |m: UsageModuleV| module_key(m),
        ).push(module_key(v0[i as int])));
        i = i + 1;
    }
    assert(v0.take(v0.len() as int) =~= v0);
    let mut j: usize = 0;
    assert(merge_new(v0, sv.take(0), |m: UsageModuleV| module_key(m)) == v0);
    while j < seed.len()
        invariant
            0 <= j <= seed@.len(),
            sv == module_views(seed@),
            module_views(out@) == merge_new(v0, sv.take(j as int), |m: UsageModuleV| module_key(m)),
            views(keys@) =~= module_views(out@).map_values(|m: UsageModuleV| module_key(m)),
        decreases seed@.len() - j,
    {
        assert(sv.take(j + 1).drop_last() =~= sv.take(j as int));
        assert(sv.take(j + 1).last() == seed@[j as int]@);
        let k = key_of(seed[j].title.as_str());
        if k.len() > 0 && !has_key(&keys, &k) {
            let ghost before = module_views(out@);
            let m = seed[j].copy();
            out.push(m);
            keys.push(k);
            assert(module_views(out@) =~= before.push(sv[j as int]));
            assert(module_views(out@).map_values(|m: UsageModuleV| module_key(m)) =~= before.map_values(
                |m: UsageModuleV| module_key(m),
            ).push(module_key(sv[j as int])));
        }
        j = j + 1;
    }
    assert(sv.take(sv.len() as int) =~= sv);
    out
}

fn merge_deep_insights(values: Vec<StructuredDeepInsight>, seed: &Vec<StructuredDeepInsight>) -> (r:
    Vec<StructuredDeepInsight>)
    ensures
        insight_views(r@) == merge_new(insight_views(values@), insight_views(seed@), |m: DeepInsightV| insight_key(m)),
{
    let ghost sv = insight_views(seed@);
    let ghost v0 = insight_views(values@);
    let mut out = values;
    let mut keys: Vec<Vec<char>> = Vec::new();
    let mut i: usize = 0;
    while i < out.len()
        invariant
            0 <= i <= out@.len(),
            insight_views(out@) == v0,
            views(keys@) =~= v0.take(i as int).map_values(|m: DeepInsightV| insight_key(m)),
        decreases out@.len() - i,
    {
        let k = key_of(out[i].title.as_str());
        keys.push(k);
        assert(v0.take(i + 1).map_values(|m: DeepInsightV| insight_key(m)) =~= v0.take(i as int).map_values(
            |m: DeepInsightV| insight_key(m),
        ).push(insight_key(v0[i as int])));
        i = i + 1;
    }
    assert(v0.take(v0.len() as int) =~= v0);
    let mut j: usize = 0;
    assert(merge_new(v0, sv.take(0), |m: DeepInsightV| insight_key(m)) == v0);
    while j < seed.len()
        invariant
            0 <= j <= seed@.len(),
            sv == insight_views(seed@),
            insight_views(out@) == merge_new(v0, sv.take(j as int), |m: DeepInsightV| insight_key(m)),
            views(keys@) =~= insight_views(out@).map_values(|m: DeepInsightV| insight_key(m)),
        decreases seed@.len() - j,
    {
        assert(sv.take(j + 1).drop_last() =~= sv.take(j as int));
        assert(sv.take(j + 1).last() == seed@[j as int]@);
        let k = key_of(seed[j].title.as_str());
        if k.len() > 0 && !has_key(&keys, &k) {
            let ghost before = insight_views(out@);
            let m = seed[j].copy();
            out.push(m);
            keys.push(k);
            assert(insight_views(out@) =~= before.push(sv[j as int]));
            assert(insight_views(out@).map_values(|m: DeepInsightV| insight_key(m)) =~= before.map_values(
                |m: DeepInsightV| insight_key(m),
            ).push(insight_key(sv[j as int])));
        }
        j = j + 1;
    }
    assert(sv.take(sv.len() as int) =~= sv);
    out
}


// ---------------------------------------------------------------------------
// Word-network items and collocations
// ---------------------------------------------------------------------------

/// An item with every field trimmed.
pub open spec fn trim_item(it: WordNetworkItemV) -> WordNetworkItemV {
    WordNetworkItemV {
        term: trim(it.term),
        part_of_speech: trim(it.part_of_speech),
        chinese: trim(it.chinese),
        english: trim(it.english),
        note: trim(it.note),
    }
}

pub open spec fn item_key(it: WordNetworkItemV) -> Seq<char> {
    lower_key(it.term)
}

/// The trimmed items with a term, the first of each term (ignoring case).
pub open spec fn dedupe_items(vs: Seq<WordNetworkItemV>) -> Seq<WordNetworkItemV>
    decreases vs.len(),
{
    if vs.len() == 0 {
        Seq::empty()
    } else {
        let acc = dedupe_items(vs.drop_last());
        let it = trim_item(vs.last());
        if it.term.len() > 0 && !acc.map_values(|x: WordNetworkItemV| item_key(x)).contains(
            item_key(it),
        ) {
            acc.push(it)
        } else {
            acc
        }
    }
}

/// The trimmed non-empty strings, the first of each (ignoring case).
pub open spec fn dedupe_strs(vs: Seq<Seq<char>>) -> Seq<Seq<char>>
    decreases vs.len(),
{
    if vs.len() == 0 {
        Seq::empty()
    } else {
        let acc = dedupe_strs(vs.drop_last());
        let t = trim(vs.last());
        if t.len() > 0 && !acc.map_values(|x: Seq<char>| lower_key(x)).contains(lower_key(t)) {
            acc.push(t)
        } else {
            acc
        }
    }
}

fn trimmed_item(it: &StructuredWordNetworkItem) -> (r: StructuredWordNetworkItem)
    ensures
        r@ == trim_item(it@),
{
    StructuredWordNetworkItem {
        term: trim_str(it.term.as_str()),
        part_of_speech: trim_str(it.part_of_speech.as_str()),
        chinese: trim_str(it.chinese.as_str()),
        english: trim_str(it.english.as_str()),
        note: trim_str(it.note.as_str()),
    }
}

fn dedupe_word_network_items(values: &Vec<StructuredWordNetworkItem>) -> (r: Vec<StructuredWordNetworkItem>)
    ensures
        item_views(r@) == dedupe_items(item_views(values@)),
{
    let ghost vv = item_views(values@);
    let mut out: Vec<StructuredWordNetworkItem> = Vec::new();
    let mut keys: Vec<Vec<char>> = Vec::new();
    let mut i: usize = 0;
    while i < values.len()
        invariant
            0 <= i <= values@.len(),
            vv == item_views(values@),
            item_views(out@) == dedupe_items(vv.take(i as int)),
            views(keys@) =~= item_views(out@).map_values(|x: WordNetworkItemV| item_key(x)),
        decreases values@.len() - i,
    {
        assert(vv.take(i + 1).drop_last() =~= vv.take(i as int));
        assert(vv.take(i + 1).last() == values@[i as int]@);
        let it = trimmed_item(&values[i]);
        let l = to_lowercase(it.term.as_str());
        let k = chars_of(l.as_str());
        if !it.term.as_str().is_empty() && !has_key(&keys, &k) {
            let ghost before = item_views(out@);
            let ghost itv = it@;
            out.push(it);
            keys.push(k);
            assert(item_views(out@) =~= before.push(itv));
            assert(item_views(out@).map_values(|x: WordNetworkItemV| item_key(x)) =~= before.map_values(
                |x: WordNetworkItemV| item_key(x),
            ).push(item_key(itv)));
        }
        i = i + 1;
    }
    assert(vv.take(vv.len() as int) =~= vv);
    out
}

fn dedupe_strings(values: &Vec<String>) -> (r: Vec<String>)
    ensures
        str_views(r@) == dedupe_strs(str_views(values@)),
{
    let ghost vv = str_views(values@);
    let mut out: Vec<String> = Vec::new();
    let mut keys: Vec<Vec<char>> = Vec::new();
    let mut i: usize = 0;
    while i < values.len()
        invariant
            0 <= i <= values@.len(),
            vv == str_views(values@),
            str_views(out@) == dedupe_strs(vv.take(i as int)),
            views(keys@) =~= str_views(out@).map_values(|x: Seq<char>| lower_key(x)),
        decreases values@.len() - i,
    {
        assert(vv.take(i + 1).drop_last() =~= vv.take(i as int));
        assert(vv.take(i + 1).last() == values@[i as int]@);
        let t = trim_str(values[i].as_str());
        let l = to_lowercase(t.as_str());
        let k = chars_of(l.as_str());
        let tv = chars_of(t.as_str());
        if tv.len() > 0 && !has_key(&keys, &k) {
            let ghost before = str_views(out@);
            let ghost tt = t@;
            out.push(t);
            keys.push(k);
            assert(str_views(out@) =~= before.push(tt));
            assert(str_views(out@).map_values(|x: Seq<char>| lower_key(x)) =~= before.map_values(
                |x: Seq<char>| lower_key(x),
            ).push(lower_key(tt)));
        }
        i = i + 1;
    }
    assert(vv.take(vv.len() as int) =~= vv);
    out
}


// ---------------------------------------------------------------------------
// Normalisation of a document
// ---------------------------------------------------------------------------

pub open spec fn trim_meaning(m: MeaningV) -> MeaningV {
    MeaningV { part_of_speech: trim(m.part_of_speech), chinese: trim(m.chinese), english: trim(m.english) }
}

/// The trimmed meanings that say something in Chinese or English.
pub open spec fn norm_meanings(ms: Seq<MeaningV>) -> Seq<MeaningV>
    decreases ms.len(),
{
    if ms.len() == 0 {
        Seq::empty()
    } else {
        let m = trim_meaning(ms.last());
        if m.chinese.len() > 0 || m.english.len() > 0 {
            norm_meanings(ms.drop_last()).push(m)
        } else {
            norm_meanings(ms.drop_last())
        }
    }
}

/// The words of an explanation joined by single spaces.
pub open spec fn norm_explanation(v: Seq<char>) -> Seq<char> {
    join(words(v), seq![' '])
}

pub open spec fn norm_module(m: UsageModuleV) -> UsageModuleV {
    UsageModuleV {
        title: trim(m.title),
        explanation: norm_explanation(m.explanation),
        example_de: trim(m.example_de),
        example_zh: trim(m.example_zh),
    }
}

/// The cleaned modules with at least one non-empty field.
pub open spec fn norm_modules(ms: Seq<UsageModuleV>) -> Seq<UsageModuleV>
    decreases ms.len(),
{
    if ms.len() == 0 {
        Seq::empty()
    } else {
        let m = norm_module(ms.last());
        if m.title.len() > 0 || m.explanation.len() > 0 || m.example_de.len() > 0
            || m.example_zh.len() > 0 {
            norm_modules(ms.drop_last()).push(m)
        } else {
            norm_modules(ms.drop_last())
        }
    }
}

/// The trimmed examples with a German or Chinese side.
pub open spec fn norm_examples(es: Seq<ExampleV>) -> Seq<ExampleV>
    decreases es.len(),
{
    if es.len() == 0 {
        Seq::empty()
    } else {
        let e = ExampleV { de: trim(es.last().de), zh: trim(es.last().zh) };
        if e.de.len() > 0 || e.zh.len() > 0 {
            norm_examples(es.drop_last()).push(e)
        } else {
            norm_examples(es.drop_last())
        }
    }
}

/// The trimmed grammar rows with both a key and a value.
pub open spec fn norm_rows(rs: Seq<GrammarRowV>) -> Seq<GrammarRowV>
    decreases rs.len(),
{
    if rs.len() == 0 {
        Seq::empty()
    } else {
        let r = GrammarRowV { key: trim(rs.last().key), value: trim(rs.last().value) };
        if r.key.len() > 0 && r.value.len() > 0 {
            norm_rows(rs.drop_last()).push(r)
        } else {
            norm_rows(rs.drop_last())
        }
    }
}

/// The title given to an insight that came without one.
pub open spec fn default_insight_title() -> Seq<char> {
    "分析片段"@
}

pub open spec fn norm_insight(d: DeepInsightV) -> DeepInsightV {
    DeepInsightV {
        title: if trim(d.title).len() == 0 {
            default_insight_title()
        } else {
            trim(d.title)
        },
        content_markdown: trim(d.content_markdown),
    }
}

/// The cleaned insights that have content.
pub open spec fn norm_insights(ds: Seq<DeepInsightV>) -> Seq<DeepInsightV>
    decreases ds.len(),
{
    if ds.len() == 0 {
        Seq::empty()
    } else {
        let d = norm_insight(ds.last());
        if d.content_markdown.len() > 0 {
            norm_insights(ds.drop_last()).push(d)
        } else {
            norm_insights(ds.drop_last())
        }
    }
}

/// The document with every part cleaned; the headword falls back to the
/// given one when blank, and the grammar branches are kept as they are.
pub open spec fn normalized_doc(d: DocumentV, fallback: Seq<char>) -> DocumentV {
    DocumentV {
        headword: if trim(d.headword).len() == 0 {
            trim(fallback)
        } else {
            trim(d.headword)
        },
        phonetic: trim(d.phonetic),
        meanings: norm_meanings(d.meanings),
        usage_modules: norm_modules(d.usage_modules),
        collocations: dedupe_strs(d.collocations),
        examples: norm_examples(d.examples),
        grammar_rows: norm_rows(d.grammar_rows),
        grammar_branches: d.grammar_branches,
        word_network: WordNetworkV {
            family: dedupe_items(d.word_network.family),
            synonyms: dedupe_items(d.word_network.synonyms),
            antonyms: dedupe_items(d.word_network.antonyms),
        },
        deep_insights: norm_insights(d.deep_insights),
    }
}

/// A document that holds no content besides its headword and grammar
/// branches.
pub open spec fn doc_is_blank(d: DocumentV) -> bool {
    &&& d.meanings.len() == 0
    &&& d.usage_modules.len() == 0
    &&& d.collocations.len() == 0
    &&& d.examples.len() == 0
    &&& d.grammar_rows.len() == 0
    &&& d.word_network.family.len() == 0
    &&& d.word_network.synonyms.len() == 0
    &&& d.word_network.antonyms.len() == 0
    &&& d.deep_insights.len() == 0
    &&& d.phonetic.len() == 0
}

fn normalize_meanings(ms: &Vec<StructuredMeaning>) -> (r: Vec<StructuredMeaning>)
    ensures
        meaning_views(r@) == norm_meanings(meaning_views(ms@)),
{
    let ghost vv = meaning_views(ms@);
    let mut out: Vec<StructuredMeaning> = Vec::new();
    let mut i: usize = 0;
    while i < ms.len()
        invariant
            0 <= i <= ms@.len(),
            vv == meaning_views(ms@),
            meaning_views(out@) == norm_meanings(vv.take(i as int)),
        decreases ms@.len() - i,
    {
        assert(vv.take(i + 1).drop_last() =~= vv.take(i as int));
        assert(vv.take(i + 1).last() == ms@[i as int]@);
        let m = StructuredMeaning {
            part_of_speech: trim_str(ms[i].part_of_speech.as_str()),
            chinese: trim_str(ms[i].chinese.as_str()),
            english: trim_str(ms[i].english.as_str()),
        };
        if !m.chinese.as_str().is_empty() || !m.english.as_str().is_empty() {
            let ghost before = meaning_views(out@);
            let ghost mv = m@;
            out.push(m);
            assert(meaning_views(out@) =~= before.push(mv));
        }
        i = i + 1;
    }
    assert(vv.take(vv.len() as int) =~= vv);
    out
}

/// The words of an explanation joined by single spaces.
pub fn normalize_usage_explanation(value: &str) -> (r: String)
    ensures
        r@ == norm_explanation(value@),
{
    let v = chars_of(value);
    let ws = words_exec(&v);
    let sp = vec![' '];
    assert(sp@ =~= seq![' ']);
    let j = join_exec(&ws, &sp);
    string_of(&j)
}

fn normalize_modules(ms: &Vec<StructuredUsageModule>) -> (r: Vec<StructuredUsageModule>)
    ensures
        module_views(r@) == norm_modules(module_views(ms@)),
{
    let ghost vv = module_views(ms@);
    let mut out: Vec<StructuredUsageModule> = Vec::new();
    let mut i: usize = 0;
    while i < ms.len()
        invariant
            0 <= i <= ms@.len(),
            vv == module_views(ms@),
            module_views(out@) == norm_modules(vv.take(i as int)),
        decreases ms@.len() - i,
    {
        assert(vv.take(i + 1).drop_last() =~= vv.take(i as int));
        assert(vv.take(i + 1).last() == ms@[i as int]@);
        let m = StructuredUsageModule {
            title: trim_str(ms[i].title.as_str()),
            explanation: normalize_usage_explanation(ms[i].explanation.as_str()),
            example_de: trim_str(ms[i].example_de.as_str()),
            example_zh: trim_str(ms[i].example_zh.as_str()),
        };
        if !m.title.as_str().is_empty() || !m.explanation.as_str().is_empty()
            || !m.example_de.as_str().is_empty() || !m.example_zh.as_str().is_empty() {
            let ghost before = module_views(out@);
            let ghost mv = m@;
            out.push(m);
            assert(module_views(out@) =~= before.push(mv));
        }
        i = i + 1;
    }
    assert(vv.take(vv.len() as int) =~= vv);
    out
}

fn normalize_examples(es: &Vec<StructuredExample>) -> (r: Vec<StructuredExample>)
    ensures
        example_views(r@) == norm_examples(example_views(es@)),
{
    let ghost vv = example_views(es@);
    let mut out: Vec<StructuredExample> = Vec::new();
    let mut i: usize = 0;
    while i < es.len()
        invariant
            0 <= i <= es@.len(),
            vv == example_views(es@),
            example_views(out@) == norm_examples(vv.take(i as int)),
        decreases es@.len() - i,
    {
        assert(vv.take(i + 1).drop_last() =~= vv.take(i as int));
        assert(vv.take(i + 1).last() == es@[i as int]@);
        let e = StructuredExample {
            de: trim_str(es[i].de.as_str()),
            zh: trim_str(es[i].zh.as_str()),
        };
        if !e.de.as_str().is_empty() || !e.zh.as_str().is_empty() {
            let ghost before = example_views(out@);
            let ghost ev = e@;
            out.push(e);
            assert(example_views(out@) =~= before.push(ev));
        }
        i = i + 1;
    }
    assert(vv.take(vv.len() as int) =~= vv);
    out
}

fn normalize_rows(rs: &Vec<StructuredGrammarRow>) -> (r: Vec<StructuredGrammarRow>)
    ensures
        row_views(r@) == norm_rows(row_views(rs@)),
{
    let ghost vv = row_views(rs@);
    let mut out: Vec<StructuredGrammarRow> = Vec::new();
    let mut i: usize = 0;
    while i < rs.len()
        invariant
            0 <= i <= rs@.len(),
            vv == row_views(rs@),
            row_views(out@) == norm_rows(vv.take(i as int)),
        decreases rs@.len() - i,
    {
        assert(vv.take(i + 1).drop_last() =~= vv.take(i as int));
        assert(vv.take(i + 1).last() == rs@[i as int]@);
        let r = StructuredGrammarRow {
            key: trim_str(rs[i].key.as_str()),
            value: trim_str(rs[i].value.as_str()),
        };
        if !r.key.as_str().is_empty() && !r.value.as_str().is_empty() {
            let ghost before = row_views(out@);
            let ghost rv = r@;
            out.push(r);
            assert(row_views(out@) =~= before.push(rv));
        }
        i = i + 1;
    }
    assert(vv.take(vv.len() as int) =~= vv);
    out
}

fn normalize_insights(ds: &Vec<StructuredDeepInsight>) -> (r: Vec<StructuredDeepInsight>)
    ensures
        insight_views(r@) == norm_insights(insight_views(ds@)),
{
    let ghost vv = insight_views(ds@);
    let mut out: Vec<StructuredDeepInsight> = Vec::new();
    let mut i: usize = 0;
    while i < ds.len()
        invariant
            0 <= i <= ds@.len(),
            vv == insight_views(ds@),
            insight_views(out@) == norm_insights(vv.take(i as int)),
        decreases ds@.len() - i,
    {
        assert(vv.take(i + 1).drop_last() =~= vv.take(i as int));
        assert(vv.take(i + 1).last() == ds@[i as int]@);
        let t = trim_str(ds[i].title.as_str());
        let title = if t.as_str().is_empty() {
            owned("分析片段")
        } else {
            t
        };
        let d = StructuredDeepInsight {
            title,
            content_markdown: trim_str(ds[i].content_markdown.as_str()),
        };
        if !d.content_markdown.as_str().is_empty() {
            let ghost before = insight_views(out@);
            let ghost dv = d@;
            out.push(d);
            assert(insight_views(out@) =~= before.push(dv));
        }
        i = i + 1;
    }
    assert(vv.take(vv.len() as int) =~= vv);
    out
}

/// The document with every part cleaned, the blank headword replaced by the
/// fallback; `None` when there was none or nothing is left but the headword.
pub fn normalize_structured_analysis(
    structured: Option<StructuredAnalysisDocument>,
    fallback_headword: &str,
) -> (r: Option<StructuredAnalysisDocument>)
    ensures
        structured is None ==> r is None,
        structured matches Some(d) ==> {
            let n = normalized_doc(d@, fallback_headword@);
            &&& doc_is_blank(n) ==> r is None
            &&& !doc_is_blank(n) ==> (r matches Some(x) && x@ == n)
        },
{
    let d = match structured {
        None => {
            return None;
        },
        Some(d) => d,
    };
    let headword = if is_blank(d.headword.as_str()) {
        trim_str(fallback_headword)
    } else {
        trim_str(d.headword.as_str())
    };
    let phonetic = trim_str(d.phonetic.as_str());
    let meanings = normalize_meanings(&d.meanings);
    let usage_modules = normalize_modules(&d.usage_modules);
    let examples = normalize_examples(&d.examples);
    let grammar_rows = normalize_rows(&d.grammar_rows);
    let family = dedupe_word_network_items(&d.word_network.family);
    let synonyms = dedupe_word_network_items(&d.word_network.synonyms);
    let antonyms = dedupe_word_network_items(&d.word_network.antonyms);
    let deep_insights = normalize_insights(&d.deep_insights);
    let collocations = dedupe_strings(&d.collocations);
    let ghost n = normalized_doc(d@, fallback_headword@);
    let blank = meanings.len() == 0 && usage_modules.len() == 0 && collocations.len() == 0
        && examples.len() == 0 && grammar_rows.len() == 0 && family.len() == 0 && synonyms.len()
        == 0 && antonyms.len() == 0 && deep_insights.len() == 0 && phonetic.as_str().is_empty();
    let out = StructuredAnalysisDocument {
        headword,
        phonetic,
        meanings,
        usage_modules,
        collocations,
        examples,
        grammar_rows,
        grammar_branches: d.grammar_branches,
        word_network: StructuredWordNetwork { family, synonyms, antonyms },
        deep_insights,
    };
    assert(out@ =~= n);
    if blank {
        None
    } else {
        Some(out)
    }
}

// ---------------------------------------------------------------------------
// Laws of normalisation
// ---------------------------------------------------------------------------

proof fn lemma_norm_meanings_idempotent(ms: Seq<MeaningV>)
    ensures
        norm_meanings(norm_meanings(ms)) == norm_meanings(ms),
    decreases ms.len(),
{
    if ms.len() > 0 {
        let r = norm_meanings(ms.drop_last());
        lemma_norm_meanings_idempotent(ms.drop_last());
        let m = trim_meaning(ms.last());
        if m.chinese.len() > 0 || m.english.len() > 0 {
            lemma_trim_idempotent(ms.last().part_of_speech);
            lemma_trim_idempotent(ms.last().chinese);
            lemma_trim_idempotent(ms.last().english);
            assert(trim_meaning(m) == m);
            assert(r.push(m).drop_last() =~= r);
            assert(r.push(m).last() == m);
        }
    }
}

proof fn lemma_norm_module_idempotent(m: UsageModuleV)
    ensures
        norm_module(norm_module(m)) == norm_module(m),
{
    lemma_trim_idempotent(m.title);
    lemma_trim_idempotent(m.example_de);
    lemma_trim_idempotent(m.example_zh);
    lemma_normalized_words_idempotent(m.explanation);
}

proof fn lemma_norm_modules_idempotent(ms: Seq<UsageModuleV>)
    ensures
        norm_modules(norm_modules(ms)) == norm_modules(ms),
    decreases ms.len(),
{
    if ms.len() > 0 {
        let r = norm_modules(ms.drop_last());
        lemma_norm_modules_idempotent(ms.drop_last());
        let m = norm_module(ms.last());
        if m.title.len() > 0 || m.explanation.len() > 0 || m.example_de.len() > 0
            || m.example_zh.len() > 0 {
            lemma_norm_module_idempotent(ms.last());
            assert(r.push(m).drop_last() =~= r);
            assert(r.push(m).last() == m);
        }
    }
}

proof fn lemma_norm_examples_idempotent(es: Seq<ExampleV>)
    ensures
        norm_examples(norm_examples(es)) == norm_examples(es),
    decreases es.len(),
{
    if es.len() > 0 {
        let r = norm_examples(es.drop_last());
        lemma_norm_examples_idempotent(es.drop_last());
        let e = ExampleV { de: trim(es.last().de), zh: trim(es.last().zh) };
        if e.de.len() > 0 || e.zh.len() > 0 {
            lemma_trim_idempotent(es.last().de);
            lemma_trim_idempotent(es.last().zh);
            assert(r.push(e).drop_last() =~= r);
            assert(r.push(e).last() == e);
        }
    }
}

proof fn lemma_norm_rows_idempotent(rs: Seq<GrammarRowV>)
    ensures
        norm_rows(norm_rows(rs)) == norm_rows(rs),
    decreases rs.len(),
{
    if rs.len() > 0 {
        let r = norm_rows(rs.drop_last());
        lemma_norm_rows_idempotent(rs.drop_last());
        let row = GrammarRowV { key: trim(rs.last().key), value: trim(rs.last().value) };
        if row.key.len() > 0 && row.value.len() > 0 {
            lemma_trim_idempotent(rs.last().key);
            lemma_trim_idempotent(rs.last().value);
            assert(r.push(row).drop_last() =~= r);
            assert(r.push(row).last() == row);
        }
    }
}

proof fn lemma_default_title_shape()
    ensures
        default_insight_title().len() > 0,
        trim(default_insight_title()) == default_insight_title(),
{
    reveal_strlit("分析片段");
    let t = default_insight_title();
    assert(t.len() == 4);
    assert(!is_ws(t[0]));
    assert(!is_ws(t[3]));
    assert(trim_start(t) =~= t);
    assert(trim(t) =~= t);
}

proof fn lemma_norm_insights_idempotent(ds: Seq<DeepInsightV>)
    ensures
        norm_insights(norm_insights(ds)) == norm_insights(ds),
    decreases ds.len(),
{
    if ds.len() > 0 {
        let r = norm_insights(ds.drop_last());
        lemma_norm_insights_idempotent(ds.drop_last());
        let d = norm_insight(ds.last());
        if d.content_markdown.len() > 0 {
            lemma_trim_idempotent(ds.last().title);
            lemma_trim_idempotent(ds.last().content_markdown);
            lemma_default_title_shape();
            assert(norm_insight(d) == d);
            assert(r.push(d).drop_last() =~= r);
            assert(r.push(d).last() == d);
        }
    }
}

proof fn lemma_dedupe_strs_shape(vs: Seq<Seq<char>>)
    ensures
        dedupe_strs(dedupe_strs(vs)) == dedupe_strs(vs),
        forall|i: int|
            0 <= i < dedupe_strs(vs).len() ==> (#[trigger] dedupe_strs(vs)[i]).len() > 0 && trim(
                dedupe_strs(vs)[i],
            ) == dedupe_strs(vs)[i],
        forall|i: int, j: int|
            0 <= i < j < dedupe_strs(vs).len() ==> lower_key(#[trigger] dedupe_strs(vs)[i])
                != lower_key(#[trigger] dedupe_strs(vs)[j]),
    decreases vs.len(),
{
    if vs.len() > 0 {
        let acc = dedupe_strs(vs.drop_last());
        lemma_dedupe_strs_shape(vs.drop_last());
        let t = trim(vs.last());
        let keys = acc.map_values(|x: Seq<char>| lower_key(x));
        if t.len() > 0 && !keys.contains(lower_key(t)) {
            lemma_trim_idempotent(vs.last());
            let out = acc.push(t);
            assert(out.drop_last() =~= acc);
            assert(out.last() == t);
            assert(dedupe_strs(vs) == out);
            assert forall|i: int, j: int| 0 <= i < j < out.len() implies lower_key(#[trigger] out[i])
                != lower_key(#[trigger] out[j]) by {
                if j == out.len() - 1 {
                    assert(keys[i] == lower_key(acc[i]));
                    assert(out[i] == acc[i]);
                } else {
                    assert(out[i] == acc[i] && out[j] == acc[j]);
                }
            }
            assert forall|i: int| 0 <= i < out.len() implies (#[trigger] out[i]).len() > 0 && trim(out[i])
                == out[i] by {
                if i < acc.len() {
                    assert(out[i] == acc[i]);
                }
            }
        }
    }
}

proof fn lemma_trim_item_idempotent(it: WordNetworkItemV)
    ensures
        trim_item(trim_item(it)) == trim_item(it),
{
    lemma_trim_idempotent(it.term);
    lemma_trim_idempotent(it.part_of_speech);
    lemma_trim_idempotent(it.chinese);
    lemma_trim_idempotent(it.english);
    lemma_trim_idempotent(it.note);
}

proof fn lemma_dedupe_items_shape(vs: Seq<WordNetworkItemV>)
    ensures
        dedupe_items(dedupe_items(vs)) == dedupe_items(vs),
        forall|i: int|
            0 <= i < dedupe_items(vs).len() ==> (#[trigger] dedupe_items(vs)[i]).term.len() > 0
                && trim_item(dedupe_items(vs)[i]) == dedupe_items(vs)[i],
        forall|i: int, j: int|
            0 <= i < j < dedupe_items(vs).len() ==> item_key(#[trigger] dedupe_items(vs)[i])
                != item_key(#[trigger] dedupe_items(vs)[j]),
    decreases vs.len(),
{
    if vs.len() > 0 {
        let acc = dedupe_items(vs.drop_last());
        lemma_dedupe_items_shape(vs.drop_last());
        let it = trim_item(vs.last());
        let keys = acc.map_values(|x: WordNetworkItemV| item_key(x));
        if it.term.len() > 0 && !keys.contains(item_key(it)) {
            lemma_trim_item_idempotent(vs.last());
            let out = acc.push(it);
            assert(out.drop_last() =~= acc);
            assert(out.last() == it);
            assert(dedupe_items(vs) == out);
            assert forall|i: int, j: int| 0 <= i < j < out.len() implies item_key(#[trigger] out[i])
                != item_key(#[trigger] out[j]) by {
                if j == out.len() - 1 {
                    assert(keys[i] == item_key(acc[i]));
                    assert(out[i] == acc[i]);
                } else {
                    assert(out[i] == acc[i] && out[j] == acc[j]);
                }
            }
            assert forall|i: int| 0 <= i < out.len() implies (#[trigger] out[i]).term.len() > 0
                && trim_item(out[i]) == out[i] by {
                if i < acc.len() {
                    assert(out[i] == acc[i]);
                }
            }
        }
    }
}

/// Cleaning a cleaned document changes nothing: the same document comes
/// out, and it is blank exactly when it was.
pub proof fn law_normalization_idempotent(d: DocumentV, fallback: Seq<char>)
    ensures
        normalized_doc(normalized_doc(d, fallback), fallback) == normalized_doc(d, fallback),
{
    let n = normalized_doc(d, fallback);
    lemma_trim_idempotent(d.headword);
    lemma_trim_idempotent(fallback);
    lemma_trim_idempotent(d.phonetic);
    lemma_norm_meanings_idempotent(d.meanings);
    lemma_norm_modules_idempotent(d.usage_modules);
    lemma_dedupe_strs_shape(d.collocations);
    lemma_norm_examples_idempotent(d.examples);
    lemma_norm_rows_idempotent(d.grammar_rows);
    lemma_dedupe_items_shape(d.word_network.family);
    lemma_dedupe_items_shape(d.word_network.synonyms);
    lemma_dedupe_items_shape(d.word_network.antonyms);
    lemma_norm_insights_idempotent(d.deep_insights);
    assert(normalized_doc(n, fallback) =~~= n);
}

proof fn lemma_norm_insights_shape(ds: Seq<DeepInsightV>)
    ensures
        forall|i: int|
            0 <= i < norm_insights(ds).len() ==> (#[trigger] norm_insights(ds)[i]).title.len() > 0
                && norm_insights(ds)[i].content_markdown.len() > 0,
    decreases ds.len(),
{
    if ds.len() > 0 {
        lemma_norm_insights_shape(ds.drop_last());
        lemma_default_title_shape();
        let r = norm_insights(ds.drop_last());
        let out = norm_insights(ds);
        assert forall|i: int| 0 <= i < out.len() implies (#[trigger] out[i]).title.len() > 0
            && out[i].content_markdown.len() > 0 by {
            if i < r.len() {
                assert(out[i] == r[i]);
            }
        }
    }
}

/// A word-network group of trimmed items with a term, no two with the same
/// term ignoring case.
pub open spec fn clean_group(g: Seq<WordNetworkItemV>) -> bool {
    &&& forall|i: int| 0 <= i < g.len() ==> (#[trigger] g[i]).term.len() > 0 && trim_item(g[i]) == g[i]
    &&& forall|i: int, j: int| 0 <= i < j < g.len() ==> item_key(#[trigger] g[i]) != item_key(#[trigger] g[j])
}

/// In a cleaned document each word-network group holds trimmed items with
/// a term, no two with the same term ignoring case; the collocations are
/// trimmed, non-empty and distinct ignoring case; every insight has a title
/// and content.
pub proof fn law_normalized_entries_distinct(d: DocumentV, fallback: Seq<char>)
    ensures
        ({
            let n = normalized_doc(d, fallback);
            &&& forall|i: int|
                0 <= i < n.collocations.len() ==> (#[trigger] n.collocations[i]).len() > 0 && trim(
                    n.collocations[i],
                ) == n.collocations[i]
            &&& forall|i: int, j: int|
                0 <= i < j < n.collocations.len() ==> lower_key(#[trigger] n.collocations[i])
                    != lower_key(#[trigger] n.collocations[j])
            &&& clean_group(n.word_network.family)
            &&& clean_group(n.word_network.synonyms)
            &&& clean_group(n.word_network.antonyms)
            &&& forall|i: int|
                0 <= i < n.deep_insights.len() ==> (#[trigger] n.deep_insights[i]).title.len() > 0
                    && n.deep_insights[i].content_markdown.len() > 0
        }),
{
    lemma_dedupe_strs_shape(d.collocations);
    lemma_dedupe_items_shape(d.word_network.family);
    lemma_dedupe_items_shape(d.word_network.synonyms);
    lemma_dedupe_items_shape(d.word_network.antonyms);
    lemma_norm_insights_shape(d.deep_insights);
}

// ---------------------------------------------------------------------------
// A document from a phrase preview
// ---------------------------------------------------------------------------

/// The document a phrase preview describes, before cleaning: the phrase as
/// headword, one meaning marked as a phrase, its usage module, and the
/// module's explanation as an insight.
pub open spec fn phrase_doc(
    query: Seq<char>,
    zh: Seq<char>,
    en: Seq<char>,
    m: UsageModuleV,
) -> DocumentV {
    DocumentV {
        headword: trim(query),
        phonetic: Seq::empty(),
        meanings: seq![MeaningV { part_of_speech: "短语"@, chinese: trim(zh), english: trim(en) }],
        usage_modules: seq![
            UsageModuleV {
                title: trim(m.title),
                explanation: trim(m.explanation),
                example_de: trim(m.example_de),
                example_zh: trim(m.example_zh),
            },
        ],
        collocations: Seq::empty(),
        examples: Seq::empty(),
        grammar_rows: Seq::empty(),
        grammar_branches: Seq::empty(),
        word_network: WordNetworkV {
            family: Seq::empty(),
            synonyms: Seq::empty(),
            antonyms: Seq::empty(),
        },
        deep_insights: seq![DeepInsightV { title: "短语说明"@, content_markdown: trim(m.explanation) }],
    }
}

/// The cleaned document of a phrase preview; the empty document when nothing
/// of it is left.
pub fn structured_from_phrase_preview(query: &str, preview: &PhraseUsagePreview) -> (r:
    StructuredAnalysisDocument)
    ensures
        ({
            let um = preview.usage_module;
            let n = normalized_doc(
                phrase_doc(
                    query@,
                    preview.meaning_zh@,
                    preview.meaning_en@,
                    UsageModuleV {
                        title: um.title@,
                        explanation: um.explanation@,
                        example_de: um.example_de@,
                        example_zh: um.example_zh@,
                    },
                ),
                query@,
            );
            &&& doc_is_blank(n) ==> document_is_default(r)
            &&& !doc_is_blank(n) ==> r@ == n
        }),
{
    let um = &preview.usage_module;
    let ghost mv = UsageModuleV {
        title: um.title@,
        explanation: um.explanation@,
        example_de: um.example_de@,
        example_zh: um.example_zh@,
    };
    let mut meanings: Vec<StructuredMeaning> = Vec::new();
    meanings.push(
        StructuredMeaning {
            part_of_speech: owned("短语"),
            chinese: trim_str(preview.meaning_zh.as_str()),
            english: trim_str(preview.meaning_en.as_str()),
        },
    );
    let mut modules: Vec<StructuredUsageModule> = Vec::new();
    modules.push(
        StructuredUsageModule {
            title: trim_str(um.title.as_str()),
            explanation: trim_str(um.explanation.as_str()),
            example_de: trim_str(um.example_de.as_str()),
            example_zh: trim_str(um.example_zh.as_str()),
        },
    );
    let mut insights: Vec<StructuredDeepInsight> = Vec::new();
    insights.push(
        StructuredDeepInsight {
            title: owned("短语说明"),
            content_markdown: trim_str(um.explanation.as_str()),
        },
    );
    let doc = StructuredAnalysisDocument {
        headword: trim_str(query),
        phonetic: String::new(),
        meanings,
        usage_modules: modules,
        collocations: Vec::new(),
        examples: Vec::new(),
        grammar_rows: Vec::new(),
        grammar_branches: Vec::new(),
        word_network: StructuredWordNetwork::default(),
        deep_insights: insights,
    };
    assert(doc@ =~= phrase_doc(query@, preview.meaning_zh@, preview.meaning_en@, mv));
    match normalize_structured_analysis(Some(doc), query) {
        Some(d) => d,
        None => StructuredAnalysisDocument::default(),
    }
}

// ---------------------------------------------------------------------------
// Filling gaps from the seed
// ---------------------------------------------------------------------------

/// The document with the seed's usage modules, word-network items and
/// insights added where it lacks them; everything else is its own.
pub open spec fn merge_doc(d: DocumentV, seed: DocumentV) -> DocumentV {
    DocumentV {
        headword: d.headword,
        phonetic: d.phonetic,
        meanings: d.meanings,
        usage_modules: merge_new(d.usage_modules, seed.usage_modules, |m: UsageModuleV| module_key(m)),
        collocations: d.collocations,
        examples: d.examples,
        grammar_rows: d.grammar_rows,
        grammar_branches: d.grammar_branches,
        word_network: WordNetworkV {
            family: dedupe_items(d.word_network.family + seed.word_network.family),
            synonyms: dedupe_items(d.word_network.synonyms + seed.word_network.synonyms),
            antonyms: dedupe_items(d.word_network.antonyms + seed.word_network.antonyms),
        },
        deep_insights: merge_new(d.deep_insights, seed.deep_insights, |x: DeepInsightV| insight_key(x)),
    }
}

fn merge_word_network_items(values: &Vec<StructuredWordNetworkItem>, seed: &Vec<StructuredWordNetworkItem>) -> (r:
    Vec<StructuredWordNetworkItem>)
    ensures
        item_views(r@) == dedupe_items(item_views(values@) + item_views(seed@)),
{
    let ghost target = item_views(values@) + item_views(seed@);
    let mut all: Vec<StructuredWordNetworkItem> = Vec::new();
    let mut i: usize = 0;
    while i < values.len()
        invariant
            0 <= i <= values@.len(),
            item_views(all@) =~= item_views(values@).take(i as int),
        decreases values@.len() - i,
    {
        let ghost before = item_views(all@);
        all.push(values[i].copy());
        assert(item_views(all@) =~= before.push(values@[i as int]@));
        assert(item_views(values@).take(i + 1) =~= item_views(values@).take(i as int).push(values@[i as int]@));
        i = i + 1;
    }
    let mut j: usize = 0;
    while j < seed.len()
        invariant
            0 <= j <= seed@.len(),
            values@.len() == i,
            item_views(all@) =~= item_views(values@) + item_views(seed@).take(j as int),
        decreases seed@.len() - j,
    {
        let ghost before = item_views(all@);
        all.push(seed[j].copy());
        assert(item_views(all@) =~= before.push(seed@[j as int]@));
        assert(item_views(seed@).take(j + 1) =~= item_views(seed@).take(j as int).push(seed@[j as int]@));
        assert(item_views(values@) + item_views(seed@).take(j + 1) =~= (item_views(values@)
            + item_views(seed@).take(j as int)).push(seed@[j as int]@));
        j = j + 1;
    }
    assert(item_views(all@) =~= target);
    dedupe_word_network_items(&all)
}

/// Adds to the document what the seed read off the markdown has and the
/// document lacks: usage modules and insights under new titles, and
/// word-network items under new terms.
pub fn merge_structured_with_seed(
    structured: StructuredAnalysisDocument,
    seed: &StructuredAnalysisDocument,
) -> (r: StructuredAnalysisDocument)
    ensures
        r@ == merge_doc(structured@, seed@),
{
    let ghost dv = structured@;
    let StructuredAnalysisDocument {
        headword,
        phonetic,
        meanings,
        usage_modules,
        collocations,
        examples,
        grammar_rows,
        grammar_branches,
        word_network,
        deep_insights,
    } = structured;
    let usage_modules = merge_usage_modules(usage_modules, &seed.usage_modules);
    let family = merge_word_network_items(&word_network.family, &seed.word_network.family);
    let synonyms = merge_word_network_items(&word_network.synonyms, &seed.word_network.synonyms);
    let antonyms = merge_word_network_items(&word_network.antonyms, &seed.word_network.antonyms);
    let deep_insights = merge_deep_insights(deep_insights, &seed.deep_insights);
    let out = StructuredAnalysisDocument {
        headword,
        phonetic,
        meanings,
        usage_modules,
        collocations,
        examples,
        grammar_rows,
        grammar_branches,
        word_network: StructuredWordNetwork { family, synonyms, antonyms },
        deep_insights,
    };
    assert(out@ =~= merge_doc(dv, seed@));
    out
}

} // verus!
