//! The grounded document: meanings, grammar rows and grammar branches from
//! the first stage, the pronunciation from the dictionary facts, and the rest
//! from the module document.

use vstd::prelude::*;
use crate::text::{
    chars_of, chars_of_all, extend, extend_str, join, join_exec, slice_of, str_views, string_of,
    trim, trim_exec, trim_str, views,
};
use crate::json::{json_get, JsonValue};
use crate::models::{
    branch_views, meaning_views, row_views, strs, BranchMeaningV, DocumentV, GrammarBranchV,
    GrammarRowV, MeaningV, StructuredAnalysisDocument, StructuredGrammarBranch,
    StructuredGrammarRow, StructuredMeaning,
};
use crate::model_a::{
    branch_meaning_views, entry_views, grammar_has_content, norm_branch_meanings, ModelAEntry,
    ModelAOutput,
};

verus! {

// ---------------------------------------------------------------------------
// Meanings
// ---------------------------------------------------------------------------

/// How an entry is named: its selector, or its part of speech without one.
pub open spec fn display_selector(e: GrammarBranchV) -> Seq<char> {
    if trim(e.selector).len() > 0 {
        trim(e.selector)
    } else {
        trim(e.pos)
    }
}

/// The trimmed meanings of an entry that say something, under its name.
pub open spec fn entry_meanings(sel: Seq<char>, ms: Seq<BranchMeaningV>) -> Seq<MeaningV>
    decreases ms.len(),
{
    if ms.len() == 0 {
        Seq::empty()
    } else {
        let m = MeaningV { part_of_speech: sel, chinese: trim(ms.last().zh), english: trim(ms.last().en) };
        if m.chinese.len() > 0 || m.english.len() > 0 {
            entry_meanings(sel, ms.drop_last()).push(m)
        } else {
            entry_meanings(sel, ms.drop_last())
        }
    }
}

/// The meanings of all entries, entry by entry.
pub open spec fn stage1_meanings(es: Seq<GrammarBranchV>) -> Seq<MeaningV>
    decreases es.len(),
{
    if es.len() == 0 {
        Seq::empty()
    } else {
        stage1_meanings(es.drop_last()) + entry_meanings(display_selector(es.last()), es.last().meanings)
    }
}

fn display_selector_exec(e: &ModelAEntry) -> (r: Vec<char>)
    ensures
        r@ == display_selector(e@),
{
    let s = chars_of(e.selector.as_str());
    let t = trim_exec(&s);
    if t.len() > 0 {
        t
    } else {
        let p = chars_of(e.pos.as_str());
        trim_exec(&p)
    }
}

fn meanings_from_stage1(out: &ModelAOutput) -> (r: Vec<StructuredMeaning>)
    ensures
        meaning_views(r@) == stage1_meanings(entry_views(out.entries@)),
{
    let ghost es = entry_views(out.entries@);
    let mut r: Vec<StructuredMeaning> = Vec::new();
    let mut i: usize = 0;
    while i < out.entries.len()
        invariant
            0 <= i <= out.entries@.len(),
            es == entry_views(out.entries@),
            meaning_views(r@) == stage1_meanings(es.take(i as int)),
        decreases out.entries@.len() - i,
    {
        assert(es.take(i + 1).drop_last() =~= es.take(i as int));
        assert(es.take(i + 1).last() == out.entries@[i as int]@);
        let e = &out.entries[i];
        let sel = display_selector_exec(e);
        let ghost base = meaning_views(r@);
        let ghost ms = branch_meaning_views(e.meanings@);
        let mut j: usize = 0;
        while j < e.meanings.len()
            invariant
                0 <= j <= e.meanings@.len(),
                ms == branch_meaning_views(e.meanings@),
                meaning_views(r@) == base + entry_meanings(sel@, ms.take(j as int)),
            decreases e.meanings@.len() - j,
        {
            assert(ms.take(j + 1).drop_last() =~= ms.take(j as int));
            assert(ms.take(j + 1).last() == e.meanings@[j as int]@);
            let m = StructuredMeaning {
                part_of_speech: string_of(&sel),
                chinese: trim_str(e.meanings[j].zh.as_str()),
                english: trim_str(e.meanings[j].en.as_str()),
            };
            if !m.chinese.as_str().is_empty() || !m.english.as_str().is_empty() {
                let ghost before = meaning_views(r@);
                let ghost mv = m@;
                r.push(m);
                assert(meaning_views(r@) =~= before.push(mv));
                assert(base + entry_meanings(sel@, ms.take(j + 1)) =~= (base + entry_meanings(
                    sel@,
                    ms.take(j as int),
                )).push(mv));
            }
            j = j + 1;
        }
        assert(ms.take(ms.len() as int) =~= ms);
        i = i + 1;
    }
    assert(es.take(es.len() as int) =~= es);
    r
}

// ---------------------------------------------------------------------------
// Grammar rows
// ---------------------------------------------------------------------------

pub open spec fn slash() -> Seq<char> {
    seq!['/']
}

/// The row for one grammar value: none when the value is blank; its key is
/// the label, prefixed by the entry's name when there are several entries.
pub open spec fn row_for(multi: bool, sel: Seq<char>, label: Seq<char>, value: Seq<char>) -> Option<GrammarRowV> {
    let v = trim(value);
    if v.len() == 0 {
        None
    } else {
        Some(GrammarRowV { key: if multi { sel + " / "@ + label } else { label }, value: v })
    }
}

pub open spec fn push_opt(rows: Seq<GrammarRowV>, r: Option<GrammarRowV>) -> Seq<GrammarRowV> {
    match r {
        Some(x) => rows.push(x),
        None => rows,
    }
}

/// The rows of one entry after `acc`, in the fixed order of its grammar
/// fields; lists are joined with `/`.
pub open spec fn entry_rows(acc: Seq<GrammarRowV>, multi: bool, e: GrammarBranchV) -> Seq<GrammarRowV> {
    let sel = display_selector(e);
    let g = e.grammar;
    let a = push_opt(acc, row_for(multi, sel, "词性"@, sel));
    let a = push_opt(a, row_for(multi, sel, "性"@, join(g.genders, slash())));
    let a = push_opt(a, row_for(multi, sel, "名词变化"@, g.noun_class));
    let a = push_opt(a, row_for(multi, sel, "复数"@, join(g.plural_forms, slash())));
    let a = push_opt(a, row_for(multi, sel, "第二格"@, join(g.genitive_forms, slash())));
    let a = push_opt(a, row_for(multi, sel, "可分性"@, g.separable));
    let a = push_opt(a, row_for(multi, sel, "及物性"@, g.transitivity));
    let a = push_opt(a, row_for(multi, sel, "反身"@, g.reflexive));
    let a = push_opt(a, row_for(multi, sel, "助动词"@, join(g.auxiliaries, slash())));
    let a = push_opt(a, row_for(multi, sel, "现在时第三人称单数"@, g.present_3sg));
    let a = push_opt(a, row_for(multi, sel, "过去时第三人称单数"@, g.preterite_3sg));
    let a = push_opt(a, row_for(multi, sel, "第二分词"@, g.partizip_ii));
    let a = push_opt(a, row_for(multi, sel, "比较级"@, g.comparative));
    let a = push_opt(a, row_for(multi, sel, "最高级"@, g.superlative));
    let a = push_opt(a, row_for(multi, sel, "支配格"@, join(g.governs_cases, slash())));
    push_opt(a, row_for(multi, sel, "语序"@, g.word_order))
}

pub open spec fn stage1_rows_upto(es: Seq<GrammarBranchV>, multi: bool) -> Seq<GrammarRowV>
    decreases es.len(),
{
    if es.len() == 0 {
        Seq::empty()
    } else {
        entry_rows(stage1_rows_upto(es.drop_last(), multi), multi, es.last())
    }
}

/// The grammar rows of all entries; keys carry the entry's name when there
/// is more than one entry.
pub open spec fn stage1_rows(es: Seq<GrammarBranchV>) -> Seq<GrammarRowV> {
    stage1_rows_upto(es, es.len() > 1)
}

fn push_grammar_row(
    rows: &mut Vec<StructuredGrammarRow>,
    multi: bool,
    selector: &Vec<char>,
    label: &str,
    value: &Vec<char>,
)
    ensures
        row_views(final(rows)@) == push_opt(row_views(old(rows)@), row_for(multi, selector@, label@, value@)),
{
    let v = trim_exec(value);
    if v.len() == 0 {
        return;
    }
    let key = if multi {
        let mut k = slice_of(selector, 0, selector.len());
        extend_str(&mut k, " / ");
        extend_str(&mut k, label);
        assert(k@ =~= selector@ + " / "@ + label@);
        string_of(&k)
    } else {
        let l = chars_of(label);
        string_of(&l)
    };
    let ghost before = row_views(rows@);
    let row = StructuredGrammarRow { key, value: string_of(&v) };
    let ghost rv = row@;
    rows.push(row);
    assert(row_views(rows@) =~= before.push(rv));
}

fn join_slash(v: &Vec<String>) -> (r: Vec<char>)
    ensures
        r@ == join(strs(v@), slash()),
{
    let parts = chars_of_all(v);
    let sep = vec!['/'];
    assert(sep@ =~= slash());
    assert(str_views(v@) =~= strs(v@));
    join_exec(&parts, &sep)
}

fn copy_chars(s: &String) -> (r: Vec<char>)
    ensures
        r@ == s@,
{
    chars_of(s.as_str())
}

fn grammar_rows_from_stage1(out: &ModelAOutput) -> (r: Vec<StructuredGrammarRow>)
    ensures
        row_views(r@) == stage1_rows(entry_views(out.entries@)),
{
    let ghost es = entry_views(out.entries@);
    let multi = out.entries.len() > 1;
    let mut rows: Vec<StructuredGrammarRow> = Vec::new();
    let mut i: usize = 0;
    while i < out.entries.len()
        invariant
            0 <= i <= out.entries@.len(),
            es == entry_views(out.entries@),
            multi == (es.len() > 1),
            row_views(rows@) == stage1_rows_upto(es.take(i as int), multi),
        decreases out.entries@.len() - i,
    {
        assert(es.take(i + 1).drop_last() =~= es.take(i as int));
        assert(es.take(i + 1).last() == out.entries@[i as int]@);
        let e = &out.entries[i];
        let g = &e.grammar;
        let sel = display_selector_exec(e);
        push_grammar_row(&mut rows, multi, &sel, "词性", &sel);
        push_grammar_row(&mut rows, multi, &sel, "性", &join_slash(&g.genders));
        push_grammar_row(&mut rows, multi, &sel, "名词变化", &copy_chars(&g.noun_class));
        push_grammar_row(&mut rows, multi, &sel, "复数", &join_slash(&g.plural_forms));
        push_grammar_row(&mut rows, multi, &sel, "第二格", &join_slash(&g.genitive_forms));
        push_grammar_row(&mut rows, multi, &sel, "可分性", &copy_chars(&g.separable));
        push_grammar_row(&mut rows, multi, &sel, "及物性", &copy_chars(&g.transitivity));
        push_grammar_row(&mut rows, multi, &sel, "反身", &copy_chars(&g.reflexive));
        push_grammar_row(&mut rows, multi, &sel, "助动词", &join_slash(&g.auxiliaries));
        push_grammar_row(&mut rows, multi, &sel, "现在时第三人称单数", &copy_chars(&g.present_3sg));
        push_grammar_row(&mut rows, multi, &sel, "过去时第三人称单数", &copy_chars(&g.preterite_3sg));
        push_grammar_row(&mut rows, multi, &sel, "第二分词", &copy_chars(&g.partizip_ii));
        push_grammar_row(&mut rows, multi, &sel, "比较级", &copy_chars(&g.comparative));
        push_grammar_row(&mut rows, multi, &sel, "最高级", &copy_chars(&g.superlative));
        push_grammar_row(&mut rows, multi, &sel, "支配格", &join_slash(&g.governs_cases));
        push_grammar_row(&mut rows, multi, &sel, "语序", &copy_chars(&g.word_order));
        i = i + 1;
    }
    assert(es.take(es.len() as int) =~= es);
    rows
}

// ---------------------------------------------------------------------------
// Grammar branches
// ---------------------------------------------------------------------------

/// The branch an entry gives: its name, its trimmed part of speech, its
/// meanings that say something, and its grammar.
pub open spec fn stage1_branch(e: GrammarBranchV) -> GrammarBranchV {
    GrammarBranchV {
        selector: display_selector(e),
        pos: trim(e.pos),
        meanings: norm_branch_meanings(e.meanings),
        grammar: e.grammar,
    }
}

pub open spec fn branch_has_content(b: GrammarBranchV) -> bool {
    b.selector.len() > 0 || b.pos.len() > 0 || b.meanings.len() > 0 || grammar_has_content(b.grammar)
}

/// The branches of the entries that have content.
pub open spec fn stage1_branches(es: Seq<GrammarBranchV>) -> Seq<GrammarBranchV>
    decreases es.len(),
{
    if es.len() == 0 {
        Seq::empty()
    } else {
        let b = stage1_branch(es.last());
        if branch_has_content(b) {
            stage1_branches(es.drop_last()).push(b)
        } else {
            stage1_branches(es.drop_last())
        }
    }
}

fn has_non_empty_branch_grammar(g: &crate::models::StructuredBranchGrammar) -> (r: bool)
    ensures
        r == grammar_has_content(g@),
{
    g.genders.len() > 0 || !g.noun_class.as_str().is_empty() || g.plural_forms.len() > 0
        || g.genitive_forms.len() > 0 || !g.separable.as_str().is_empty()
        || !g.transitivity.as_str().is_empty() || !g.reflexive.as_str().is_empty()
        || g.auxiliaries.len() > 0 || !g.present_3sg.as_str().is_empty()
        || !g.preterite_3sg.as_str().is_empty() || !g.partizip_ii.as_str().is_empty()
        || !g.comparative.as_str().is_empty() || !g.superlative.as_str().is_empty()
        || g.governs_cases.len() > 0 || !g.word_order.as_str().is_empty()
}

fn grammar_branches_from_stage1(out: &ModelAOutput) -> (r: Vec<StructuredGrammarBranch>)
    ensures
        branch_views(r@) == stage1_branches(entry_views(out.entries@)),
{
    let ghost es = entry_views(out.entries@);
    let mut r: Vec<StructuredGrammarBranch> = Vec::new();
    let mut i: usize = 0;
    while i < out.entries.len()
        invariant
            0 <= i <= out.entries@.len(),
            es == entry_views(out.entries@),
            branch_views(r@) == stage1_branches(es.take(i as int)),
        decreases out.entries@.len() - i,
    {
        assert(es.take(i + 1).drop_last() =~= es.take(i as int));
        assert(es.take(i + 1).last() == out.entries@[i as int]@);
        let e = &out.entries[i];
        let sel = display_selector_exec(e);
        let b = StructuredGrammarBranch {
            selector: string_of(&sel),
            pos: trim_str(e.pos.as_str()),
            meanings: crate::model_a::normalize_branch_meanings(&e.meanings),
            grammar: e.grammar.to_branch_grammar(),
        };
        assert(b@ =~= stage1_branch(e@));
        if !b.selector.as_str().is_empty() || !b.pos.as_str().is_empty() || b.meanings.len() > 0
            || has_non_empty_branch_grammar(&b.grammar) {
            let ghost before = branch_views(r@);
            let ghost bv = b@;
            r.push(b);
            assert(branch_views(r@) =~= before.push(bv));
        }
        i = i + 1;
    }
    assert(es.take(es.len() as int) =~= es);
    r
}

// ---------------------------------------------------------------------------
// The pronunciation from the dictionary facts
// ---------------------------------------------------------------------------

/// The first non-blank string among the values from index `i` on, trimmed.
pub open spec fn first_ipa_from(ipas: Seq<JsonValue>, i: int) -> Option<Seq<char>>
    decreases ipas.len() - i,
{
    if i < 0 || i >= ipas.len() {
        None
    } else {
        match ipas[i] {
            JsonValue::Str(s) => if trim(s@).len() > 0 {
                Some(trim(s@))
            } else {
                first_ipa_from(ipas, i + 1)
            },
            _ => first_ipa_from(ipas, i + 1),
        }
    }
}

/// The `ipas` array of a dictionary row; empty when it has none.
pub open spec fn row_ipas(row: JsonValue) -> Seq<JsonValue> {
    match json_get(row, "ipas"@) {
        Some(JsonValue::Array(xs)) => xs@,
        _ => Seq::empty(),
    }
}

/// The first pronunciation of the rows from index `i` on.
pub open spec fn first_ipa_rows(rows: Seq<JsonValue>, i: int) -> Option<Seq<char>>
    decreases rows.len() - i,
{
    if i < 0 || i >= rows.len() {
        None
    } else {
        match first_ipa_from(row_ipas(rows[i]), 0) {
            Some(x) => Some(x),
            None => first_ipa_rows(rows, i + 1),
        }
    }
}

/// The first pronunciation the facts' dictionary rows give.
pub open spec fn facts_first_ipa(facts: JsonValue) -> Option<Seq<char>> {
    match json_get(facts, "dictionary_rows"@) {
        Some(JsonValue::Array(rows)) => first_ipa_rows(rows@, 0),
        _ => None,
    }
}

fn first_ipa_in(ipas: &Vec<JsonValue>) -> (r: Option<String>)
    ensures
        r matches Some(x) ==> first_ipa_from(ipas@, 0) == Some(x@),
        r is None ==> first_ipa_from(ipas@, 0) is None,
{
    let mut i: usize = 0;
    while i < ipas.len()
        invariant
            0 <= i <= ipas@.len(),
            first_ipa_from(ipas@, 0) == first_ipa_from(ipas@, i as int),
        decreases ipas@.len() - i,
    {
        match ipas[i].as_str() {
            Some(s) => {
                let t = trim_str(s);
                if !t.as_str().is_empty() {
                    return Some(t);
                }
            },
            None => {},
        }
        i = i + 1;
    }
    None
}

/// The first non-blank pronunciation in the `ipas` of the facts' dictionary
/// rows, trimmed.
pub fn first_ipa_from_dictionary_facts(dictionary_facts: Option<&JsonValue>) -> (r: Option<String>)
    ensures
        dictionary_facts is None ==> r is None,
        dictionary_facts matches Some(f) ==> (match facts_first_ipa(*f) {
            Some(x) => r matches Some(y) && y@ == x,
            None => r is None,
        }),
{
    let facts = match dictionary_facts {
        None => {
            return None;
        },
        Some(f) => f,
    };
    let rows = match facts.get("dictionary_rows") {
        Some(v) => match v.as_array() {
            Some(rows) => rows,
            None => {
                return None;
            },
        },
        None => {
            return None;
        },
    };
    let mut i: usize = 0;
    while i < rows.len()
        invariant
            0 <= i <= rows@.len(),
            facts_first_ipa(*facts) == first_ipa_rows(rows@, i as int),
            dictionary_facts == Some(facts),
        decreases rows@.len() - i,
    {
        let row = &rows[i];
        let found = match row.get("ipas") {
            Some(v) => match v.as_array() {
                Some(ipas) => {
                    assert(row_ipas(rows@[i as int]) == ipas@);
                    first_ipa_in(ipas)
                },
                None => {
                    assert(row_ipas(rows@[i as int]) =~= Seq::<JsonValue>::empty());
                    None
                },
            },
            None => {
                assert(row_ipas(rows@[i as int]) =~= Seq::<JsonValue>::empty());
                None
            },
        };
        if let Some(x) = found {
            return Some(x);
        }
        i = i + 1;
    }
    None
}

// ---------------------------------------------------------------------------
// The grounded document
// ---------------------------------------------------------------------------

/// The module document with the trimmed word as headword, the first
/// pronunciation of the facts (or none), and the meanings, grammar rows and
/// grammar branches of the first stage.
pub open spec fn grounded_doc(
    word: Seq<char>,
    phonetic: Seq<char>,
    es: Seq<GrammarBranchV>,
    module: DocumentV,
) -> DocumentV {
    DocumentV {
        headword: trim(word),
        phonetic,
        meanings: stage1_meanings(es),
        grammar_rows: stage1_rows(es),
        grammar_branches: stage1_branches(es),
        ..module
    }
}

pub fn assemble_grounded_structured_document(
    word: &str,
    dictionary_facts: Option<&JsonValue>,
    stage1_output: &ModelAOutput,
    module_document: StructuredAnalysisDocument,
) -> (r: StructuredAnalysisDocument)
    ensures
        r@ == grounded_doc(
            word@,
            match dictionary_facts {
                Some(f) => match facts_first_ipa(*f) {
                    Some(x) => x,
                    None => Seq::empty(),
                },
                None => Seq::empty(),
            },
            entry_views(stage1_output.entries@),
            module_document@,
        ),
{
    let ghost mv = module_document@;
    let phonetic = match first_ipa_from_dictionary_facts(dictionary_facts) {
        Some(p) => p,
        None => String::new(),
    };
    let mut doc = module_document;
    doc.headword = trim_str(word);
    doc.phonetic = phonetic;
    doc.meanings = meanings_from_stage1(stage1_output);
    doc.grammar_rows = grammar_rows_from_stage1(stage1_output);
    doc.grammar_branches = grammar_branches_from_stage1(stage1_output);
    doc
}

} // verus!
