//! The prompts and user payloads sent to the analysis models.

use vstd::prelude::*;
use crate::text::{
    chars_of, chars_of_all, decimal, decimal_exec, extend, extend_str, join, join_exec, replace,
    replace_exec, str_views, string_of, trim, trim_exec, views,
};
use crate::models::{strs, BranchMeaningV, GrammarBranchV};
use crate::model_a::{entry_views, ModelAEntry, ModelAOutput};

verus! {

/// The prompts configured for the analysis models; a blank one means the
/// built-in default.
pub struct PromptConfig {
    pub model_a_prompt: String,
    pub stage2_prompt: String,
    pub structure_prompt: String,
}

/// The configured prompt, trimmed, or the trimmed default when it is blank.
pub open spec fn prompt_or_default(configured: Seq<char>, default_prompt: Seq<char>) -> Seq<char> {
    if trim(configured).len() == 0 {
        trim(default_prompt)
    } else {
        trim(configured)
    }
}

fn prompt_or_default_exec(configured: &str, default_prompt: &str) -> (r: Vec<char>)
    ensures
        r@ == prompt_or_default(configured@, default_prompt@),
{
    let c = chars_of(configured);
    let t = trim_exec(&c);
    if t.len() == 0 {
        let d = chars_of(default_prompt);
        trim_exec(&d)
    } else {
        t
    }
}

/// The JSON shape the first-stage model is asked to answer in.
pub open spec fn model_a_schema() -> Seq<char> {
    "{\n  \"word\": \"\",\n  \"entries\": [\n    {\n      \"selector\": \"\",\n      \"pos\": \"\",\n      \"meanings\": [{\"zh\": \"\", \"en\": \"\"}],\n      \"grammar\": {\n        \"genders\": [\"\"],\n        \"noun_class\": \"\",\n        \"plural_forms\": [\"\"],\n        \"genitive_forms\": [\"\"],\n        \"separable\": \"\",\n        \"transitivity\": \"\",\n        \"reflexive\": \"\",\n        \"auxiliaries\": [\"\"],\n        \"present_3sg\": \"\",\n        \"preterite_3sg\": \"\",\n        \"partizip_ii\": \"\",\n        \"comparative\": \"\",\n        \"superlative\": \"\",\n        \"governs_cases\": [\"\"],\n        \"word_order\": \"\"\n      }\n    }\n  ]\n}"@
}

fn model_a_schema_block() -> (r: Vec<char>)
    ensures
        r@ == model_a_schema(),
{
    chars_of(
        "{\n  \"word\": \"\",\n  \"entries\": [\n    {\n      \"selector\": \"\",\n      \"pos\": \"\",\n      \"meanings\": [{\"zh\": \"\", \"en\": \"\"}],\n      \"grammar\": {\n        \"genders\": [\"\"],\n        \"noun_class\": \"\",\n        \"plural_forms\": [\"\"],\n        \"genitive_forms\": [\"\"],\n        \"separable\": \"\",\n        \"transitivity\": \"\",\n        \"reflexive\": \"\",\n        \"auxiliaries\": [\"\"],\n        \"present_3sg\": \"\",\n        \"preterite_3sg\": \"\",\n        \"partizip_ii\": \"\",\n        \"comparative\": \"\",\n        \"superlative\": \"\",\n        \"governs_cases\": [\"\"],\n        \"word_order\": \"\"\n      }\n    }\n  ]\n}",
    )
}

/// The first-stage system prompt: the configured (or default) prompt with
/// its schema placeholder filled in.
pub fn build_model_a_prompt(prompts: &PromptConfig, default_prompt: &str) -> (r: String)
    ensures
        r@ == replace(
            prompt_or_default(prompts.model_a_prompt@, default_prompt@),
            "{model_a_schema}"@,
            model_a_schema(),
        ),
{
    let p = prompt_or_default_exec(prompts.model_a_prompt.as_str(), default_prompt);
    let pat = chars_of("{model_a_schema}");
    proof {
        reveal_strlit("{model_a_schema}");
    }
    let schema = model_a_schema_block();
    let out = replace_exec(&p, &pat, &schema);
    string_of(&out)
}

/// The facts, or `{}` without them.
pub open spec fn facts_or_empty(facts: Option<Seq<char>>) -> Seq<char> {
    match facts {
        Some(f) => f,
        None => "{}"@,
    }
}

pub open spec fn model_a_payload(word: Seq<char>, facts: Option<Seq<char>>) -> Seq<char> {
    "查询词："@ + word + "\n\n--- Dictionary Facts JSON ---\n"@ + facts_or_empty(facts)
}

/// The first-stage user message: the word and the dictionary facts.
pub fn build_model_a_user_payload(word: &str, dictionary_facts: Option<&str>) -> (r: String)
    ensures
        r@ == model_a_payload(
            word@,
            match dictionary_facts {
                Some(f) => Some(f@),
                None => None,
            },
        ),
{
    let mut v = chars_of("查询词：");
    extend_str(&mut v, word);
    extend_str(&mut v, "\n\n--- Dictionary Facts JSON ---\n");
    match dictionary_facts {
        Some(f) => extend_str(&mut v, f),
        None => extend_str(&mut v, "{}"),
    }
    string_of(&v)
}

/// The second-stage system prompt.
pub fn build_stage2_prompt(prompts: &PromptConfig, default_prompt: &str) -> (r: String)
    ensures
        r@ == prompt_or_default(prompts.stage2_prompt@, default_prompt@),
{
    let p = prompt_or_default_exec(prompts.stage2_prompt.as_str(), default_prompt);
    string_of(&p)
}

/// The structuring system prompt.
pub fn build_structure_prompt(prompts: &PromptConfig, default_prompt: &str) -> (r: String)
    ensures
        r@ == prompt_or_default(prompts.structure_prompt@, default_prompt@),
{
    let p = prompt_or_default_exec(prompts.structure_prompt.as_str(), default_prompt);
    string_of(&p)
}

// ---------------------------------------------------------------------------
// The branch skeleton shown to the second stage
// ---------------------------------------------------------------------------

/// A meaning as `zh (en)`, or whichever side is given.
pub open spec fn meaning_text(m: BranchMeaningV) -> Seq<char> {
    let zh = trim(m.zh);
    let en = trim(m.en);
    if zh.len() == 0 && en.len() == 0 {
        Seq::empty()
    } else if en.len() == 0 {
        zh
    } else if zh.len() == 0 {
        en
    } else {
        zh + " ("@ + en + ")"@
    }
}

pub open spec fn meaning_texts(ms: Seq<BranchMeaningV>) -> Seq<Seq<char>>
    decreases ms.len(),
{
    if ms.len() == 0 {
        Seq::empty()
    } else {
        let t = meaning_text(ms.last());
        if t.len() > 0 {
            meaning_texts(ms.drop_last()).push(t)
        } else {
            meaning_texts(ms.drop_last())
        }
    }
}

/// `label` + value, when the value is given.
pub open spec fn bit(label: Seq<char>, v: Seq<char>) -> Seq<Seq<char>> {
    if v.len() > 0 {
        seq![label + v]
    } else {
        Seq::empty()
    }
}

/// The grammar facts that bound a branch.
pub open spec fn grammar_bits(g: crate::models::BranchGrammarV) -> Seq<Seq<char>> {
    bit("separable="@, g.separable) + bit("transitivity="@, g.transitivity) + bit(
        "reflexive="@,
        g.reflexive,
    ) + (if g.governs_cases.len() > 0 {
        seq!["cases="@ + join(g.governs_cases, "/"@)]
    } else {
        Seq::empty()
    }) + bit("present_3sg="@, g.present_3sg) + bit("preterite_3sg="@, g.preterite_3sg) + bit(
        "partizip_ii="@,
        g.partizip_ii,
    )
}

/// The skeleton line of the entry at index `i`: the first entry is the core
/// one and also shows its grammar.
pub open spec fn entry_line(i: nat, e: GrammarBranchV) -> Seq<char> {
    let meanings = join(meaning_texts(e.meanings), "；"@);
    let bits = join(grammar_bits(e.grammar), ", "@);
    decimal(i + 1) + ". ["@ + (if i == 0 {
        "core"@
    } else {
        "secondary"@
    }) + "] selector="@ + e.selector + "; pos="@ + e.pos + "; meanings="@ + (if meanings.len() == 0 {
        "（空）"@
    } else {
        meanings
    }) + (if i == 0 && bits.len() > 0 {
        "; grammar: "@ + bits
    } else {
        Seq::empty()
    })
}

/// The four lines that introduce the skeleton.
pub open spec fn skeleton_header() -> Seq<Seq<char>> {
    seq![
        "下面是本轮输入的 Branch Skeleton。"@,
        "它的作用是防止你越界，不是要求你在 usage_modules 中给每个 branch 都分配名额。"@,
        "默认把靠前的 branch 视为更核心、更常用；靠后的 branch 可以只由释义/语法层承接，不必单独展开成 usage module。"@,
        "如果 secondary branch 只是补充性的分词形容词、书面义、军事义或边缘义，不要因为它单独成条就默认展开成 usage module。"@,
    ]
}

pub open spec fn skeleton_lines(es: Seq<GrammarBranchV>) -> Seq<Seq<char>>
    decreases es.len(),
{
    if es.len() == 0 {
        skeleton_header()
    } else {
        skeleton_lines(es.drop_last()).push(entry_line((es.len() - 1) as nat, es.last()))
    }
}

/// The branch skeleton of the first stage, one line per entry.
pub open spec fn stage1_summary(es: Seq<GrammarBranchV>) -> Seq<char> {
    if es.len() == 0 {
        "无稳定 branch 参考。"@
    } else {
        join(skeleton_lines(es), "\n"@)
    }
}

fn meanings_line(ms: &Vec<crate::models::StructuredBranchMeaning>) -> (r: Vec<char>)
    ensures
        r@ == join(meaning_texts(crate::model_a::branch_meaning_views(ms@)), "；"@),
{
    let ghost mv = crate::model_a::branch_meaning_views(ms@);
    let mut texts: Vec<Vec<char>> = Vec::new();
    let mut i: usize = 0;
    while i < ms.len()
        invariant
            0 <= i <= ms@.len(),
            mv == crate::model_a::branch_meaning_views(ms@),
            views(texts@) == meaning_texts(mv.take(i as int)),
        decreases ms@.len() - i,
    {
        assert(mv.take(i + 1).drop_last() =~= mv.take(i as int));
        assert(mv.take(i + 1).last() == ms@[i as int]@);
        let zc = chars_of(ms[i].zh.as_str());
        let ec = chars_of(ms[i].en.as_str());
        let zh = trim_exec(&zc);
        let en = trim_exec(&ec);
        let t = if zh.len() == 0 && en.len() == 0 {
            Vec::new()
        } else if en.len() == 0 {
            zh
        } else if zh.len() == 0 {
            en
        } else {
            let mut t = zh;
            extend_str(&mut t, " (");
            extend(&mut t, &en);
            extend_str(&mut t, ")");
            t
        };
        if t.len() > 0 {
            let ghost before = views(texts@);
            let ghost tv = t@;
            texts.push(t);
            assert(views(texts@) =~= before.push(tv));
        }
        i = i + 1;
    }
    assert(mv.take(mv.len() as int) =~= mv);
    let sep = chars_of("；");
    join_exec(&texts, &sep)
}

fn push_bit(bits: &mut Vec<Vec<char>>, label: &str, v: &String)
    ensures
        views(final(bits)@) == views(old(bits)@) + bit(label@, v@),
{
    let ghost before = views(bits@);
    if !v.as_str().is_empty() {
        let mut b = chars_of(label);
        extend_str(&mut b, v.as_str());
        let ghost bv = b@;
        bits.push(b);
        assert(views(bits@) =~= before + seq![bv]);
    } else {
        assert(views(bits@) =~= before + Seq::<Seq<char>>::empty());
    }
}

fn grammar_line(g: &crate::model_a::ModelAGrammar) -> (r: Vec<char>)
    ensures
        r@ == join(grammar_bits(g@), ", "@),
{
    let mut bits: Vec<Vec<char>> = Vec::new();
    assert(views(bits@) =~= Seq::<Seq<char>>::empty());
    push_bit(&mut bits, "separable=", &g.separable);
    push_bit(&mut bits, "transitivity=", &g.transitivity);
    push_bit(&mut bits, "reflexive=", &g.reflexive);
    let ghost before = views(bits@);
    if g.governs_cases.len() > 0 {
        let mut b = chars_of("cases=");
        let parts = chars_of_all(&g.governs_cases);
        assert(str_views(g.governs_cases@) =~= strs(g.governs_cases@));
        let sep = chars_of("/");
        let j = join_exec(&parts, &sep);
        extend(&mut b, &j);
        let ghost bv = b@;
        bits.push(b);
        assert(views(bits@) =~= before + seq![bv]);
    } else {
        assert(views(bits@) =~= before + Seq::<Seq<char>>::empty());
    }
    push_bit(&mut bits, "present_3sg=", &g.present_3sg);
    push_bit(&mut bits, "preterite_3sg=", &g.preterite_3sg);
    push_bit(&mut bits, "partizip_ii=", &g.partizip_ii);
    assert(views(bits@) =~= grammar_bits(g@));
    let sep = chars_of(", ");
    join_exec(&bits, &sep)
}

fn entry_line_exec(i: usize, e: &ModelAEntry) -> (r: Vec<char>)
    requires
        i < usize::MAX,
    ensures
        r@ == entry_line(i as nat, e@),
{
    let meanings = meanings_line(&e.meanings);
    let bits = grammar_line(&e.grammar);
    let mut v = decimal_exec(i + 1);
    extend_str(&mut v, ". [");
    if i == 0 {
        extend_str(&mut v, "core");
    } else {
        extend_str(&mut v, "secondary");
    }
    extend_str(&mut v, "] selector=");
    extend_str(&mut v, e.selector.as_str());
    extend_str(&mut v, "; pos=");
    extend_str(&mut v, e.pos.as_str());
    extend_str(&mut v, "; meanings=");
    if meanings.len() == 0 {
        extend_str(&mut v, "（空）");
    } else {
        extend(&mut v, &meanings);
    }
    if i == 0 && bits.len() > 0 {
        extend_str(&mut v, "; grammar: ");
        extend(&mut v, &bits);
    }
    v
}

pub fn render_stage1_boundary_summary(stage1_output: &ModelAOutput) -> (r: String)
    ensures
        r@ == stage1_summary(entry_views(stage1_output.entries@)),
{
    let es = &stage1_output.entries;
    let ghost ev = entry_views(es@);
    if es.len() == 0 {
        return crate::text::owned("无稳定 branch 参考。");
    }
    let mut ls: Vec<Vec<char>> = vec![
        chars_of("下面是本轮输入的 Branch Skeleton。"),
        chars_of("它的作用是防止你越界，不是要求你在 usage_modules 中给每个 branch 都分配名额。"),
        chars_of("默认把靠前的 branch 视为更核心、更常用；靠后的 branch 可以只由释义/语法层承接，不必单独展开成 usage module。"),
        chars_of("如果 secondary branch 只是补充性的分词形容词、书面义、军事义或边缘义，不要因为它单独成条就默认展开成 usage module。"),
    ];
    assert(views(ls@) =~= skeleton_header());
    let mut i: usize = 0;
    while i < es.len()
        invariant
            0 <= i <= es@.len(),
            ev == entry_views(es@),
            views(ls@) == skeleton_lines(ev.take(i as int)),
        decreases es@.len() - i,
    {
        assert(ev.take(i + 1).drop_last() =~= ev.take(i as int));
        assert(ev.take(i + 1).last() == es@[i as int]@);
        let line = entry_line_exec(i, &es[i]);
        let ghost before = views(ls@);
        let ghost lv = line@;
        ls.push(line);
        assert(views(ls@) =~= before.push(lv));
        i = i + 1;
    }
    assert(ev.take(ev.len() as int) =~= ev);
    let nl = chars_of("\n");
    let j = join_exec(&ls, &nl);
    string_of(&j)
}

pub open spec fn stage2_payload(word: Seq<char>, facts: Option<Seq<char>>, es: Seq<GrammarBranchV>) -> Seq<char> {
    "查询词："@ + word + "\n\n--- Dictionary Facts JSON ---\n"@ + facts_or_empty(facts)
        + "\n\n--- Branch Skeleton Reference ---\n"@ + stage1_summary(es)
}

/// The second-stage user message: the word, the dictionary facts and the
/// branch skeleton of the first stage.
pub fn build_stage2_user_payload(
    word: &str,
    dictionary_facts: Option<&str>,
    stage1_output: &ModelAOutput,
) -> (r: String)
    ensures
        r@ == stage2_payload(
            word@,
            match dictionary_facts {
                Some(f) => Some(f@),
                None => None,
            },
            entry_views(stage1_output.entries@),
        ),
{
    let summary = render_stage1_boundary_summary(stage1_output);
    let mut v = chars_of("查询词：");
    extend_str(&mut v, word);
    extend_str(&mut v, "\n\n--- Dictionary Facts JSON ---\n");
    match dictionary_facts {
        Some(f) => extend_str(&mut v, f),
        None => extend_str(&mut v, "{}"),
    }
    extend_str(&mut v, "\n\n--- Branch Skeleton Reference ---\n");
    extend_str(&mut v, summary.as_str());
    string_of(&v)
}

} // verus!
