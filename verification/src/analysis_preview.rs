//! A one-line preview of an analysis for suggestion lists.

use vstd::prelude::*;
use crate::text::{
    ascii_lower, ascii_lower_exec, chars_of, chars_of_all, contains, contains_exec, extend,
    extend_str, is_whitespace, is_ws, join, join_exec, lines, lines_exec, pieces, pieces_exec,
    same, slice_of, starts_with, starts_with_exec, string_of, trim, trim_exec, views,
};
use crate::models::{
    branch_views, strs, GrammarBranchV, StructuredAnalysisDocument, StructuredGrammarBranch,
    DocumentV,
};
use crate::model_a::dedupe_exact;
use crate::follow_up::{strip_prefixes, strip_prefixes_exec};
use crate::follow_up_answer::truncated;

verus! {

// ---------------------------------------------------------------------------
// Short labels
// ---------------------------------------------------------------------------

/// A short part-of-speech label; the fallback stands in for a blank `pos`.
pub open spec fn compact_pos_of(pos: Seq<char>, fallback: Seq<char>) -> Seq<char> {
    let source = if trim(pos).len() == 0 {
        fallback
    } else {
        pos
    };
    let l = ascii_lower(source);
    if l == "v."@ || l == "verb"@ {
        "v."@
    } else if l == "adv."@ || l == "adverb"@ || contains(l, "adverb"@) {
        "adv."@
    } else if contains(l, "verb"@) {
        "v."@
    } else if contains(l, "noun"@) || contains(l, "substantiv"@) || contains(l, "nomen"@) {
        "n."@
    } else if contains(l, "adjective"@) || contains(l, "adjektiv"@) {
        "adj."@
    } else if contains(l, "preposition"@) || contains(l, "präposition"@) {
        "prep."@
    } else if contains(l, "conjunction"@) || contains(l, "konjunktion"@) || contains(
        l,
        "subjunktion"@,
    ) {
        "conj."@
    } else if contains(l, "pronoun"@) || contains(l, "pronomen"@) {
        "pron."@
    } else if contains(l, "article"@) || contains(l, "artikel"@) {
        "art."@
    } else if trim(source).len() == 0 {
        "?"@
    } else {
        trim(source)
    }
}

fn lit(v: &Vec<char>, s: &str) -> (r: bool)
    ensures
        r == (v@ == s@),
{
    same(v, &chars_of(s))
}

fn has(v: &Vec<char>, s: &str) -> (r: bool)
    ensures
        r == contains(v@, s@),
{
    contains_exec(v, &chars_of(s))
}

pub fn compact_pos(pos: &str, fallback: &str) -> (r: String)
    ensures
        r@ == compact_pos_of(pos@, fallback@),
{
    let p = chars_of(pos);
    let source = if trim_exec(&p).len() == 0 {
        chars_of(fallback)
    } else {
        p
    };
    let l = ascii_lower_exec(&source);
    let out = if lit(&l, "v.") || lit(&l, "verb") {
        chars_of("v.")
    } else if lit(&l, "adv.") || lit(&l, "adverb") || has(&l, "adverb") {
        chars_of("adv.")
    } else if has(&l, "verb") {
        chars_of("v.")
    } else if has(&l, "noun") || has(&l, "substantiv") || has(&l, "nomen") {
        chars_of("n.")
    } else if has(&l, "adjective") || has(&l, "adjektiv") {
        chars_of("adj.")
    } else if has(&l, "preposition") || has(&l, "präposition") {
        chars_of("prep.")
    } else if has(&l, "conjunction") || has(&l, "konjunktion") || has(&l, "subjunktion") {
        chars_of("conj.")
    } else if has(&l, "pronoun") || has(&l, "pronomen") {
        chars_of("pron.")
    } else if has(&l, "article") || has(&l, "artikel") {
        chars_of("art.")
    } else {
        let t = trim_exec(&source);
        if t.len() == 0 {
            chars_of("?")
        } else {
            t
        }
    };
    string_of(&out)
}

/// A short gender label.
pub open spec fn compact_gender_of(v: Seq<char>) -> Option<Seq<char>> {
    let l = ascii_lower(trim(v));
    if l == "masculine"@ || l == "maskulin"@ || l == "m"@ || l == "阳性"@ {
        Some("m."@)
    } else if l == "feminine"@ || l == "feminin"@ || l == "f"@ || l == "阴性"@ {
        Some("f."@)
    } else if l == "neuter"@ || l == "neutrum"@ || l == "n"@ || l == "中性"@ {
        Some("n."@)
    } else if l == "plural"@ || l == "pluralia tantum"@ || l == "pl"@ || l == "复数"@ {
        Some("pl."@)
    } else {
        None
    }
}

pub fn compact_gender(value: &str) -> (r: Option<&'static str>)
    ensures
        r matches Some(x) ==> compact_gender_of(value@) == Some(x@),
        r is None ==> compact_gender_of(value@) is None,
{
    let c = chars_of(value);
    let t = trim_exec(&c);
    let l = ascii_lower_exec(&t);
    if lit(&l, "masculine") || lit(&l, "maskulin") || lit(&l, "m") || lit(&l, "阳性") {
        Some("m.")
    } else if lit(&l, "feminine") || lit(&l, "feminin") || lit(&l, "f") || lit(&l, "阴性") {
        Some("f.")
    } else if lit(&l, "neuter") || lit(&l, "neutrum") || lit(&l, "n") || lit(&l, "中性") {
        Some("n.")
    } else if lit(&l, "plural") || lit(&l, "pluralia tantum") || lit(&l, "pl") || lit(&l, "复数") {
        Some("pl.")
    } else {
        None
    }
}

/// The first gender of the list that has a short label.
pub open spec fn first_gender_label(gs: Seq<Seq<char>>, i: int) -> Option<Seq<char>>
    decreases gs.len() - i,
{
    if i < 0 || i >= gs.len() {
        None
    } else {
        match compact_gender_of(gs[i]) {
            Some(g) => Some(g),
            None => first_gender_label(gs, i + 1),
        }
    }
}

/// The label of a branch: its short part of speech, with separability for
/// a verb or the gender for a noun.
pub open spec fn branch_label(b: GrammarBranchV) -> Seq<char> {
    let pos = compact_pos_of(b.pos, b.selector);
    let sep = ascii_lower(b.grammar.separable);
    if pos == "v."@ && (sep == "separable"@ || sep == "trennbar"@ || sep == "yes"@ || sep == "可分"@) {
        "v. sep."@
    } else if pos == "v."@ && (sep == "inseparable"@ || sep == "untrennbar"@ || sep == "no"@ || sep
        == "不可分"@) {
        "v. insep."@
    } else if pos == "n."@ && first_gender_label(b.grammar.genders, 0) is Some {
        "("@ + first_gender_label(b.grammar.genders, 0).unwrap() + ") n."@
    } else {
        pos
    }
}

pub fn compact_branch_label(branch: &StructuredGrammarBranch) -> (r: String)
    ensures
        r@ == branch_label(branch@),
{
    let pos = compact_pos(branch.pos.as_str(), branch.selector.as_str());
    let pv = chars_of(pos.as_str());
    proof {
        reveal_strlit("n.");
        reveal_strlit("v.");
    }
    if lit(&pv, "v.") {
        let s = chars_of(branch.grammar.separable.as_str());
        let sep = ascii_lower_exec(&s);
        if lit(&sep, "separable") || lit(&sep, "trennbar") || lit(&sep, "yes") || lit(&sep, "可分") {
            return crate::text::owned("v. sep.");
        }
        if lit(&sep, "inseparable") || lit(&sep, "untrennbar") || lit(&sep, "no") || lit(
            &sep,
            "不可分",
        ) {
            return crate::text::owned("v. insep.");
        }
    }
    if lit(&pv, "n.") {
        assert("n."@ != "v."@) by {
            reveal_strlit("n.");
            reveal_strlit("v.");
            assert("n."@[0] != "v."@[0]);
        }
        let gs = &branch.grammar.genders;
        let ghost gv = strs(gs@);
        let mut i: usize = 0;
        while i < gs.len()
            invariant
                0 <= i <= gs@.len(),
                gv == strs(gs@),
                gs == &branch.grammar.genders,
                pos@ == compact_pos_of(branch@.pos, branch@.selector),
                pos@ == "n."@,
                "n."@ != "v."@,
                first_gender_label(gv, 0) == first_gender_label(gv, i as int),
            decreases gs@.len() - i,
        {
            assert(gv[i as int] == gs@[i as int]@);
            match compact_gender(gs[i].as_str()) {
                Some(g) => {
                    let mut out = chars_of("(");
                    extend_str(&mut out, g);
                    extend_str(&mut out, ") n.");
                    return string_of(&out);
                },
                None => {},
            }
            i = i + 1;
        }
    }
    pos
}

/// What tells branches of the same part of speech apart.
pub open spec fn discriminant_of(b: GrammarBranchV) -> Seq<char> {
    let pos = compact_pos_of(b.pos, b.selector);
    if pos == "v."@ && trim(b.grammar.separable).len() > 0 {
        "separable:"@ + trim(b.grammar.separable)
    } else if pos == "n."@ && b.grammar.genders.len() > 0 {
        "gender:"@ + join(b.grammar.genders, "/"@)
    } else {
        trim(b.selector)
    }
}

pub fn branch_discriminant(branch: &StructuredGrammarBranch) -> (r: String)
    ensures
        r@ == discriminant_of(branch@),
{
    let pos = compact_pos(branch.pos.as_str(), branch.selector.as_str());
    let pv = chars_of(pos.as_str());
    let s = chars_of(branch.grammar.separable.as_str());
    let st = trim_exec(&s);
    if lit(&pv, "v.") && st.len() > 0 {
        let mut out = chars_of("separable:");
        extend(&mut out, &st);
        return string_of(&out);
    }
    if lit(&pv, "n.") && branch.grammar.genders.len() > 0 {
        let mut out = chars_of("gender:");
        let parts = chars_of_all(&branch.grammar.genders);
        assert(crate::text::str_views(branch.grammar.genders@) =~= strs(branch.grammar.genders@));
        let j = join_exec(&parts, &chars_of("/"));
        extend(&mut out, &j);
        return string_of(&out);
    }
    let sel = chars_of(branch.selector.as_str());
    string_of(&trim_exec(&sel))
}

/// The first non-blank Chinese meaning of a branch, trimmed.
pub open spec fn primary_meaning_from(ms: Seq<crate::models::BranchMeaningV>, i: int) -> Option<Seq<char>>
    decreases ms.len() - i,
{
    if i < 0 || i >= ms.len() {
        None
    } else if trim(ms[i].zh).len() > 0 {
        Some(trim(ms[i].zh))
    } else {
        primary_meaning_from(ms, i + 1)
    }
}

pub fn primary_branch_meaning(branch: &StructuredGrammarBranch) -> (r: Option<String>)
    ensures
        r matches Some(x) ==> primary_meaning_from(branch@.meanings, 0) == Some(x@),
        r is None ==> primary_meaning_from(branch@.meanings, 0) is None,
{
    let ms = &branch.meanings;
    let ghost mv = branch@.meanings;
    let mut i: usize = 0;
    while i < ms.len()
        invariant
            0 <= i <= ms@.len(),
            mv == branch@.meanings,
            mv.len() == ms@.len(),
            forall|k: int| 0 <= k < ms@.len() ==> mv[k] == ms@[k]@,
            primary_meaning_from(mv, 0) == primary_meaning_from(mv, i as int),
        decreases ms@.len() - i,
    {
        let z = chars_of(ms[i].zh.as_str());
        let t = trim_exec(&z);
        if t.len() > 0 {
            return Some(string_of(&t));
        }
        i = i + 1;
    }
    None
}

// ---------------------------------------------------------------------------
// Branch previews
// ---------------------------------------------------------------------------

/// The preview of one grammar branch.
pub struct BranchPreview {
    pub pos: String,
    pub label: String,
    pub meaning: String,
    pub discriminant: String,
}

#[verifier::ext_equal]
pub struct PreviewV {
    pub pos: Seq<char>,
    pub label: Seq<char>,
    pub meaning: Seq<char>,
    pub discriminant: Seq<char>,
}

impl View for BranchPreview {
    type V = PreviewV;

    open spec fn view(&self) -> PreviewV {
        PreviewV {
            pos: self.pos@,
            label: self.label@,
            meaning: self.meaning@,
            discriminant: self.discriminant@,
        }
    }
}

pub open spec fn preview_views(v: Seq<BranchPreview>) -> Seq<PreviewV> {
    v.map_values(|p: BranchPreview| p@)
}

/// The preview of a branch that has a Chinese meaning.
pub open spec fn preview_of(b: GrammarBranchV) -> Option<PreviewV> {
    match primary_meaning_from(b.meanings, 0) {
        Some(m) => Some(
            PreviewV {
                pos: compact_pos_of(b.pos, b.selector),
                label: branch_label(b),
                meaning: m,
                discriminant: discriminant_of(b),
            },
        ),
        None => None,
    }
}

pub open spec fn usable_previews(bs: Seq<GrammarBranchV>) -> Seq<PreviewV>
    decreases bs.len(),
{
    if bs.len() == 0 {
        Seq::empty()
    } else {
        match preview_of(bs.last()) {
            Some(p) => usable_previews(bs.drop_last()).push(p),
            None => usable_previews(bs.drop_last()),
        }
    }
}

/// Two neighbouring previews of the same part of speech that differ in what
/// tells them apart.
pub open spec fn distinct_discriminants(ps: Seq<PreviewV>) -> bool {
    exists|i: int|
        0 <= i && i + 1 < ps.len() && (#[trigger] ps[i]).pos == ps[i + 1].pos && ps[i].discriminant
            != ps[i + 1].discriminant
}

/// The separators between meanings.
pub open spec fn meaning_separators() -> Seq<char> {
    seq!['；', ';', '，', ',', '/']
}

pub open spec fn meaning_parts(m: Seq<char>) -> Seq<Seq<char>> {
    crate::text::non_empty(pieces(m, false, meaning_separators()).map_values(|p: Seq<char>| trim(p)))
}

/// The first three different parts of both meanings joined by `/`; the
/// first meaning when neither has a part.
pub open spec fn merged_meaning(t: Seq<char>, m: Seq<char>) -> Seq<char> {
    let parts = crate::follow_up_answer::first_n(dedupe_exact(meaning_parts(t) + meaning_parts(m)), 3);
    if parts.len() == 0 {
        t
    } else {
        join(parts, "/"@)
    }
}

/// The index of the first preview with the part of speech, from `i` on.
pub open spec fn pos_index(acc: Seq<PreviewV>, pos: Seq<char>, i: int) -> Option<int>
    decreases acc.len() - i,
{
    if i < 0 || i >= acc.len() {
        None
    } else if acc[i].pos == pos {
        Some(i)
    } else {
        pos_index(acc, pos, i + 1)
    }
}

pub open spec fn group_step(acc: Seq<PreviewV>, b: PreviewV) -> Seq<PreviewV> {
    match pos_index(acc, b.pos, 0) {
        Some(k) => acc.update(
            k,
            PreviewV {
                pos: acc[k].pos,
                label: acc[k].label,
                meaning: merged_meaning(acc[k].meaning, b.meaning),
                discriminant: acc[k].discriminant,
            },
        ),
        None => acc.push(b),
    }
}

/// One preview per part of speech, later meanings merged into the first.
pub open spec fn group_by_pos(ps: Seq<PreviewV>) -> Seq<PreviewV>
    decreases ps.len(),
{
    if ps.len() == 0 {
        Seq::empty()
    } else {
        group_step(group_by_pos(ps.drop_last()), ps.last())
    }
}

/// At most three previews: the branches as they are when neighbours of one
/// part of speech differ, otherwise one per part of speech.
pub open spec fn preview_list(bs: Seq<GrammarBranchV>) -> Seq<PreviewV> {
    let u = usable_previews(bs);
    if u.len() == 0 {
        Seq::empty()
    } else if distinct_discriminants(u) {
        crate::follow_up_answer::first_n(u, 3)
    } else {
        crate::follow_up_answer::first_n(group_by_pos(u), 3)
    }
}

proof fn lemma_pos_index(acc: Seq<PreviewV>, pos: Seq<char>, i: int)
    requires
        0 <= i,
    ensures
        pos_index(acc, pos, i) matches Some(k) ==> i <= k < acc.len() && acc[k].pos == pos,
    decreases acc.len() - i,
{
    if i < acc.len() && acc[i].pos != pos {
        lemma_pos_index(acc, pos, i + 1);
    }
}

fn meaning_parts_exec(m: &Vec<char>) -> (r: Vec<Vec<char>>)
    ensures
        views(r@) == meaning_parts(m@),
{
    let seps: [char; 5] = ['；', ';', '，', ',', '/'];
    assert(seps@ =~= meaning_separators());
    let ps = pieces_exec(m, false, &seps);
    let ghost pv = views(ps@);
    let mut t: Vec<Vec<char>> = Vec::new();
    let mut i: usize = 0;
    while i < ps.len()
        invariant
            0 <= i <= ps@.len(),
            pv == views(ps@),
            views(t@) =~= pv.take(i as int).map_values(|p: Seq<char>| trim(p)),
        decreases ps@.len() - i,
    {
        t.push(trim_exec(&ps[i]));
        assert(pv.take(i + 1).map_values(|p: Seq<char>| trim(p)) =~= pv.take(i as int).map_values(
            |p: Seq<char>| trim(p),
        ).push(trim(pv[i as int])));
        i = i + 1;
    }
    assert(pv.take(pv.len() as int) =~= pv);
    crate::text::non_empty_exec(t)
}

fn merge_meaning(target: &String, meaning: &String) -> (r: String)
    ensures
        r@ == merged_meaning(target@, meaning@),
{
    let a = meaning_parts_exec(&chars_of(target.as_str()));
    let b = meaning_parts_exec(&chars_of(meaning.as_str()));
    let mut all = a;
    let ghost av = views(all@);
    let mut i: usize = 0;
    while i < b.len()
        invariant
            0 <= i <= b@.len(),
            views(all@) =~= av + views(b@).take(i as int),
        decreases b@.len() - i,
    {
        let ghost before = views(all@);
        all.push(crate::text::clone_chars(&b[i]));
        assert(views(all@) =~= before.push(views(b@)[i as int]));
        assert(views(b@).take(i + 1) =~= views(b@).take(i as int).push(views(b@)[i as int]));
        i = i + 1;
    }
    assert(views(b@).take(b@.len() as int) =~= views(b@));
    let ghost allv = views(all@);
    let mut kept: Vec<Vec<char>> = Vec::new();
    let mut j: usize = 0;
    while j < all.len()
        invariant
            0 <= j <= all@.len(),
            allv == views(all@),
            views(kept@) == dedupe_exact(allv.take(j as int)),
        decreases all@.len() - j,
    {
        assert(allv.take(j + 1).drop_last() =~= allv.take(j as int));
        assert(allv.take(j + 1).last() == all@[j as int]@);
        let mut dup = false;
        let mut k: usize = 0;
        while k < kept.len()
            invariant
                0 <= k <= kept@.len(),
                j < all@.len(),
                dup <==> exists|x: int| 0 <= x < k && views(kept@)[x] == all@[j as int]@,
            decreases kept@.len() - k,
        {
            assert(views(kept@)[k as int] == kept@[k as int]@);
            if same(&kept[k], &all[j]) {
                dup = true;
            }
            k = k + 1;
        }
        assert(dup <==> views(kept@).contains(all@[j as int]@));
        if all[j].len() > 0 && !dup {
            let ghost before = views(kept@);
            kept.push(crate::text::clone_chars(&all[j]));
            assert(views(kept@) =~= before.push(allv[j as int]));
        }
        j = j + 1;
    }
    assert(allv.take(allv.len() as int) =~= allv);
    let n = if kept.len() <= 3 { kept.len() } else { 3 };
    let mut three: Vec<Vec<char>> = Vec::new();
    let mut m: usize = 0;
    while m < n
        invariant
            0 <= m <= n <= kept@.len(),
            views(three@) =~= views(kept@).take(m as int),
        decreases n - m,
    {
        let ghost before = views(three@);
        three.push(crate::text::clone_chars(&kept[m]));
        assert(views(three@) =~= before.push(views(kept@)[m as int]));
        assert(views(kept@).take(m + 1) =~= views(kept@).take(m as int).push(views(kept@)[m as int]));
        m = m + 1;
    }
    assert(views(three@) =~= crate::follow_up_answer::first_n(views(kept@), 3));
    if three.len() == 0 {
        crate::text::copy_string(target)
    } else {
        let j = join_exec(&three, &chars_of("/"));
        string_of(&j)
    }
}

fn copy_preview(p: &BranchPreview) -> (r: BranchPreview)
    ensures
        r@ == p@,
{
    BranchPreview {
        pos: p.pos.clone(),
        label: p.label.clone(),
        meaning: p.meaning.clone(),
        discriminant: p.discriminant.clone(),
    }
}

fn has_distinct_discriminants(ps: &Vec<BranchPreview>) -> (r: bool)
    ensures
        r == distinct_discriminants(preview_views(ps@)),
{
    let ghost pv = preview_views(ps@);
    let n = ps.len();
    if n < 2 {
        return false;
    }
    let mut i: usize = 0;
    while i < n - 1
        invariant
            n == ps@.len(),
            n >= 2,
            i <= n - 1,
            pv == preview_views(ps@),
            forall|k: int| 0 <= k < i ==> !((#[trigger] pv[k]).pos == pv[k + 1].pos
                && pv[k].discriminant != pv[k + 1].discriminant),
        decreases n - 1 - i,
    {
        let a = chars_of(ps[i].pos.as_str());
        let b = chars_of(ps[i + 1].pos.as_str());
        let da = chars_of(ps[i].discriminant.as_str());
        let db = chars_of(ps[i + 1].discriminant.as_str());
        assert(pv[i as int] == ps@[i as int]@);
        assert(pv[i + 1] == ps@[i + 1]@);
        if same(&a, &b) && !same(&da, &db) {
            return true;
        }
        i = i + 1;
    }
    false
}

/// Previews of the branches that have a Chinese meaning: the first three
/// as they are when neighbours of one part of speech are told apart, else
/// merged per part of speech, first three.
pub fn preview_branches(branches: &Vec<StructuredGrammarBranch>) -> (r: Vec<BranchPreview>)
    ensures
        preview_views(r@) == preview_list(branch_views(branches@)),
{
    let ghost bv = branch_views(branches@);
    let mut usable: Vec<BranchPreview> = Vec::new();
    let mut i: usize = 0;
    while i < branches.len()
        invariant
            0 <= i <= branches@.len(),
            bv == branch_views(branches@),
            preview_views(usable@) == usable_previews(bv.take(i as int)),
        decreases branches@.len() - i,
    {
        assert(bv.take(i + 1).drop_last() =~= bv.take(i as int));
        assert(bv.take(i + 1).last() == branches@[i as int]@);
        let b = &branches[i];
        match primary_branch_meaning(b) {
            Some(meaning) => {
                let p = BranchPreview {
                    pos: compact_pos(b.pos.as_str(), b.selector.as_str()),
                    label: compact_branch_label(b),
                    meaning,
                    discriminant: branch_discriminant(b),
                };
                let ghost before = preview_views(usable@);
                let ghost ppv = p@;
                usable.push(p);
                assert(preview_views(usable@) =~= before.push(ppv));
            },
            None => {},
        }
        i = i + 1;
    }
    assert(bv.take(bv.len() as int) =~= bv);
    let ghost uv = preview_views(usable@);
    let mut out: Vec<BranchPreview> = Vec::new();
    if usable.len() == 0 {
        assert(preview_views(out@) =~= Seq::<PreviewV>::empty());
        return out;
    }
    let grouped = if has_distinct_discriminants(&usable) {
        usable
    } else {
        let mut by_pos: Vec<BranchPreview> = Vec::new();
        let mut j: usize = 0;
        while j < usable.len()
            invariant
                0 <= j <= usable@.len(),
                uv == preview_views(usable@),
                preview_views(by_pos@) == group_by_pos(uv.take(j as int)),
            decreases usable@.len() - j,
        {
            assert(uv.take(j + 1).drop_last() =~= uv.take(j as int));
            assert(uv.take(j + 1).last() == usable@[j as int]@);
            let ghost acc = preview_views(by_pos@);
            let pos_j = chars_of(usable[j].pos.as_str());
            let mut k: usize = 0;
            assert(pos_index(acc, uv[j as int].pos, 0) == pos_index(acc, uv[j as int].pos, 0));
            while k < by_pos.len() && !same(&chars_of(by_pos[k].pos.as_str()), &pos_j)
                invariant
                    0 <= k <= by_pos@.len(),
                    acc == preview_views(by_pos@),
                    pos_j@ == uv[j as int].pos,
                    pos_index(acc, pos_j@, 0) == pos_index(acc, pos_j@, k as int),
                decreases by_pos@.len() - k,
            {
                assert(acc[k as int] == by_pos@[k as int]@);
                k = k + 1;
            }
            if k < by_pos.len() {
                assert(acc[k as int] == by_pos@[k as int]@);
                let merged = merge_meaning(&by_pos[k].meaning, &usable[j].meaning);
                let old_p = copy_preview(&by_pos[k]);
                let np = BranchPreview {
                    pos: old_p.pos,
                    label: old_p.label,
                    meaning: merged,
                    discriminant: old_p.discriminant,
                };
                let ghost npv = np@;
                by_pos.set(k, np);
                assert(preview_views(by_pos@) =~= acc.update(k as int, npv));
            } else {
                let ghost pj = usable@[j as int]@;
                by_pos.push(copy_preview(&usable[j]));
                assert(preview_views(by_pos@) =~= acc.push(pj));
            }
            j = j + 1;
        }
        assert(uv.take(uv.len() as int) =~= uv);
        by_pos
    };
    let ghost gv = preview_views(grouped@);
    let n = if grouped.len() <= 3 { grouped.len() } else { 3 };
    let mut m: usize = 0;
    while m < n
        invariant
            0 <= m <= n <= grouped@.len(),
            gv == preview_views(grouped@),
            preview_views(out@) =~= gv.take(m as int),
        decreases n - m,
    {
        let ghost before = preview_views(out@);
        out.push(copy_preview(&grouped[m]));
        assert(preview_views(out@) =~= before.push(gv[m as int]));
        assert(gv.take(m + 1) =~= gv.take(m as int).push(gv[m as int]));
        m = m + 1;
    }
    assert(preview_views(out@) =~= crate::follow_up_answer::first_n(gv, 3));
    out
}

/// `[label] meaning` for each preview, joined by ` · `.
pub open spec fn preview_line(ps: Seq<PreviewV>) -> Seq<char> {
    join(ps.map_values(|p: PreviewV| "["@ + p.label + "] "@ + p.meaning), " · "@)
}

pub open spec fn branch_preview_of(bs: Seq<GrammarBranchV>) -> Option<Seq<char>> {
    let ps = preview_list(bs);
    if ps.len() == 0 {
        None
    } else {
        Some(preview_line(ps))
    }
}

pub fn branch_preview(branches: &Vec<StructuredGrammarBranch>) -> (r: Option<String>)
    ensures
        r matches Some(x) ==> branch_preview_of(branch_views(branches@)) == Some(x@),
        r is None ==> branch_preview_of(branch_views(branches@)) is None,
{
    let ps = preview_branches(branches);
    if ps.len() == 0 {
        return None;
    }
    let ghost pv = preview_views(ps@);
    let mut items: Vec<Vec<char>> = Vec::new();
    let mut i: usize = 0;
    while i < ps.len()
        invariant
            0 <= i <= ps@.len(),
            pv == preview_views(ps@),
            views(items@) =~= pv.take(i as int).map_values(|p: PreviewV| "["@ + p.label + "] "@ + p.meaning),
        decreases ps@.len() - i,
    {
        let mut it = chars_of("[");
        extend_str(&mut it, ps[i].label.as_str());
        extend_str(&mut it, "] ");
        extend_str(&mut it, ps[i].meaning.as_str());
        let ghost before = views(items@);
        let ghost iv = it@;
        items.push(it);
        assert(views(items@) =~= before.push(iv));
        assert(pv[i as int] == ps@[i as int]@);
        assert(pv.take(i + 1).map_values(|p: PreviewV| "["@ + p.label + "] "@ + p.meaning) =~= pv.take(
            i as int,
        ).map_values(|p: PreviewV| "["@ + p.label + "] "@ + p.meaning).push(iv));
        i = i + 1;
    }
    assert(pv.take(pv.len() as int) =~= pv);
    let j = join_exec(&items, &chars_of(" · "));
    Some(string_of(&j))
}

/// The preview a structured document gives: its branch preview, or its
/// first meaning's part of speech and Chinese text.
pub open spec fn structured_preview(d: DocumentV) -> Option<Seq<char>> {
    if d.grammar_branches.len() > 0 && branch_preview_of(d.grammar_branches) is Some {
        branch_preview_of(d.grammar_branches)
    } else if d.meanings.len() == 0 {
        None
    } else {
        let c = trim(d.meanings[0].chinese);
        if c.len() > 0 {
            Some("["@ + compact_pos_of(d.meanings[0].part_of_speech, ""@) + "] "@ + c)
        } else {
            None
        }
    }
}

pub fn structured_preview_from_analysis(d: &StructuredAnalysisDocument) -> (r: Option<String>)
    ensures
        r matches Some(x) ==> structured_preview(d@) == Some(x@),
        r is None ==> structured_preview(d@) is None,
{
    if d.grammar_branches.len() > 0 {
        if let Some(p) = branch_preview(&d.grammar_branches) {
            return Some(p);
        }
    }
    if d.meanings.len() == 0 {
        return None;
    }
    let m = &d.meanings[0];
    let c = chars_of(m.chinese.as_str());
    let ct = trim_exec(&c);
    if ct.len() == 0 {
        return None;
    }
    let pos = compact_pos(m.part_of_speech.as_str(), "");
    let mut out = chars_of("[");
    extend_str(&mut out, pos.as_str());
    extend_str(&mut out, "] ");
    extend(&mut out, &ct);
    Some(string_of(&out))
}

// ---------------------------------------------------------------------------
// Plain text from markdown
// ---------------------------------------------------------------------------

/// Markdown marks that a preview leaves out.
pub open spec fn markup_chars() -> Seq<char> {
    seq!['*', '`', '#', '[', ']', '(', ')', '>', '_']
}

/// One character: markup dropped, any whitespace as one space, no two
/// spaces in a row.
pub open spec fn plain_step(st: (bool, Seq<char>), c: char) -> (bool, Seq<char>) {
    if markup_chars().contains(c) {
        st
    } else {
        let c1 = if c == '\n' || c == '\r' || c == '\t' {
            ' '
        } else {
            c
        };
        let c2 = if is_ws(c1) {
            ' '
        } else {
            c1
        };
        if c2 == ' ' {
            if st.0 {
                st
            } else {
                (true, st.1.push(' '))
            }
        } else {
            (false, st.1.push(c2))
        }
    }
}

pub open spec fn plain_fold(s: Seq<char>) -> (bool, Seq<char>)
    decreases s.len(),
{
    if s.len() == 0 {
        (false, Seq::empty())
    } else {
        plain_step(plain_fold(s.drop_last()), s.last())
    }
}

/// The text of a markdown line without markup, list markers and runs of
/// whitespace.
pub open spec fn plain_preview(v: Seq<char>) -> Seq<char> {
    trim(strip_prefixes(strip_prefixes(trim(plain_fold(v).1), "- "@), "* "@))
}

pub fn strip_markdown_preview(value: &str) -> (r: String)
    ensures
        r@ == plain_preview(value@),
{
    let v = chars_of(value);
    let marks: [char; 9] = ['*', '`', '#', '[', ']', '(', ')', '>', '_'];
    assert(marks@ =~= markup_chars());
    let mut prev_space = false;
    let mut out: Vec<char> = Vec::new();
    let mut i: usize = 0;
    while i < v.len()
        invariant
            0 <= i <= v@.len(),
            marks@ == markup_chars(),
            plain_fold(v@.take(i as int)) == (prev_space, out@),
        decreases v@.len() - i,
    {
        assert(v@.take(i + 1).drop_last() =~= v@.take(i as int));
        let c = v[i];
        if !crate::text::in_class_exec(c, false, &marks) {
            let c1 = if c == '\n' || c == '\r' || c == '\t' {
                ' '
            } else {
                c
            };
            let c2 = if is_whitespace(c1) {
                ' '
            } else {
                c1
            };
            if c2 == ' ' {
                if !prev_space {
                    prev_space = true;
                    out.push(' ');
                }
            } else {
                prev_space = false;
                out.push(c2);
            }
        }
        i = i + 1;
    }
    assert(v@.take(v@.len() as int) =~= v@);
    let t = trim_exec(&out);
    let t = strip_prefixes_exec(&t, &chars_of("- "));
    let t = strip_prefixes_exec(&t, &chars_of("* "));
    string_of(&trim_exec(&t))
}

pub fn truncate(value: &str, max_len: usize) -> (r: String)
    ensures
        r@ == truncated(value@, max_len as nat),
{
    crate::follow_up_answer::truncate_text(value, max_len)
}

/// A markdown line that can stand in a preview.
pub open spec fn is_preview_line(l: Seq<char>) -> bool {
    l.len() > 0 && !starts_with(l, "#"@) && !starts_with(l, "*/"@)
}

/// A line that carries a definition.
pub open spec fn is_definition_line(l: Seq<char>) -> bool {
    contains(l, "**"@) || contains(l, "核心释义"@) || contains(l, "* "@)
}

pub open spec fn preview_lines(md: Seq<char>) -> Seq<Seq<char>> {
    crate::text::keep(lines(md).map_values(|l: Seq<char>| trim(l)), |l: Seq<char>| is_preview_line(l))
}

/// The first definition line, from index `i` on.
pub open spec fn first_definition(ls: Seq<Seq<char>>, i: int) -> Option<Seq<char>>
    decreases ls.len() - i,
{
    if i < 0 || i >= ls.len() {
        None
    } else if is_definition_line(ls[i]) {
        Some(ls[i])
    } else {
        first_definition(ls, i + 1)
    }
}

/// The line a markdown preview is taken from.
pub open spec fn preview_source(md: Seq<char>) -> Seq<char> {
    let ls = preview_lines(md);
    match first_definition(ls, 0) {
        Some(l) => l,
        None => if ls.len() > 0 {
            ls[0]
        } else {
            "无法生成预览"@
        },
    }
}

/// The preview of an analysis, at most 90 characters (plus `...`): from its
/// structured document when that gives one, else from its markdown.
pub open spec fn analysis_preview(d: Option<DocumentV>, md: Seq<char>) -> Seq<char> {
    match (match d {
        Some(x) => structured_preview(x),
        None => None,
    }) {
        Some(p) => truncated(p, 90),
        None => if md.len() == 0 {
            "无法生成预览"@
        } else {
            truncated(plain_preview(preview_source(md)), 90)
        },
    }
}

/// The preview of an analysis given its parsed structured document (if
/// any) and its markdown.
pub fn preview_from_analysis(structured: Option<&StructuredAnalysisDocument>, markdown: &str) -> (r: String)
    ensures
        r@ == analysis_preview(
            match structured {
                Some(d) => Some(d@),
                None => None,
            },
            markdown@,
        ),
{
    if let Some(d) = structured {
        if let Some(p) = structured_preview_from_analysis(d) {
            return truncate(p.as_str(), 90);
        }
    }
    let md = chars_of(markdown);
    if md.len() == 0 {
        return crate::text::owned("无法生成预览");
    }
    let ls = lines_exec(&md);
    let ghost lv = views(ls@);
    let mut kept: Vec<Vec<char>> = Vec::new();
    let hash = chars_of("#");
    let close = chars_of("*/");
    let mut i: usize = 0;
    while i < ls.len()
        invariant
            0 <= i <= ls@.len(),
            lv == views(ls@),
            hash@ == "#"@,
            close@ == "*/"@,
            views(kept@) == crate::text::keep(
                lv.take(i as int).map_values(|l: Seq<char>| trim(l)),
                |l: Seq<char>| is_preview_line(l),
            ),
        decreases ls@.len() - i,
    {
        let ghost tv = lv.take(i as int).map_values(|l: Seq<char>| trim(l));
        let t = trim_exec(&ls[i]);
        assert(lv.take(i + 1).map_values(|l: Seq<char>| trim(l)) =~= tv.push(t@));
        assert(tv.push(t@).drop_last() =~= tv);
        if t.len() > 0 && !starts_with_exec(&t, &hash) && !starts_with_exec(&t, &close) {
            let ghost before = views(kept@);
            kept.push(t);
            assert(views(kept@) =~= before.push(tv.push(t@).last()));
        }
        i = i + 1;
    }
    assert(lv.take(lv.len() as int) =~= lv);
    let ghost kv = views(kept@);
    let mut source: Option<Vec<char>> = None;
    let mut j: usize = 0;
    while j < kept.len()
        invariant_except_break
            0 <= j <= kept@.len(),
            kv == views(kept@),
            first_definition(kv, 0) == first_definition(kv, j as int),
            source is None,
        ensures
            source matches Some(x) ==> first_definition(kv, 0) == Some(x@),
            source is None ==> first_definition(kv, 0) is None,
        decreases kept@.len() - j,
    {
        assert(kv[j as int] == kept@[j as int]@);
        if has(&kept[j], "**") || has(&kept[j], "核心释义") || has(&kept[j], "* ") {
            source = Some(crate::text::clone_chars(&kept[j]));
            break;
        }
        j = j + 1;
    }
    let src = match source {
        Some(s) => s,
        None => if kept.len() > 0 {
            crate::text::clone_chars(&kept[0])
        } else {
            chars_of("无法生成预览")
        },
    };
    let plain = strip_markdown_preview(string_of(&src).as_str());
    truncate(plain.as_str(), 90)
}

} // verus!
