//! Follow-up questions on an analysis: what a question asks for, and the
//! lines of context that answer it.

use vstd::prelude::*;
use crate::text::{
    chars_of, chars_of_all, contains, contains_exec, keep, lines, lines_exec, slice_of,
    starts_with, starts_with_exec, str_views, string_of, trim, trim_exec, views,
};

verus! {

/// What a follow-up question is about.
#[derive(Debug, Clone, Copy)]
pub enum FollowUpIntent {
    Form,
    Meaning,
    Pronunciation,
    Example,
    Generic,
}

/// Whether the text contains any of the needles.
pub open spec fn contains_any(q: Seq<char>, ns: Seq<Seq<char>>) -> bool {
    exists|i: int| 0 <= i < ns.len() && contains(q, #[trigger] ns[i])
}

pub open spec fn form_words() -> Seq<Seq<char>> {
    seq!["变位"@, "形式"@, "过去式"@, "过去分词"@, "第三人称"@, "助动词"@, "时态"@]
}

pub open spec fn meaning_words() -> Seq<Seq<char>> {
    seq!["意思"@, "释义"@, "含义"@, "翻译"@, "区别"@, "什么意思"@]
}

pub open spec fn pronunciation_words() -> Seq<Seq<char>> {
    seq!["发音"@, "音标"@, "怎么读"@, "读音"@]
}

pub open spec fn example_words() -> Seq<Seq<char>> {
    seq!["例句"@, "造句"@, "怎么用"@, "用法"@, "搭配"@]
}

/// The intent of a question: the first group of cue words it contains.
pub open spec fn intent_of(q: Seq<char>) -> FollowUpIntent {
    if contains_any(q, form_words()) {
        FollowUpIntent::Form
    } else if contains_any(q, meaning_words()) {
        FollowUpIntent::Meaning
    } else if contains_any(q, pronunciation_words()) {
        FollowUpIntent::Pronunciation
    } else if contains_any(q, example_words()) {
        FollowUpIntent::Example
    } else {
        FollowUpIntent::Generic
    }
}

fn contains_any_exec(q: &Vec<char>, ns: &Vec<Vec<char>>) -> (r: bool)
    ensures
        r == contains_any(q@, views(ns@)),
{
    let mut i: usize = 0;
    while i < ns.len()
        invariant
            0 <= i <= ns@.len(),
            forall|j: int| 0 <= j < i ==> !contains(q@, #[trigger] views(ns@)[j]),
        decreases ns@.len() - i,
    {
        if contains_exec(q, &ns[i]) {
            assert(contains(q@, views(ns@)[i as int]));
            return true;
        }
        i = i + 1;
    }
    false
}

pub fn detect_follow_up_intent(question: &str) -> (r: FollowUpIntent)
    ensures
        r == intent_of(question@),
{
    let q = chars_of(question);
    let form = vec![
        chars_of("变位"),
        chars_of("形式"),
        chars_of("过去式"),
        chars_of("过去分词"),
        chars_of("第三人称"),
        chars_of("助动词"),
        chars_of("时态"),
    ];
    assert(views(form@) =~= form_words());
    if contains_any_exec(&q, &form) {
        return FollowUpIntent::Form;
    }
    let meaning = vec![
        chars_of("意思"),
        chars_of("释义"),
        chars_of("含义"),
        chars_of("翻译"),
        chars_of("区别"),
        chars_of("什么意思"),
    ];
    assert(views(meaning@) =~= meaning_words());
    if contains_any_exec(&q, &meaning) {
        return FollowUpIntent::Meaning;
    }
    let sound = vec![chars_of("发音"), chars_of("音标"), chars_of("怎么读"), chars_of("读音")];
    assert(views(sound@) =~= pronunciation_words());
    if contains_any_exec(&q, &sound) {
        return FollowUpIntent::Pronunciation;
    }
    let example = vec![
        chars_of("例句"),
        chars_of("造句"),
        chars_of("怎么用"),
        chars_of("用法"),
        chars_of("搭配"),
    ];
    assert(views(example@) =~= example_words());
    if contains_any_exec(&q, &example) {
        return FollowUpIntent::Example;
    }
    FollowUpIntent::Generic
}

// ---------------------------------------------------------------------------
// Form lines
// ---------------------------------------------------------------------------

/// A line that is not dictionary markup.
pub open spec fn is_clean_form_line(l: Seq<char>) -> bool {
    !contains(l, "table-tags"@) && !contains(l, "inflection-template"@)
}

pub open spec fn is_past_line(l: Seq<char>) -> bool {
    contains(l, "(past)"@) || contains(l, "preterite"@)
}

pub open spec fn is_participle_line(l: Seq<char>) -> bool {
    contains(l, "participle"@)
}

pub open spec fn is_third_person_line(l: Seq<char>) -> bool {
    contains(l, "third-person"@)
}

pub open spec fn is_auxiliary_line(l: Seq<char>) -> bool {
    contains(l, "auxiliary"@)
}

/// The sequence without elements equal to the one before them.
pub open spec fn dedup_adjacent(s: Seq<Seq<char>>) -> Seq<Seq<char>>
    decreases s.len(),
{
    if s.len() == 0 {
        s
    } else {
        let r = dedup_adjacent(s.drop_last());
        if r.len() > 0 && r.last() == s.last() {
            r
        } else {
            r.push(s.last())
        }
    }
}

/// The lines each asked-for form picks, in the order past tense, participle,
/// third person, auxiliary.
pub open spec fn picked_form_lines(q: Seq<char>, cleaned: Seq<Seq<char>>) -> Seq<Seq<char>> {
    (if contains(q, "过去式"@) {
        keep(cleaned, |l: Seq<char>| is_past_line(l))
    } else {
        Seq::empty()
    }) + (if contains(q, "过去分词"@) {
        keep(cleaned, |l: Seq<char>| is_participle_line(l))
    } else {
        Seq::empty()
    }) + (if contains(q, "第三人称"@) {
        keep(cleaned, |l: Seq<char>| is_third_person_line(l))
    } else {
        Seq::empty()
    }) + (if contains(q, "助动词"@) {
        keep(cleaned, |l: Seq<char>| is_auxiliary_line(l))
    } else {
        Seq::empty()
    })
}

/// The form lines that answer the question, without adjacent repeats; the
/// first four clean lines when the question names no form.
pub open spec fn relevant_form_lines(q: Seq<char>, ls: Seq<Seq<char>>) -> Seq<Seq<char>> {
    let cleaned = keep(ls, |l: Seq<char>| is_clean_form_line(l));
    let picked = picked_form_lines(q, cleaned);
    if picked.len() == 0 {
        cleaned.take(if cleaned.len() < 4 { cleaned.len() as int } else { 4 })
    } else {
        dedup_adjacent(picked)
    }
}

/// Which filter a selection applies.
enum FormFilter {
    Clean,
    Past,
    Participle,
    ThirdPerson,
    Auxiliary,
}

spec fn passes(f: FormFilter, l: Seq<char>) -> bool {
    match f {
        FormFilter::Clean => is_clean_form_line(l),
        FormFilter::Past => is_past_line(l),
        FormFilter::Participle => is_participle_line(l),
        FormFilter::ThirdPerson => is_third_person_line(l),
        FormFilter::Auxiliary => is_auxiliary_line(l),
    }
}

fn passes_exec(f: &FormFilter, l: &Vec<char>) -> (r: bool)
    ensures
        r == passes(*f, l@),
{
    match f {
        FormFilter::Clean => !contains_exec(l, &chars_of("table-tags")) && !contains_exec(
            l,
            &chars_of("inflection-template"),
        ),
        FormFilter::Past => contains_exec(l, &chars_of("(past)")) || contains_exec(
            l,
            &chars_of("preterite"),
        ),
        FormFilter::Participle => contains_exec(l, &chars_of("participle")),
        FormFilter::ThirdPerson => contains_exec(l, &chars_of("third-person")),
        FormFilter::Auxiliary => contains_exec(l, &chars_of("auxiliary")),
    }
}

/// Appends the lines that pass the filter.
fn append_passing(out: &mut Vec<Vec<char>>, ls: &Vec<Vec<char>>, f: FormFilter)
    ensures
        views(final(out)@) == views(old(out)@) + keep(views(ls@), |l: Seq<char>| passes(f, l)),
{
    let ghost lv = views(ls@);
    let ghost base = views(out@);
    let mut i: usize = 0;
    while i < ls.len()
        invariant
            0 <= i <= ls@.len(),
            lv == views(ls@),
            views(out@) == base + keep(lv.take(i as int), |l: Seq<char>| passes(f, l)),
        decreases ls@.len() - i,
    {
        assert(lv.take(i + 1).drop_last() =~= lv.take(i as int));
        assert(lv.take(i + 1).last() == ls@[i as int]@);
        if passes_exec(&f, &ls[i]) {
            let ghost before = views(out@);
            let x = slice_of(&ls[i], 0, ls[i].len());
            assert(x@ =~= ls@[i as int]@);
            out.push(x);
            assert(views(out@) =~= before.push(lv[i as int]));
            assert(base + keep(lv.take(i + 1), |l: Seq<char>| passes(f, l)) =~= (base + keep(
                lv.take(i as int),
                |l: Seq<char>| passes(f, l),
            )).push(lv[i as int]));
        }
        i = i + 1;
    }
    assert(lv.take(lv.len() as int) =~= lv);
}

fn dedup_adjacent_exec(s: &Vec<Vec<char>>) -> (r: Vec<Vec<char>>)
    ensures
        views(r@) == dedup_adjacent(views(s@)),
{
    let ghost sv = views(s@);
    let mut r: Vec<Vec<char>> = Vec::new();
    let mut i: usize = 0;
    while i < s.len()
        invariant
            0 <= i <= s@.len(),
            sv == views(s@),
            views(r@) == dedup_adjacent(sv.take(i as int)),
        decreases s@.len() - i,
    {
        assert(sv.take(i + 1).drop_last() =~= sv.take(i as int));
        assert(sv.take(i + 1).last() == s@[i as int]@);
        let n = r.len();
        let dup = n > 0 && crate::text::same(&r[n - 1], &s[i]);
        if !dup {
            let ghost before = views(r@);
            let x = slice_of(&s[i], 0, s[i].len());
            assert(x@ =~= s@[i as int]@);
            r.push(x);
            assert(views(r@) =~= before.push(sv[i as int]));
        }
        i = i + 1;
    }
    assert(sv.take(sv.len() as int) =~= sv);
    r
}

/// The form lines that answer the question: for each form it names (past
/// tense, participle, third person, auxiliary) the lines about it, without
/// adjacent repeats; otherwise the first four lines.  Dictionary markup
/// lines are never chosen.
pub fn select_relevant_form_lines(question: &str, lines: &[String]) -> (r: Vec<String>)
    ensures
        str_views(r@) == relevant_form_lines(question@, str_views(lines@)),
{
    let q = chars_of(question);
    let mut all: Vec<Vec<char>> = Vec::new();
    let mut i: usize = 0;
    while i < lines.len()
        invariant
            0 <= i <= lines@.len(),
            views(all@) =~= str_views(lines@).take(i as int),
        decreases lines@.len() - i,
    {
        all.push(chars_of(lines[i].as_str()));
        assert(str_views(lines@).take(i + 1) =~= str_views(lines@).take(i as int).push(lines@[i as int]@));
        i = i + 1;
    }
    assert(str_views(lines@).take(lines@.len() as int) =~= str_views(lines@));
    let ghost lv = str_views(lines@);
    let mut cleaned: Vec<Vec<char>> = Vec::new();
    append_passing(&mut cleaned, &all, FormFilter::Clean);
    assert(keep(lv, |l: Seq<char>| passes(FormFilter::Clean, l)) =~= keep(lv, |l: Seq<char>| is_clean_form_line(l))) by {
        lemma_keep_same(lv, |l: Seq<char>| passes(FormFilter::Clean, l), |l: Seq<char>| is_clean_form_line(l));
    }
    let ghost cv = views(cleaned@);
    let mut picked: Vec<Vec<char>> = Vec::new();
    let ghost p0 = views(picked@);
    if contains_exec(&q, &chars_of("过去式")) {
        append_passing(&mut picked, &cleaned, FormFilter::Past);
        proof { lemma_keep_same(cv, |l: Seq<char>| passes(FormFilter::Past, l), |l: Seq<char>| is_past_line(l)); }
    }
    let ghost p1 = views(picked@);
    if contains_exec(&q, &chars_of("过去分词")) {
        append_passing(&mut picked, &cleaned, FormFilter::Participle);
        proof { lemma_keep_same(cv, |l: Seq<char>| passes(FormFilter::Participle, l), |l: Seq<char>| is_participle_line(l)); }
    }
    let ghost p2 = views(picked@);
    if contains_exec(&q, &chars_of("第三人称")) {
        append_passing(&mut picked, &cleaned, FormFilter::ThirdPerson);
        proof { lemma_keep_same(cv, |l: Seq<char>| passes(FormFilter::ThirdPerson, l), |l: Seq<char>| is_third_person_line(l)); }
    }
    let ghost p3 = views(picked@);
    if contains_exec(&q, &chars_of("助动词")) {
        append_passing(&mut picked, &cleaned, FormFilter::Auxiliary);
        proof { lemma_keep_same(cv, |l: Seq<char>| passes(FormFilter::Auxiliary, l), |l: Seq<char>| is_auxiliary_line(l)); }
    }
    assert(views(picked@) =~= picked_form_lines(question@, cv));
    let chosen = if picked.len() == 0 {
        let n = if cleaned.len() < 4 { cleaned.len() } else { 4 };
        let mut t: Vec<Vec<char>> = Vec::new();
        let mut j: usize = 0;
        while j < n
            invariant
                0 <= j <= n <= cleaned@.len(),
                cv == views(cleaned@),
                views(t@) =~= cv.take(j as int),
            decreases n - j,
        {
            let x = slice_of(&cleaned[j], 0, cleaned[j].len());
            assert(x@ =~= cv[j as int]);
            let ghost before = views(t@);
            t.push(x);
            assert(views(t@) =~= before.push(cv[j as int]));
            assert(cv.take(j + 1) =~= cv.take(j as int).push(cv[j as int]));
            j = j + 1;
        }
        t
    } else {
        dedup_adjacent_exec(&picked)
    };
    crate::text::strings_of(&chosen)
}

/// Two filters that agree on every element keep the same elements.
proof fn lemma_keep_same(s: Seq<Seq<char>>, p: spec_fn(Seq<char>) -> bool, q: spec_fn(Seq<char>) -> bool)
    requires
        forall|x: Seq<char>| #[trigger] p(x) == q(x),
    ensures
        keep(s, p) == keep(s, q),
    decreases s.len(),
{
    if s.len() > 0 {
        lemma_keep_same(s.drop_last(), p, q);
    }
}

// ---------------------------------------------------------------------------
// Sections of the analysis markdown
// ---------------------------------------------------------------------------

/// The text without any number of leading copies of `p`.
pub open spec fn strip_prefixes(s: Seq<char>, p: Seq<char>) -> Seq<char>
    decreases s.len(),
{
    if p.len() > 0 && starts_with(s, p) {
        strip_prefixes(s.skip(p.len() as int), p)
    } else {
        s
    }
}

/// A `##` or `###` heading line.
pub open spec fn is_heading_line(l: Seq<char>) -> bool {
    starts_with(l, "### "@) || starts_with(l, "## "@)
}

/// One trimmed line: a heading opens or closes the section (by whether it
/// names the title), and other non-empty lines inside it are collected
/// without their `- ` markers.
pub open spec fn section_step(st: (bool, Seq<Seq<char>>), l: Seq<char>, title: Seq<char>) -> (bool, Seq<Seq<char>>) {
    if is_heading_line(l) {
        (contains(l, title), st.1)
    } else if !st.0 || l.len() == 0 {
        st
    } else {
        (st.0, st.1.push(strip_prefixes(l, "- "@)))
    }
}

pub open spec fn section_fold(ls: Seq<Seq<char>>, title: Seq<char>) -> (bool, Seq<Seq<char>>)
    decreases ls.len(),
{
    if ls.len() == 0 {
        (false, Seq::empty())
    } else {
        section_step(section_fold(ls.drop_last(), title), trim(ls.last()), title)
    }
}

/// The lines of the sections whose heading names the title.
pub open spec fn section_lines_of(md: Seq<char>, title: Seq<char>) -> Seq<Seq<char>> {
    section_fold(lines(md), title).1
}

pub fn strip_prefixes_exec(s: &Vec<char>, p: &Vec<char>) -> (r: Vec<char>)
    ensures
        r@ == strip_prefixes(s@, p@),
{
    let mut cur = slice_of(s, 0, s.len());
    assert(cur@ =~= s@);
    while p.len() > 0 && starts_with_exec(&cur, p)
        invariant
            strip_prefixes(s@, p@) == strip_prefixes(cur@, p@),
        decreases cur@.len(),
    {
        let n = cur.len();
        let next = slice_of(&cur, p.len(), n);
        assert(next@ =~= cur@.skip(p@.len() as int));
        cur = next;
    }
    cur
}

/// The lines under the `##`/`###` headings that name the title, trimmed and
/// without `- ` markers.
pub fn section_lines(markdown: &str, title: &str) -> (r: Vec<String>)
    ensures
        str_views(r@) == section_lines_of(markdown@, title@),
{
    let md = chars_of(markdown);
    let t = chars_of(title);
    let ls = lines_exec(&md);
    let ghost lv = views(ls@);
    let h3 = chars_of("### ");
    let h2 = chars_of("## ");
    let dash = chars_of("- ");
    let mut in_section = false;
    let mut out: Vec<Vec<char>> = Vec::new();
    let mut i: usize = 0;
    while i < ls.len()
        invariant
            0 <= i <= ls@.len(),
            lv == views(ls@),
            lv == lines(markdown@),
            t@ == title@,
            h3@ == "### "@,
            h2@ == "## "@,
            dash@ == "- "@,
            section_fold(lv.take(i as int), title@) == (in_section, views(out@)),
        decreases ls@.len() - i,
    {
        assert(lv.take(i + 1).drop_last() =~= lv.take(i as int));
        assert(lv.take(i + 1).last() == ls@[i as int]@);
        let l = trim_exec(&ls[i]);
        if starts_with_exec(&l, &h3) || starts_with_exec(&l, &h2) {
            in_section = contains_exec(&l, &t);
        } else if !in_section || l.len() == 0 {
        } else {
            let x = strip_prefixes_exec(&l, &dash);
            let ghost before = views(out@);
            let ghost xv = x@;
            out.push(x);
            assert(views(out@) =~= before.push(xv));
        }
        i = i + 1;
    }
    assert(lv.take(lv.len() as int) =~= lv);
    crate::text::strings_of(&out)
}

/// A line that can stand as a summary: not blank, no heading, no code fence
/// and no comment end.
pub open spec fn is_summary_line(l: Seq<char>) -> bool {
    l.len() > 0 && !starts_with(l, "#"@) && !starts_with(l, "```"@) && !starts_with(l, "*/"@)
}

/// The first trimmed line from index `i` on that can stand as a summary.
pub open spec fn summary_from(ls: Seq<Seq<char>>, i: int) -> Option<Seq<char>>
    decreases ls.len() - i,
{
    if i < 0 || i >= ls.len() {
        None
    } else if is_summary_line(trim(ls[i])) {
        Some(trim(ls[i]))
    } else {
        summary_from(ls, i + 1)
    }
}

pub fn first_summary_line(markdown: &str) -> (r: Option<String>)
    ensures
        r matches Some(x) ==> summary_from(lines(markdown@), 0) == Some(x@),
        r is None ==> summary_from(lines(markdown@), 0) is None,
{
    let md = chars_of(markdown);
    let ls = lines_exec(&md);
    let hash = chars_of("#");
    let fence = chars_of("```");
    let close = chars_of("*/");
    let mut i: usize = 0;
    while i < ls.len()
        invariant
            0 <= i <= ls@.len(),
            views(ls@) == lines(markdown@),
            hash@ == "#"@,
            fence@ == "```"@,
            close@ == "*/"@,
            summary_from(lines(markdown@), 0) == summary_from(lines(markdown@), i as int),
        decreases ls@.len() - i,
    {
        assert(views(ls@)[i as int] == ls@[i as int]@);
        let l = trim_exec(&ls[i]);
        if l.len() > 0 && !starts_with_exec(&l, &hash) && !starts_with_exec(&l, &fence)
            && !starts_with_exec(&l, &close) {
            return Some(string_of(&l));
        }
        i = i + 1;
    }
    None
}

} // verus!
