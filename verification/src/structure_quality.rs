//! Whether a structured document captured everything its markdown shows.

use vstd::prelude::*;
use crate::text::{
    ascii_lower, ascii_lower_exec, chars_of, contains, contains_exec, decimal, decimal_exec,
    extend, extend_str, is_alphabetic, keep, lemma_keep_len, lemma_pieces_len, lines, lines_exec, owned, pieces, pieces_exec,
    remove_char, remove_char_exec, slice_of, split_str, split_str_exec, starts_with,
    starts_with_exec, string_of, strip_both, strip_both_exec, trim, trim_exec, trim_start,
    trim_start_exec, unicode_alphabetic, views,
};
use crate::markdown::{is_bucket_line, is_bucket_line_exec, section_by_headings, section_by_headings_exec};
use crate::models::{
    insight_views, module_views, DeepInsightV, DocumentV, StructuredAnalysisDocument,
    StructuredDeepInsight, StructuredUsageModule, UsageModuleV,
};
use crate::structure_seed::{
    antonyms_label, deep_headings, family_label, heading_mark, no_value_marker, synonyms_label,
    trimmed_lines, trimmed_lines_exec, usage_heading, word_network_heading,
};

verus! {

// ---------------------------------------------------------------------------
// Usage blocks
// ---------------------------------------------------------------------------

/// A block that looks like a usage module: at least three non-empty lines,
/// the first no heading and no table row, a letter on the second, and the
/// third opening with a parenthesis.
pub open spec fn usage_like(b: Seq<char>) -> bool {
    let ls = trimmed_lines(b);
    &&& ls.len() >= 3
    &&& !starts_with(ls[0], heading_mark())
    &&& !starts_with(ls[0], seq!['|'])
    &&& exists|j: int| 0 <= j < ls[1].len() && unicode_alphabetic(#[trigger] ls[1][j])
    &&& (starts_with(ls[2], seq!['（']) || starts_with(ls[2], seq!['(']))
}

/// How many blank-line separated blocks of a section look like usage modules.
pub open spec fn usage_like_count(sec: Seq<char>) -> nat {
    keep(split_str(sec, seq!['\n', '\n']), |b: Seq<char>| usage_like(b)).len()
}

/// A usage module none of whose fields is blank.
pub open spec fn is_complete_module(m: UsageModuleV) -> bool {
    trim(m.title).len() > 0 && trim(m.explanation).len() > 0 && trim(m.example_de).len() > 0
        && trim(m.example_zh).len() > 0
}

pub open spec fn complete_modules(ms: Seq<UsageModuleV>) -> nat {
    keep(ms, |m: UsageModuleV| is_complete_module(m)).len()
}

// ---------------------------------------------------------------------------
// Grammar tables
// ---------------------------------------------------------------------------

/// `#### 语法详情`.
pub open spec fn grammar_heading() -> Seq<char> {
    seq!['#', '#', '#', '#', ' ', '语', '法', '详', '情']
}

/// A trimmed line that is a table row and not the separator row.
pub open spec fn is_table_line(l: Seq<char>) -> bool {
    starts_with(l, seq!['|']) && !contains(l, seq![':', '-', '-', '-'])
}

/// The table rows of a section, trimmed, header included.
pub open spec fn table_lines(sec: Seq<char>) -> Seq<Seq<char>> {
    keep(lines(sec).map_values(|l: Seq<char>| trim(l)), |l: Seq<char>| is_table_line(l))
}

/// The table rows of a section without the header row.
pub open spec fn table_row_count(sec: Seq<char>) -> nat {
    let k = table_lines(sec).len();
    if k >= 1 {
        (k - 1) as nat
    } else {
        0
    }
}

/// The trimmed cells of a table row, without its outer bars.
pub open spec fn table_cells(l: Seq<char>) -> Seq<Seq<char>> {
    pieces(strip_both(l, false, seq!['|']), false, seq!['|']).map_values(|c: Seq<char>| trim(c))
}

/// A row whose first cell names a collocation or fixed expression.
pub open spec fn is_collocation_row(l: Seq<char>) -> bool {
    let c = table_cells(l)[0];
    contains(c, seq!['搭', '配']) || contains(c, seq!['固', '定', '表', '达'])
}

/// The body rows that the collocations stand for; none when the document has
/// no collocations.
pub open spec fn collocation_row_count(sec: Seq<char>, d: DocumentV) -> nat {
    let tl = table_lines(sec);
    if d.collocations.len() == 0 || tl.len() == 0 {
        0
    } else {
        keep(tl.skip(1), |l: Seq<char>| is_collocation_row(l)).len()
    }
}

// ---------------------------------------------------------------------------
// Word network
// ---------------------------------------------------------------------------

pub open spec fn is_any_bucket_line(l: Seq<char>) -> bool {
    is_bucket_line(l, family_label()) || is_bucket_line(l, synonyms_label()) || is_bucket_line(
        l,
        antonyms_label(),
    )
}

pub open spec fn has_bucket(sec: Seq<char>, b: Seq<char>) -> bool {
    exists|i: int| 0 <= i < lines(sec).len() && is_bucket_line(#[trigger] lines(sec)[i], b)
}

/// A list item that is neither a bucket line nor the empty-bucket marker.
pub open spec fn is_item_line(l: Seq<char>) -> bool {
    let t = trim(l);
    (starts_with(t, seq!['*']) || starts_with(t, seq!['-'])) && !is_any_bucket_line(t) && !contains(
        t,
        no_value_marker(),
    )
}

pub open spec fn has_items(sec: Seq<char>) -> bool {
    exists|i: int| 0 <= i < lines(sec).len() && is_item_line(#[trigger] lines(sec)[i])
}

/// Reading on from a line, whether the bucket declares itself empty before
/// another bucket starts.
pub open spec fn declares_empty_from(ls: Seq<Seq<char>>, in_bucket: bool, b: Seq<char>) -> bool
    decreases ls.len(),
{
    if ls.len() == 0 {
        false
    } else if is_bucket_line(ls[0], b) {
        declares_empty_from(ls.drop_first(), true, b)
    } else if in_bucket && is_any_bucket_line(ls[0]) {
        false
    } else if in_bucket && contains(ls[0], no_value_marker()) {
        true
    } else {
        declares_empty_from(ls.drop_first(), in_bucket, b)
    }
}

/// Whether the bucket's own lines carry the empty-bucket marker.
pub open spec fn declares_empty(sec: Seq<char>, b: Seq<char>) -> bool {
    declares_empty_from(lines(sec), false, b)
}

// ---------------------------------------------------------------------------
// Deep insights
// ---------------------------------------------------------------------------

/// A line that starts with `*` or `-` and then, after spaces, a bold title.
pub open spec fn is_bold_item(l: Seq<char>) -> bool {
    (starts_with(l, seq!['*']) || starts_with(l, seq!['-'])) && starts_with(
        trim_start(l.skip(1)),
        seq!['*', '*'],
    )
}

pub open spec fn top_level_deep_items(sec: Seq<char>) -> nat {
    keep(lines(sec), |l: Seq<char>| is_bold_item(l)).len()
}

pub open spec fn etymology_zh() -> Seq<char> {
    seq!['词', '源']
}

/// A list line about etymology.
pub open spec fn is_etymology_line(l: Seq<char>) -> bool {
    (starts_with(l, seq!['*']) || starts_with(l, seq!['-'])) && (contains(trim(l), etymology_zh())
        || contains(ascii_lower(trim(l)), "etymolog"@))
}

pub open spec fn has_etymology_line(sec: Seq<char>) -> bool {
    exists|i: int| 0 <= i < lines(sec).len() && is_etymology_line(#[trigger] lines(sec)[i])
}

pub open spec fn has_etymology_insight(ins: Seq<DeepInsightV>) -> bool {
    exists|i: int| 0 <= i < ins.len() && contains(#[trigger] ins[i].title, etymology_zh())
}

// ---------------------------------------------------------------------------
// The checks, in the order they are made
// ---------------------------------------------------------------------------

pub open spec fn usage_error(n: Seq<char>, d: DocumentV) -> Option<Seq<char>> {
    match section_by_headings(n, seq![usage_heading()]) {
        None => None,
        Some(sec) => {
            let b = usage_like_count(sec);
            let c = complete_modules(d.usage_modules);
            if b > 0 && c < b {
                Some(
                    "usage_modules incomplete: expected at least "@ + decimal(b) + ", got "@
                        + decimal(c),
                )
            } else {
                None
            }
        },
    }
}

pub open spec fn grammar_error(n: Seq<char>, d: DocumentV) -> Option<Seq<char>> {
    match section_by_headings(n, seq![grammar_heading()]) {
        None => None,
        Some(sec) => {
            let rows = table_row_count(sec);
            let covered = d.grammar_rows.len() + collocation_row_count(sec, d);
            if rows > 0 && covered < rows {
                Some(
                    "grammar_rows incomplete: expected at least "@ + decimal(rows) + ", got "@
                        + decimal(covered),
                )
            } else {
                None
            }
        },
    }
}

pub open spec fn network_error(n: Seq<char>, d: DocumentV) -> Option<Seq<char>> {
    match section_by_headings(n, seq![word_network_heading()]) {
        None => None,
        Some(sec) => {
            let fam = has_bucket(sec, family_label());
            let syn = has_bucket(sec, synonyms_label());
            let ant = has_bucket(sec, antonyms_label());
            let items = has_items(sec);
            let net = d.word_network;
            if items && !(fam || syn || ant) {
                Some("word_network section has list items but no relation buckets"@)
            } else if fam && !declares_empty(sec, family_label()) && net.family.len() == 0 {
                Some("word_network.family missing despite family subsection"@)
            } else if syn && !declares_empty(sec, synonyms_label()) && net.synonyms.len()
                == 0 {
                Some("word_network.synonyms missing despite synonym subsection"@)
            } else if ant && !declares_empty(sec, antonyms_label()) && net.antonyms.len()
                == 0 {
                Some("word_network.antonyms missing despite antonym subsection"@)
            } else if items && net.family.len() == 0 && net.synonyms.len() == 0
                && net.antonyms.len() == 0 {
                Some("word_network structured buckets empty despite visible items"@)
            } else {
                None
            }
        },
    }
}

pub open spec fn deep_error(n: Seq<char>, d: DocumentV) -> Option<Seq<char>> {
    match section_by_headings(n, deep_headings()) {
        None => None,
        Some(sec) => {
            let k = top_level_deep_items(sec);
            if k > 0 && d.deep_insights.len() < k {
                Some(
                    "deep_insights incomplete: expected at least "@ + decimal(k) + ", got "@
                        + decimal(d.deep_insights.len()),
                )
            } else if has_etymology_line(sec) && !has_etymology_insight(d.deep_insights) {
                Some("etymology subsection missing from deep_insights"@)
            } else {
                None
            }
        },
    }
}

/// The first shortfall of the document against the markdown (without
/// carriage returns), or `None` when it captured everything checked.
pub open spec fn capture_error(md: Seq<char>, d: DocumentV) -> Option<Seq<char>> {
    let n = remove_char(md, '\r');
    if usage_error(n, d) is Some {
        usage_error(n, d)
    } else if grammar_error(n, d) is Some {
        grammar_error(n, d)
    } else if network_error(n, d) is Some {
        network_error(n, d)
    } else {
        deep_error(n, d)
    }
}


// ---------------------------------------------------------------------------
// Executable checks
// ---------------------------------------------------------------------------

fn usage_like_exec(b: &Vec<char>) -> (r: bool)
    ensures
        r == usage_like(b@),
{
    let ls = trimmed_lines_exec(b);
    let ghost lv = views(ls@);
    if ls.len() < 3 {
        return false;
    }
    let hm = vec!['#', '#', '#', '#'];
    let bar = vec!['|'];
    let p1 = vec!['（'];
    let p2 = vec!['('];
    assert(hm@ =~= heading_mark());
    assert(bar@ =~= seq!['|']);
    assert(p1@ =~= seq!['（']);
    assert(p2@ =~= seq!['(']);
    if starts_with_exec(&ls[0], &hm) || starts_with_exec(&ls[0], &bar) {
        return false;
    }
    let second = &ls[1];
    let mut found = false;
    let mut j: usize = 0;
    while j < second.len()
        invariant
            0 <= j <= second@.len(),
            second@ == lv[1],
            found <==> exists|k: int| 0 <= k < j && unicode_alphabetic(#[trigger] lv[1][k]),
        decreases second@.len() - j,
    {
        if is_alphabetic(second[j]) {
            found = true;
        }
        j = j + 1;
    }
    if !found {
        return false;
    }
    starts_with_exec(&ls[2], &p1) || starts_with_exec(&ls[2], &p2)
}

fn count_usage_like_blocks(sec: &Vec<char>) -> (r: usize)
    ensures
        r == usage_like_count(sec@),
{
    let sep = vec!['\n', '\n'];
    assert(sep@ =~= seq!['\n', '\n']);
    let bs = split_str_exec(sec, &sep);
    let ghost bv = views(bs@);
    let mut k: usize = 0;
    let mut i: usize = 0;
    while i < bs.len()
        invariant
            0 <= i <= bs@.len(),
            bv == views(bs@),
            k <= i,
            k == keep(bv.take(i as int), |b: Seq<char>| usage_like(b)).len(),
        decreases bs@.len() - i,
    {
        assert(bv.take(i + 1).drop_last() =~= bv.take(i as int));
        assert(bv.take(i + 1).last() == bs@[i as int]@);
        if usage_like_exec(&bs[i]) {
            k = k + 1;
        }
        i = i + 1;
    }
    assert(bv.take(bs@.len() as int) =~= bv);
    k
}

fn count_complete_modules(ms: &Vec<StructuredUsageModule>) -> (r: usize)
    ensures
        r == complete_modules(module_views(ms@)),
{
    let ghost mv = module_views(ms@);
    let mut k: usize = 0;
    let mut i: usize = 0;
    while i < ms.len()
        invariant
            0 <= i <= ms@.len(),
            mv == module_views(ms@),
            k <= i,
            k == keep(mv.take(i as int), |m: UsageModuleV| is_complete_module(m)).len(),
        decreases ms@.len() - i,
    {
        assert(mv.take(i + 1).drop_last() =~= mv.take(i as int));
        assert(mv.take(i + 1).last() == ms@[i as int]@);
        let m = &ms[i];
        let t = chars_of(m.title.as_str());
        let e = chars_of(m.explanation.as_str());
        let d = chars_of(m.example_de.as_str());
        let z = chars_of(m.example_zh.as_str());
        if trim_exec(&t).len() > 0 && trim_exec(&e).len() > 0 && trim_exec(&d).len() > 0
            && trim_exec(&z).len() > 0 {
            k = k + 1;
        }
        i = i + 1;
    }
    assert(mv.take(ms@.len() as int) =~= mv);
    k
}

/// The trimmed rows of the section's tables, header included.
fn table_lines_exec(sec: &Vec<char>) -> (r: Vec<Vec<char>>)
    ensures
        views(r@) == table_lines(sec@),
{
    let ls = lines_exec(sec);
    let ghost lv = views(ls@);
    let bar = vec!['|'];
    let sepr = vec![':', '-', '-', '-'];
    assert(bar@ =~= seq!['|']);
    assert(sepr@ =~= seq![':', '-', '-', '-']);
    let mut r: Vec<Vec<char>> = Vec::new();
    let mut i: usize = 0;
    while i < ls.len()
        invariant
            0 <= i <= ls@.len(),
            lv == views(ls@),
            bar@ == seq!['|'],
            sepr@ == seq![':', '-', '-', '-'],
            views(r@) == keep(
                lv.take(i as int).map_values(|l: Seq<char>| trim(l)),
                |l: Seq<char>| is_table_line(l),
            ),
        decreases ls@.len() - i,
    {
        let ghost tv = lv.take(i as int).map_values(|l: Seq<char>| trim(l));
        let t = trim_exec(&ls[i]);
        assert(lv.take(i + 1).map_values(|l: Seq<char>| trim(l)) =~= tv.push(t@));
        assert(tv.push(t@).drop_last() =~= tv);
        if starts_with_exec(&t, &bar) && !contains_exec(&t, &sepr) {
            let ghost before = views(r@);
            r.push(t);
            assert(views(r@) =~= before.push(t@));
        }
        i = i + 1;
    }
    assert(lv.take(ls@.len() as int) =~= lv);
    r
}

fn count_markdown_table_rows(sec: &Vec<char>) -> (r: usize)
    ensures
        r == table_row_count(sec@),
{
    let tl = table_lines_exec(sec);
    if tl.len() >= 1 {
        tl.len() - 1
    } else {
        0
    }
}

/// The trimmed cells of a table row, between its outer bars.
pub fn parse_markdown_table_cells(line: &Vec<char>) -> (r: Option<Vec<Vec<char>>>)
    ensures
        r matches Some(cells) && views(cells@) == table_cells(line@),
{
    let bar: [char; 1] = ['|'];
    assert(bar@ =~= seq!['|']);
    let inner = strip_both_exec(line, false, &bar);
    let ps = pieces_exec(&inner, false, &bar);
    let ghost pv = views(ps@);
    let mut cells: Vec<Vec<char>> = Vec::new();
    let mut i: usize = 0;
    while i < ps.len()
        invariant
            0 <= i <= ps@.len(),
            pv == views(ps@),
            views(cells@) =~= pv.take(i as int).map_values(|c: Seq<char>| trim(c)),
        decreases ps@.len() - i,
    {
        let t = trim_exec(&ps[i]);
        cells.push(t);
        assert(pv.take(i + 1).map_values(|c: Seq<char>| trim(c)) =~= pv.take(i as int).map_values(
            |c: Seq<char>| trim(c),
        ).push(trim(pv[i as int])));
        i = i + 1;
    }
    assert(pv.take(ps@.len() as int) =~= pv);
    Some(cells)
}

fn count_collocation_style_grammar_rows(sec: &Vec<char>, d: &StructuredAnalysisDocument) -> (r: usize)
    ensures
        r == collocation_row_count(sec@, d@),
{
    let tl = table_lines_exec(sec);
    let ghost tv = views(tl@);
    if d.collocations.len() == 0 || tl.len() == 0 {
        return 0;
    }
    let k1 = vec!['搭', '配'];
    let k2 = vec!['固', '定', '表', '达'];
    assert(k1@ =~= seq!['搭', '配']);
    assert(k2@ =~= seq!['固', '定', '表', '达']);
    let ghost body = tv.skip(1);
    let mut k: usize = 0;
    let mut i: usize = 1;
    assert(body.take(0) =~= Seq::<Seq<char>>::empty());
    while i < tl.len()
        invariant
            1 <= i <= tl@.len(),
            tv == views(tl@),
            body == tv.skip(1),
            k1@ == seq!['搭', '配'],
            k2@ == seq!['固', '定', '表', '达'],
            k <= i,
            k == keep(body.take(i - 1), |l: Seq<char>| is_collocation_row(l)).len(),
        decreases tl@.len() - i,
    {
        assert(body.take(i as int).drop_last() =~= body.take(i - 1));
        assert(body.take(i as int).last() == tl@[i as int]@);
        match parse_markdown_table_cells(&tl[i]) {
            Some(cells) => {
                proof {
                    let pp = pieces(strip_both(tl@[i as int]@, false, seq!['|']), false, seq!['|']);
                    lemma_pieces_len(strip_both(tl@[i as int]@, false, seq!['|']), false, seq!['|']);
                    assert(pp.len() >= 1);
                    assert(table_cells(tl@[i as int]@).len() == pp.len());
                    assert(views(cells@).len() == cells@.len());
                    assert(cells@.len() >= 1);
                    assert(views(cells@)[0] == cells@[0]@);
                    assert(table_cells(tl@[i as int]@)[0] == cells@[0]@);
                }
                if cells.len() > 0 && (contains_exec(&cells[0], &k1) || contains_exec(&cells[0], &k2)) {
                    k = k + 1;
                }
            },
            None => {},
        }
        i = i + 1;
    }
    assert(body.take(tl@.len() - 1) =~= body);
    k
}


fn is_any_word_network_bucket_line(l: &Vec<char>) -> (r: bool)
    ensures
        r == is_any_bucket_line(l@),
{
    let fam = vec!['词', '族'];
    let syn = vec!['同', '义', '词'];
    let ant = vec!['反', '义', '词'];
    assert(fam@ =~= family_label());
    assert(syn@ =~= synonyms_label());
    assert(ant@ =~= antonyms_label());
    is_bucket_line_exec(l, &fam) || is_bucket_line_exec(l, &syn) || is_bucket_line_exec(l, &ant)
}

fn has_word_network_bucket(ls: &Vec<Vec<char>>, b: &Vec<char>) -> (r: bool)
    ensures
        r == exists|i: int| 0 <= i < ls@.len() && is_bucket_line(#[trigger] views(ls@)[i], b@),
{
    let mut i: usize = 0;
    while i < ls.len()
        invariant
            0 <= i <= ls@.len(),
            forall|j: int| 0 <= j < i ==> !is_bucket_line(#[trigger] views(ls@)[j], b@),
        decreases ls@.len() - i,
    {
        if is_bucket_line_exec(&ls[i], b) {
            assert(is_bucket_line(views(ls@)[i as int], b@));
            return true;
        }
        i = i + 1;
    }
    false
}

fn has_word_network_items(ls: &Vec<Vec<char>>) -> (r: bool)
    ensures
        r == exists|i: int| 0 <= i < ls@.len() && is_item_line(#[trigger] views(ls@)[i]),
{
    let star = vec!['*'];
    let dash = vec!['-'];
    let nv = vec!['无', '高', '价', '值', '项'];
    assert(star@ =~= seq!['*']);
    assert(dash@ =~= seq!['-']);
    assert(nv@ =~= no_value_marker());
    let mut i: usize = 0;
    while i < ls.len()
        invariant
            0 <= i <= ls@.len(),
            star@ == seq!['*'],
            dash@ == seq!['-'],
            nv@ == no_value_marker(),
            forall|j: int| 0 <= j < i ==> !is_item_line(#[trigger] views(ls@)[j]),
        decreases ls@.len() - i,
    {
        let t = trim_exec(&ls[i]);
        if (starts_with_exec(&t, &star) || starts_with_exec(&t, &dash))
            && !is_any_word_network_bucket_line(&t) && !contains_exec(&t, &nv) {
            assert(is_item_line(views(ls@)[i as int]));
            return true;
        }
        i = i + 1;
    }
    false
}

fn bucket_declares_empty(ls: &Vec<Vec<char>>, b: &Vec<char>) -> (r: bool)
    ensures
        r == declares_empty_from(views(ls@), false, b@),
{
    let nv = vec!['无', '高', '价', '值', '项'];
    assert(nv@ =~= no_value_marker());
    let ghost lv = views(ls@);
    let mut in_bucket = false;
    let mut i: usize = 0;
    assert(lv.skip(0) =~= lv);
    while i < ls.len()
        invariant
            0 <= i <= ls@.len(),
            lv == views(ls@),
            nv@ == no_value_marker(),
            declares_empty_from(lv, false, b@) == declares_empty_from(lv.skip(i as int), in_bucket, b@),
        decreases ls@.len() - i,
    {
        assert(lv.skip(i as int)[0] == ls@[i as int]@);
        assert(lv.skip(i as int).drop_first() =~= lv.skip(i + 1));
        if is_bucket_line_exec(&ls[i], b) {
            in_bucket = true;
        } else if in_bucket && is_any_word_network_bucket_line(&ls[i]) {
            return false;
        } else if in_bucket && contains_exec(&ls[i], &nv) {
            return true;
        }
        i = i + 1;
    }
    false
}

/// How many lines of a deep-insight section start a top-level item with a
/// bold title.
pub fn count_top_level_deep_insight_items(section: &str) -> (r: usize)
    ensures
        r == top_level_deep_items(section@),
{
    let sec = chars_of(section);
    let ls = lines_exec(&sec);
    let ghost lv = views(ls@);
    let star = vec!['*'];
    let dash = vec!['-'];
    let bold = vec!['*', '*'];
    assert(star@ =~= seq!['*']);
    assert(dash@ =~= seq!['-']);
    assert(bold@ =~= seq!['*', '*']);
    let mut k: usize = 0;
    let mut i: usize = 0;
    while i < ls.len()
        invariant
            0 <= i <= ls@.len(),
            lv == views(ls@),
            lv == lines(section@),
            star@ == seq!['*'],
            dash@ == seq!['-'],
            bold@ == seq!['*', '*'],
            k <= i,
            k == keep(lv.take(i as int), |l: Seq<char>| is_bold_item(l)).len(),
        decreases ls@.len() - i,
    {
        assert(lv.take(i + 1).drop_last() =~= lv.take(i as int));
        assert(lv.take(i + 1).last() == ls@[i as int]@);
        let l = &ls[i];
        if (starts_with_exec(l, &star) || starts_with_exec(l, &dash)) {
            let rest = slice_of(l, 1, l.len());
            assert(rest@ =~= l@.skip(1));
            let t = trim_start_exec(&rest);
            if starts_with_exec(&t, &bold) {
                k = k + 1;
            }
        }
        i = i + 1;
    }
    assert(lv.take(ls@.len() as int) =~= lv);
    k
}

fn has_explicit_etymology_subsection(ls: &Vec<Vec<char>>) -> (r: bool)
    ensures
        r == exists|i: int| 0 <= i < ls@.len() && is_etymology_line(#[trigger] views(ls@)[i]),
{
    let star = vec!['*'];
    let dash = vec!['-'];
    let ety = vec!['词', '源'];
    let lat = chars_of("etymolog");
    assert(star@ =~= seq!['*']);
    assert(dash@ =~= seq!['-']);
    assert(ety@ =~= etymology_zh());
    let mut i: usize = 0;
    while i < ls.len()
        invariant
            0 <= i <= ls@.len(),
            star@ == seq!['*'],
            dash@ == seq!['-'],
            ety@ == etymology_zh(),
            lat@ == "etymolog"@,
            forall|j: int| 0 <= j < i ==> !is_etymology_line(#[trigger] views(ls@)[j]),
        decreases ls@.len() - i,
    {
        let l = &ls[i];
        if starts_with_exec(l, &star) || starts_with_exec(l, &dash) {
            let t = trim_exec(l);
            let low = ascii_lower_exec(&t);
            if contains_exec(&t, &ety) || contains_exec(&low, &lat) {
                assert(is_etymology_line(views(ls@)[i as int]));
                return true;
            }
        }
        i = i + 1;
    }
    false
}

fn has_etymology_title(ins: &Vec<StructuredDeepInsight>) -> (r: bool)
    ensures
        r == has_etymology_insight(insight_views(ins@)),
{
    let ety = vec!['词', '源'];
    assert(ety@ =~= etymology_zh());
    let ghost iv = insight_views(ins@);
    let mut i: usize = 0;
    while i < ins.len()
        invariant
            0 <= i <= ins@.len(),
            iv == insight_views(ins@),
            ety@ == etymology_zh(),
            forall|j: int| 0 <= j < i ==> !contains(#[trigger] iv[j].title, etymology_zh()),
        decreases ins@.len() - i,
    {
        let t = chars_of(ins[i].title.as_str());
        if contains_exec(&t, &ety) {
            assert(contains(iv[i as int].title, etymology_zh()));
            return true;
        }
        i = i + 1;
    }
    false
}

fn message_with_counts(head: &str, a: usize, b: usize) -> (r: String)
    ensures
        r@ == head@ + decimal(a as nat) + ", got "@ + decimal(b as nat),
{
    let mut v: Vec<char> = Vec::new();
    extend_str(&mut v, head);
    let da = decimal_exec(a);
    extend(&mut v, &da);
    extend_str(&mut v, ", got ");
    let db = decimal_exec(b);
    extend(&mut v, &db);
    string_of(&v)
}

fn usage_check(n: &Vec<char>, d: &StructuredAnalysisDocument) -> (r: Option<String>)
    ensures
        r matches Some(e) ==> usage_error(n@, d@) == Some(e@),
        r is None ==> usage_error(n@, d@) is None,
{
    let heads = vec![vec!['#', '#', '#', '#', ' ', '应', '用', '与', '例', '句']];
    assert(views(heads@) =~= seq![usage_heading()]);
    match section_by_headings_exec(n, &heads) {
        None => None,
        Some(sec) => {
            let b = count_usage_like_blocks(&sec);
            let c = count_complete_modules(&d.usage_modules);
            if b > 0 && c < b {
                Some(message_with_counts("usage_modules incomplete: expected at least ", b, c))
            } else {
                None
            }
        },
    }
}

fn grammar_check(n: &Vec<char>, d: &StructuredAnalysisDocument) -> (r: Option<String>)
    ensures
        r matches Some(e) ==> grammar_error(n@, d@) == Some(e@),
        r is None ==> grammar_error(n@, d@) is None,
{
    let heads = vec![vec!['#', '#', '#', '#', ' ', '语', '法', '详', '情']];
    assert(views(heads@) =~= seq![grammar_heading()]);
    match section_by_headings_exec(n, &heads) {
        None => None,
        Some(sec) => {
            let rows = count_markdown_table_rows(&sec);
            let extra = count_collocation_style_grammar_rows(&sec, d);
            proof {
                lemma_keep_len(table_lines(sec@), |l: Seq<char>| is_table_line(l));
            }
            if d.grammar_rows.len() >= rows {
                return None;
            }
            if rows > 0 && extra < rows - d.grammar_rows.len() {
                let covered = d.grammar_rows.len() + extra;
                Some(message_with_counts("grammar_rows incomplete: expected at least ", rows, covered))
            } else {
                None
            }
        },
    }
}

fn network_check(n: &Vec<char>, d: &StructuredAnalysisDocument) -> (r: Option<String>)
    ensures
        r matches Some(e) ==> network_error(n@, d@) == Some(e@),
        r is None ==> network_error(n@, d@) is None,
{
    let heads = vec![vec!['#', '#', '#', '#', ' ', '词', '汇', '网', '络']];
    assert(views(heads@) =~= seq![word_network_heading()]);
    let sec = match section_by_headings_exec(n, &heads) {
        None => {
            return None;
        },
        Some(sec) => sec,
    };
    let ls = lines_exec(&sec);
    let fam_l = vec!['词', '族'];
    let syn_l = vec!['同', '义', '词'];
    let ant_l = vec!['反', '义', '词'];
    assert(fam_l@ =~= family_label());
    assert(syn_l@ =~= synonyms_label());
    assert(ant_l@ =~= antonyms_label());
    let fam = has_word_network_bucket(&ls, &fam_l);
    let syn = has_word_network_bucket(&ls, &syn_l);
    let ant = has_word_network_bucket(&ls, &ant_l);
    let items = has_word_network_items(&ls);
    let net = &d.word_network;
    if items && !(fam || syn || ant) {
        Some(owned("word_network section has list items but no relation buckets"))
    } else if fam && !bucket_declares_empty(&ls, &fam_l) && net.family.len() == 0 {
        Some(owned("word_network.family missing despite family subsection"))
    } else if syn && !bucket_declares_empty(&ls, &syn_l) && net.synonyms.len() == 0 {
        Some(owned("word_network.synonyms missing despite synonym subsection"))
    } else if ant && !bucket_declares_empty(&ls, &ant_l) && net.antonyms.len() == 0 {
        Some(owned("word_network.antonyms missing despite antonym subsection"))
    } else if items && net.family.len() == 0 && net.synonyms.len() == 0 && net.antonyms.len()
        == 0 {
        Some(owned("word_network structured buckets empty despite visible items"))
    } else {
        None
    }
}

fn deep_check(n: &Vec<char>, d: &StructuredAnalysisDocument) -> (r: Option<String>)
    ensures
        r matches Some(e) ==> deep_error(n@, d@) == Some(e@),
        r is None ==> deep_error(n@, d@) is None,
{
    let mut heads: Vec<Vec<char>> = Vec::new();
    heads.push(vec!['#', '#', '#', '#', ' ', '深', '度', '解', '析', '与', '避', '坑']);
    heads.push(vec!['#', '#', '#', '#', ' ', '深', '度', '解', '析']);
    heads.push(vec!['#', '#', '#', '#', ' ', '避', '坑']);
    assert(views(heads@) =~= deep_headings());
    let sec = match section_by_headings_exec(n, &heads) {
        None => {
            return None;
        },
        Some(sec) => sec,
    };
    let s = string_of(&sec);
    let k = count_top_level_deep_insight_items(s.as_str());
    let have = d.deep_insights.len();
    if k > 0 && have < k {
        return Some(message_with_counts("deep_insights incomplete: expected at least ", k, have));
    }
    let ls = lines_exec(&sec);
    if has_explicit_etymology_subsection(&ls) && !has_etymology_title(&d.deep_insights) {
        Some(owned("etymology subsection missing from deep_insights"))
    } else {
        None
    }
}

/// Checks that the structured document holds every usage module, grammar row,
/// word-network bucket and deep insight that the markdown shows; the error
/// names the first shortfall.
pub fn validate_structured_capture(markdown: &str, structured: &StructuredAnalysisDocument) -> (r:
    Result<(), String>)
    ensures
        match r {
            Ok(_) => capture_error(markdown@, structured@) is None,
            Err(e) => capture_error(markdown@, structured@) == Some(e@),
        },
{
    let md = chars_of(markdown);
    let n = remove_char_exec(&md, '\r');
    if let Some(e) = usage_check(&n, structured) {
        return Err(e);
    }
    if let Some(e) = grammar_check(&n, structured) {
        return Err(e);
    }
    if let Some(e) = network_check(&n, structured) {
        return Err(e);
    }
    if let Some(e) = deep_check(&n, structured) {
        return Err(e);
    }
    Ok(())
}

} // verus!
