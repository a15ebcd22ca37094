//! A first structured document read directly off the analysis markdown:
//! usage modules, the word network and the deep insights.

use vstd::prelude::*;
use crate::text::{
    chars_of, contains, contains_exec, find, find_exec, join, join_exec, lemma_find_from_props, match_at,
    lines, lines_exec, non_empty, non_empty_exec, pieces, pieces_exec, slice_of, split_str, split_str_exec, starts_with, starts_with_exec, string_of, strip_both,
    strip_both_exec, strip_end, strip_end_exec, strip_start, strip_start_exec, trim, trim_exec, views,
};
use crate::markdown::{
    is_bucket_line, is_bucket_line_exec, one_heading, section_by_headings, section_by_headings_exec,
    strip_wrapping_pair, strip_wrapping_pair_exec,
};
use crate::models::{
    insight_views, module_views, DeepInsightV, DocumentV, StructuredAnalysisDocument, StructuredDeepInsight, StructuredUsageModule, UsageModuleV, StructuredWordNetwork, StructuredWordNetworkItem, WordNetworkItemV, WordNetworkV};

verus! {

// ---------------------------------------------------------------------------
// Word-network items
// ---------------------------------------------------------------------------

/// The list markers stripped in front of a word-network item.
pub open spec fn item_marks() -> Seq<char> {
    seq!['*', '-', ' ']
}

/// The marker a model writes for an empty relation bucket.
pub open spec fn no_value_marker() -> Seq<char> {
    seq!['无', '高', '价', '值', '项']
}

/// The term of an item line and the text after it: the term is either in
/// `[..]`, or before the first `(`, or before the first space.  `None` when a
/// `[` is never closed.
pub open spec fn split_item(l: Seq<char>) -> Option<(Seq<char>, Seq<char>)> {
    match find(l, seq!['[']) {
        Some(s) => match find(l.skip(s + 1), seq![']']) {
            None => None,
            Some(e) => Some((l.subrange(s + 1, s + 1 + e), trim(l.skip(s + 2 + e)))),
        },
        None => match find(l, seq!['(']) {
            Some(p) => Some(
                (trim(l.take(p)), trim(strip_start(l.skip(p), false, seq![' ', '-']))),
            ),
            None => match find(l, seq![' ']) {
                Some(k) => Some((trim(l.take(k)), trim(l.skip(k + 1)))),
                None => Some((l, Seq::empty())),
            },
        },
    }
}

/// The detail text after a term, without leading separators and without one
/// wrapping pair of parentheses.
pub open spec fn clean_detail(d: Seq<char>) -> Seq<char> {
    let d1 = trim(strip_start(trim(d), false, seq![' ', ',', '-']));
    match strip_wrapping_pair(d1) {
        Some(x) => trim(x),
        None => trim(d1),
    }
}

/// One comma-separated part of the detail, without `*` emphasis and without
/// one wrapping pair of parentheses.
pub open spec fn clean_part(p: Seq<char>) -> Seq<char> {
    let p1 = trim(strip_both(trim(p), false, seq!['*']));
    match strip_wrapping_pair(p1) {
        Some(x) => trim(x),
        None => trim(p1),
    }
}

/// The non-empty cleaned parts of a detail text.
pub open spec fn detail_parts(detail: Seq<char>) -> Seq<Seq<char>> {
    non_empty(pieces(detail, false, seq![',']).map_values(|p: Seq<char>| clean_part(p)))
}

/// Part of speech, Chinese and English of a detail text: the last part is the
/// English, the one before it the Chinese, and all before those, joined by
/// `", "`, the part of speech.  With fewer parts the fields fill from the left.
pub open spec fn parse_detail(detail: Seq<char>) -> (Seq<char>, Seq<char>, Seq<char>) {
    let ps = detail_parts(detail);
    if ps.len() == 0 {
        (Seq::empty(), Seq::empty(), Seq::empty())
    } else if ps.len() == 1 {
        (ps[0], Seq::empty(), Seq::empty())
    } else if ps.len() == 2 {
        (ps[0], ps[1], Seq::empty())
    } else {
        (join(ps.take(ps.len() - 2), seq![',', ' ']), ps[ps.len() - 2], ps[ps.len() - 1])
    }
}

/// The item a word-network line describes, if any.
pub open spec fn parse_item(line: Seq<char>) -> Option<WordNetworkItemV> {
    let l = trim(strip_start(line, false, item_marks()));
    if l.len() == 0 || contains(l, no_value_marker()) {
        None
    } else {
        match split_item(l) {
            None => None,
            Some(tr) => {
                if tr.0.len() == 0 {
                    None
                } else {
                    let d = parse_detail(clean_detail(tr.1));
                    Some(
                        WordNetworkItemV {
                            term: tr.0,
                            part_of_speech: d.0,
                            chinese: d.1,
                            english: d.2,
                            note: Seq::empty(),
                        },
                    )
                }
            },
        }
    }
}

fn split_item_exec(l: &Vec<char>) -> (r: Option<(Vec<char>, Vec<char>)>)
    ensures
        r matches Some(tr) ==> split_item(l@) == Some((tr.0@, tr.1@)),
        r is None ==> split_item(l@) is None,
{
    let n = l.len();
    let open = vec!['['];
    let close = vec![']'];
    let paren = vec!['('];
    let space = vec![' '];
    assert(open@ =~= seq!['[']);
    assert(close@ =~= seq![']']);
    assert(paren@ =~= seq!['(']);
    assert(space@ =~= seq![' ']);
    match find_exec(l, &open) {
        Some(s) => {
            proof {
                lemma_find_from_props(l@, seq!['['], 0);
                assert(match_at(l@, seq!['['], s as int));
                assert(seq!['['].len() == 1);
            }
            let after = slice_of(l, s + 1, l.len());
            assert(after@ =~= l@.skip(s + 1));
            match find_exec(&after, &close) {
                None => None,
                Some(e) => {
                    proof {
                        lemma_find_from_props(after@, seq![']'], 0);
                    }
                    let term = slice_of(l, s + 1, s + 1 + e);
                    let tail = slice_of(l, s + 2 + e, l.len());
                    assert(tail@ =~= l@.skip(s + 2 + e));
                    let rest = trim_exec(&tail);
                    Some((term, rest))
                },
            }
        },
        None => match find_exec(l, &paren) {
            Some(p) => {
                proof {
                    lemma_find_from_props(l@, seq!['('], 0);
                }
                let head = slice_of(l, 0, p);
                assert(head@ =~= l@.take(p as int));
                let tail = slice_of(l, p, l.len());
                assert(tail@ =~= l@.skip(p as int));
                let marks: [char; 2] = [' ', '-'];
                assert(marks@ =~= seq![' ', '-']);
                let t2 = strip_start_exec(&tail, false, &marks);
                Some((trim_exec(&head), trim_exec(&t2)))
            },
            None => match find_exec(l, &space) {
                Some(k) => {
                    proof {
                        lemma_find_from_props(l@, seq![' '], 0);
                        assert(match_at(l@, seq![' '], k as int));
                        assert(seq![' '].len() == 1);
                    }
                    let head = slice_of(l, 0, k);
                    assert(head@ =~= l@.take(k as int));
                    let tail = slice_of(l, k + 1, l.len());
                    assert(tail@ =~= l@.skip(k + 1));
                    Some((trim_exec(&head), trim_exec(&tail)))
                },
                None => {
                    let whole = slice_of(l, 0, l.len());
                    assert(whole@ =~= l@);
                    Some((whole, Vec::new()))
                },
            },
        },
    }
}

fn clean_detail_exec(d: &Vec<char>) -> (r: Vec<char>)
    ensures
        r@ == clean_detail(d@),
{
    let marks: [char; 3] = [' ', ',', '-'];
    assert(marks@ =~= seq![' ', ',', '-']);
    let t = trim_exec(d);
    let t = strip_start_exec(&t, false, &marks);
    let d1 = trim_exec(&t);
    match strip_wrapping_pair_exec(&d1) {
        Some(x) => trim_exec(&x),
        None => trim_exec(&d1),
    }
}

fn clean_part_exec(p: &Vec<char>) -> (r: Vec<char>)
    ensures
        r@ == clean_part(p@),
{
    let star: [char; 1] = ['*'];
    assert(star@ =~= seq!['*']);
    let t = trim_exec(p);
    let t = strip_both_exec(&t, false, &star);
    let p1 = trim_exec(&t);
    match strip_wrapping_pair_exec(&p1) {
        Some(x) => trim_exec(&x),
        None => trim_exec(&p1),
    }
}

fn detail_parts_exec(detail: &Vec<char>) -> (r: Vec<Vec<char>>)
    ensures
        views(r@) == detail_parts(detail@),
{
    let comma: [char; 1] = [','];
    assert(comma@ =~= seq![',']);
    let raw = pieces_exec(detail, false, &comma);
    let ghost rv = views(raw@);
    let mut cleaned: Vec<Vec<char>> = Vec::new();
    let mut i: usize = 0;
    while i < raw.len()
        invariant
            0 <= i <= raw@.len(),
            rv == views(raw@),
            views(cleaned@) =~= rv.take(i as int).map_values(|p: Seq<char>| clean_part(p)),
        decreases raw@.len() - i,
    {
        let c = clean_part_exec(&raw[i]);
        cleaned.push(c);
        proof {
            assert(rv[i as int] == raw@[i as int]@);
            assert(rv.take(i + 1).map_values(|p: Seq<char>| clean_part(p)) =~= rv.take(
                i as int,
            ).map_values(|p: Seq<char>| clean_part(p)).push(clean_part(rv[i as int])));
        }
        i = i + 1;
    }
    assert(rv.take(raw@.len() as int) =~= rv);
    non_empty_exec(cleaned)
}

fn parse_detail_exec(detail: &Vec<char>) -> (r: (Vec<char>, Vec<char>, Vec<char>))
    ensures
        (r.0@, r.1@, r.2@) == parse_detail(detail@),
{
    let ps = detail_parts_exec(detail);
    let ghost vs = views(ps@);
    let n = ps.len();
    if n == 0 {
        (Vec::new(), Vec::new(), Vec::new())
    } else if n == 1 {
        (slice_of(&ps[0], 0, ps[0].len()), Vec::new(), Vec::new())
    } else if n == 2 {
        (slice_of(&ps[0], 0, ps[0].len()), slice_of(&ps[1], 0, ps[1].len()), Vec::new())
    } else {
        let mut head: Vec<Vec<char>> = Vec::new();
        let mut i: usize = 0;
        while i < n - 2
            invariant
                n == ps@.len(),
                n >= 3,
                0 <= i <= n - 2,
                vs == views(ps@),
                views(head@) =~= vs.take(i as int),
            decreases n - 2 - i,
        {
            let x = slice_of(&ps[i], 0, ps[i].len());
            assert(x@ =~= vs[i as int]);
            head.push(x);
            assert(vs.take(i + 1) =~= vs.take(i as int).push(vs[i as int]));
            i = i + 1;
        }
        let sep = vec![',', ' '];
        assert(sep@ =~= seq![',', ' ']);
        let pos = join_exec(&head, &sep);
        let zh = slice_of(&ps[n - 2], 0, ps[n - 2].len());
        let en = slice_of(&ps[n - 1], 0, ps[n - 1].len());
        assert(zh@ =~= vs[n - 2]);
        assert(en@ =~= vs[n - 1]);
        (pos, zh, en)
    }
}

fn parse_item_exec(line: &Vec<char>) -> (r: Option<StructuredWordNetworkItem>)
    ensures
        r matches Some(it) ==> parse_item(line@) == Some(it@),
        r is None ==> parse_item(line@) is None,
{
    let marks: [char; 3] = ['*', '-', ' '];
    assert(marks@ =~= item_marks());
    let t = strip_start_exec(line, false, &marks);
    let l = trim_exec(&t);
    let nv = vec!['无', '高', '价', '值', '项'];
    assert(nv@ =~= no_value_marker());
    if l.len() == 0 || contains_exec(&l, &nv) {
        return None;
    }
    match split_item_exec(&l) {
        None => None,
        Some(tr) => {
            let (term, rest) = tr;
            if term.len() == 0 {
                return None;
            }
            let d = clean_detail_exec(&rest);
            let (p, c, e) = parse_detail_exec(&d);
            let it = StructuredWordNetworkItem {
                term: string_of(&term),
                part_of_speech: string_of(&p),
                chinese: string_of(&c),
                english: string_of(&e),
                note: String::new(),
            };
            assert(it@ =~= parse_item(line@).unwrap());
            Some(it)
        },
    }
}


// ---------------------------------------------------------------------------
// The word network
// ---------------------------------------------------------------------------

/// `####`, the start of a heading line.
pub open spec fn heading_mark() -> Seq<char> {
    seq!['#', '#', '#', '#']
}

pub open spec fn family_label() -> Seq<char> {
    seq!['词', '族']
}

pub open spec fn synonyms_label() -> Seq<char> {
    seq!['同', '义', '词']
}

pub open spec fn antonyms_label() -> Seq<char> {
    seq!['反', '义', '词']
}

/// `#### 词汇网络`.
pub open spec fn word_network_heading() -> Seq<char> {
    seq!['#', '#', '#', '#', ' ', '词', '汇', '网', '络']
}

pub open spec fn empty_network() -> WordNetworkV {
    WordNetworkV { family: Seq::empty(), synonyms: Seq::empty(), antonyms: Seq::empty() }
}

/// The network with an item added to bucket 1 (family), 2 (synonyms) or
/// 3 (antonyms); any other bucket leaves it unchanged.
pub open spec fn add_item(net: WordNetworkV, bucket: int, it: WordNetworkItemV) -> WordNetworkV {
    if bucket == 1 {
        WordNetworkV { family: net.family.push(it), synonyms: net.synonyms, antonyms: net.antonyms }
    } else if bucket == 2 {
        WordNetworkV { family: net.family, synonyms: net.synonyms.push(it), antonyms: net.antonyms }
    } else if bucket == 3 {
        WordNetworkV { family: net.family, synonyms: net.synonyms, antonyms: net.antonyms.push(it) }
    } else {
        net
    }
}

/// One trimmed line of the word-network section: a bucket line switches the
/// current bucket, an item line adds to it.
pub open spec fn network_step(st: (int, WordNetworkV), line: Seq<char>) -> (int, WordNetworkV) {
    if starts_with(line, heading_mark()) || line.len() == 0 {
        st
    } else if is_bucket_line(line, family_label()) {
        (1, st.1)
    } else if is_bucket_line(line, synonyms_label()) {
        (2, st.1)
    } else if is_bucket_line(line, antonyms_label()) {
        (3, st.1)
    } else {
        match parse_item(line) {
            Some(it) => (st.0, add_item(st.1, st.0, it)),
            None => st,
        }
    }
}

/// The state after reading the lines in order, each trimmed.
pub open spec fn network_fold(ls: Seq<Seq<char>>) -> (int, WordNetworkV)
    decreases ls.len(),
{
    if ls.len() == 0 {
        (0, empty_network())
    } else {
        network_step(network_fold(ls.drop_last()), trim(ls.last()))
    }
}

/// The word network of the `#### 词汇网络` section; empty without one.
pub open spec fn parse_word_network(md: Seq<char>) -> WordNetworkV {
    match section_by_headings(md, seq![word_network_heading()]) {
        None => empty_network(),
        Some(sec) => network_fold(lines(sec)).1,
    }
}

fn parse_word_network_exec(md: &Vec<char>) -> (r: StructuredWordNetwork)
    ensures
        r@ == parse_word_network(md@),
{
    let heads = one_heading("#### 词汇网络");
    proof {
        reveal_strlit("#### 词汇网络");
        assert("#### 词汇网络"@ =~= word_network_heading());
        assert(views(heads@) =~= seq![word_network_heading()]);
    }
    let mut net = StructuredWordNetwork::default();
    assert(net@ =~= empty_network());
    let sec = match section_by_headings_exec(md, &heads) {
        None => {
            return net;
        },
        Some(sec) => sec,
    };
    let ls = lines_exec(&sec);
    let ghost vs = views(ls@);
    let fam = chars_of("词族");
    let syn = chars_of("同义词");
    let ant = chars_of("反义词");
    let hm = chars_of("####");
    proof {
        reveal_strlit("词族");
        reveal_strlit("同义词");
        reveal_strlit("反义词");
        reveal_strlit("####");
        assert(fam@ =~= family_label());
        assert(syn@ =~= synonyms_label());
        assert(ant@ =~= antonyms_label());
        assert(hm@ =~= heading_mark());
    }
    let mut bucket: u8 = 0;
    let mut i: usize = 0;
    while i < ls.len()
        invariant
            0 <= i <= ls@.len(),
            vs == views(ls@),
            vs == lines(sec@),
            fam@ == family_label(),
            syn@ == synonyms_label(),
            ant@ == antonyms_label(),
            hm@ == heading_mark(),
            network_fold(vs.take(i as int)) == (bucket as int, net@),
        decreases ls@.len() - i,
    {
        let line = trim_exec(&ls[i]);
        proof {
            assert(vs.take(i + 1).drop_last() =~= vs.take(i as int));
            assert(vs.take(i + 1).last() == ls@[i as int]@);
        }
        if starts_with_exec(&line, &hm) || line.len() == 0 {
        } else if is_bucket_line_exec(&line, &fam) {
            bucket = 1;
        } else if is_bucket_line_exec(&line, &syn) {
            bucket = 2;
        } else if is_bucket_line_exec(&line, &ant) {
            bucket = 3;
        } else {
            match parse_item_exec(&line) {
                Some(it) => {
                    let ghost old_net = net@;
                    let ghost itv = it@;
                    if bucket == 1 {
                        net.family.push(it);
                    } else if bucket == 2 {
                        net.synonyms.push(it);
                    } else if bucket == 3 {
                        net.antonyms.push(it);
                    }
                    assert(net@ =~= add_item(old_net, bucket as int, itv));
                },
                None => {},
            }
        }
        i = i + 1;
    }
    assert(vs.take(ls@.len() as int) =~= vs);
    net
}


// ---------------------------------------------------------------------------
// Usage modules
// ---------------------------------------------------------------------------

/// `#### 应用与例句`.
pub open spec fn usage_heading() -> Seq<char> {
    seq!['#', '#', '#', '#', ' ', '应', '用', '与', '例', '句']
}

pub open spec fn explanation_prefix() -> Seq<char> {
    seq!['用', '法', '解', '析', '：']
}

pub open spec fn example_de_prefix() -> Seq<char> {
    seq!['场', '景', '例', '句', '：']
}

pub open spec fn example_zh_prefix() -> Seq<char> {
    seq!['例', '句', '翻', '译', '：']
}

/// The non-empty lines of a block, each trimmed.
pub open spec fn trimmed_lines(b: Seq<char>) -> Seq<Seq<char>> {
    non_empty(lines(b).map_values(|l: Seq<char>| trim(l)))
}

/// What follows the prefix on the last line that starts with it.
pub open spec fn last_with_prefix(ls: Seq<Seq<char>>, p: Seq<char>) -> Option<Seq<char>>
    decreases ls.len(),
{
    if ls.len() == 0 {
        None
    } else if starts_with(ls.last(), p) {
        Some(ls.last().skip(p.len() as int))
    } else {
        last_with_prefix(ls.drop_last(), p)
    }
}

/// A value without the Chinese or ASCII parentheses around it.
pub open spec fn strip_zh_parens(v: Seq<char>) -> Seq<char> {
    trim(strip_end(strip_start(trim(v), false, seq!['（', '(']), false, seq!['）', ')']))
}

/// The labelled field of a block: the trimmed text after its prefix on the
/// last line that has it, or empty.
pub open spec fn labelled(ls: Seq<Seq<char>>, p: Seq<char>) -> Seq<char> {
    match last_with_prefix(ls, p) {
        Some(v) => trim(v),
        None => Seq::empty(),
    }
}

/// The usage module a block of at least four non-empty lines describes: a
/// title line, then labelled lines, or without labels the explanation, the
/// German example and its translation on lines two to four.  `None` when a
/// field stays empty.
pub open spec fn parse_usage_block(b: Seq<char>) -> Option<UsageModuleV> {
    let ls = trimmed_lines(b);
    if ls.len() < 4 || starts_with(ls[0], heading_mark()) {
        None
    } else {
        let title = trim(strip_end(ls[0], false, seq![':']));
        let rest = ls.skip(1);
        let e0 = labelled(rest, explanation_prefix());
        let d0 = labelled(rest, example_de_prefix());
        let z0 = strip_zh_parens(labelled(rest, example_zh_prefix()));
        let fallback = e0.len() == 0 && d0.len() == 0 && z0.len() == 0;
        let e = if fallback { ls[1] } else { e0 };
        let d = if fallback { ls[2] } else { d0 };
        let z = if fallback { strip_zh_parens(ls[3]) } else { z0 };
        if title.len() > 0 && e.len() > 0 && d.len() > 0 && z.len() > 0 {
            Some(UsageModuleV { title, explanation: e, example_de: d, example_zh: z })
        } else {
            None
        }
    }
}

/// The modules of the blocks that describe one, in order.
pub open spec fn usage_fold(bs: Seq<Seq<char>>) -> Seq<UsageModuleV>
    decreases bs.len(),
{
    if bs.len() == 0 {
        Seq::empty()
    } else {
        match parse_usage_block(bs.last()) {
            Some(m) => usage_fold(bs.drop_last()).push(m),
            None => usage_fold(bs.drop_last()),
        }
    }
}

/// The usage modules of the `#### 应用与例句` section, whose blocks are
/// separated by blank lines.
pub open spec fn parse_usage_modules(md: Seq<char>) -> Seq<UsageModuleV> {
    match section_by_headings(md, seq![usage_heading()]) {
        None => Seq::empty(),
        Some(sec) => usage_fold(split_str(sec, seq!['\n', '\n'])),
    }
}

fn last_with_prefix_exec(ls: &Vec<Vec<char>>, from: usize, p: &Vec<char>) -> (r: Option<Vec<char>>)
    requires
        from <= ls@.len(),
    ensures
        r matches Some(v) ==> last_with_prefix(views(ls@).skip(from as int), p@) == Some(v@),
        r is None ==> last_with_prefix(views(ls@).skip(from as int), p@) is None,
{
    let ghost vs = views(ls@).skip(from as int);
    let mut j: usize = ls.len();
    assert(vs.take(vs.len() as int) =~= vs);
    while j > from
        invariant
            from <= j <= ls@.len(),
            vs == views(ls@).skip(from as int),
            last_with_prefix(vs, p@) == last_with_prefix(vs.take(j - from), p@),
        decreases j,
    {
        let ghost t = vs.take(j - from);
        assert(t.last() == ls@[j - 1]@);
        if starts_with_exec(&ls[j - 1], p) {
            let v = slice_of(&ls[j - 1], p.len(), ls[j - 1].len());
            assert(v@ =~= t.last().skip(p@.len() as int));
            return Some(v);
        }
        assert(t.drop_last() =~= vs.take(j - 1 - from));
        j = j - 1;
    }
    None
}

fn labelled_exec(ls: &Vec<Vec<char>>, p: &Vec<char>) -> (r: Vec<char>)
    requires
        1 <= ls@.len(),
    ensures
        r@ == labelled(views(ls@).skip(1), p@),
{
    match last_with_prefix_exec(ls, 1, p) {
        Some(v) => trim_exec(&v),
        None => Vec::new(),
    }
}

fn strip_zh_parens_exec(v: &Vec<char>) -> (r: Vec<char>)
    ensures
        r@ == strip_zh_parens(v@),
{
    let open: [char; 2] = ['（', '('];
    let close: [char; 2] = ['）', ')'];
    assert(open@ =~= seq!['（', '(']);
    assert(close@ =~= seq!['）', ')']);
    let t = trim_exec(v);
    let t = strip_start_exec(&t, false, &open);
    let t = strip_end_exec(&t, false, &close);
    trim_exec(&t)
}

pub fn trimmed_lines_exec(b: &Vec<char>) -> (r: Vec<Vec<char>>)
    ensures
        views(r@) == trimmed_lines(b@),
{
    let raw = lines_exec(b);
    let ghost rv = views(raw@);
    let mut tl: Vec<Vec<char>> = Vec::new();
    let mut i: usize = 0;
    while i < raw.len()
        invariant
            0 <= i <= raw@.len(),
            rv == views(raw@),
            views(tl@) =~= rv.take(i as int).map_values(|l: Seq<char>| trim(l)),
        decreases raw@.len() - i,
    {
        let t = trim_exec(&raw[i]);
        tl.push(t);
        proof {
            assert(rv[i as int] == raw@[i as int]@);
            assert(rv.take(i + 1).map_values(|l: Seq<char>| trim(l)) =~= rv.take(
                i as int,
            ).map_values(|l: Seq<char>| trim(l)).push(trim(rv[i as int])));
        }
        i = i + 1;
    }
    assert(rv.take(raw@.len() as int) =~= rv);
    non_empty_exec(tl)
}

fn parse_usage_block_exec(b: &Vec<char>) -> (r: Option<StructuredUsageModule>)
    ensures
        r matches Some(m) ==> parse_usage_block(b@) == Some(m@),
        r is None ==> parse_usage_block(b@) is None,
{
    let ls = trimmed_lines_exec(b);
    let ghost lv = views(ls@);
    assert(lv == trimmed_lines(b@));
    let hm = vec!['#', '#', '#', '#'];
    assert(hm@ =~= heading_mark());
    if ls.len() < 4 || starts_with_exec(&ls[0], &hm) {
        return None;
    }
    let colon: [char; 1] = [':'];
    assert(colon@ =~= seq![':']);
    let t0 = strip_end_exec(&ls[0], false, &colon);
    let title = trim_exec(&t0);
    let ep = vec!['用', '法', '解', '析', '：'];
    let dp = vec!['场', '景', '例', '句', '：'];
    let zp = vec!['例', '句', '翻', '译', '：'];
    assert(ep@ =~= explanation_prefix());
    assert(dp@ =~= example_de_prefix());
    assert(zp@ =~= example_zh_prefix());
    let mut e = labelled_exec(&ls, &ep);
    let mut d = labelled_exec(&ls, &dp);
    let zl = labelled_exec(&ls, &zp);
    let mut z = strip_zh_parens_exec(&zl);
    if e.len() == 0 && d.len() == 0 && z.len() == 0 {
        e = slice_of(&ls[1], 0, ls[1].len());
        d = slice_of(&ls[2], 0, ls[2].len());
        z = strip_zh_parens_exec(&ls[3]);
        assert(e@ =~= lv[1]);
        assert(d@ =~= lv[2]);
    }
    if title.len() > 0 && e.len() > 0 && d.len() > 0 && z.len() > 0 {
        let m = StructuredUsageModule {
            title: string_of(&title),
            explanation: string_of(&e),
            example_de: string_of(&d),
            example_zh: string_of(&z),
        };
        assert(m@ =~= parse_usage_block(b@).unwrap());
        Some(m)
    } else {
        None
    }
}

fn parse_usage_modules_exec(md: &Vec<char>) -> (r: Vec<StructuredUsageModule>)
    ensures
        module_views(r@) == parse_usage_modules(md@),
{
    let heads = one_heading("#### 应用与例句");
    proof {
        reveal_strlit("#### 应用与例句");
        assert("#### 应用与例句"@ =~= usage_heading());
        assert(views(heads@) =~= seq![usage_heading()]);
    }
    let mut out: Vec<StructuredUsageModule> = Vec::new();
    let sec = match section_by_headings_exec(md, &heads) {
        None => {
            assert(module_views(out@) =~= Seq::empty());
            return out;
        },
        Some(sec) => sec,
    };
    let sep = vec!['\n', '\n'];
    assert(sep@ =~= seq!['\n', '\n']);
    let bs = split_str_exec(&sec, &sep);
    let ghost bv = views(bs@);
    let mut i: usize = 0;
    while i < bs.len()
        invariant
            0 <= i <= bs@.len(),
            bv == views(bs@),
            module_views(out@) =~= usage_fold(bv.take(i as int)),
        decreases bs@.len() - i,
    {
        proof {
            assert(bv.take(i + 1).drop_last() =~= bv.take(i as int));
            assert(bv.take(i + 1).last() == bs@[i as int]@);
        }
        match parse_usage_block_exec(&bs[i]) {
            Some(m) => {
                out.push(m);
            },
            None => {},
        }
        i = i + 1;
    }
    assert(bv.take(bs@.len() as int) =~= bv);
    out
}


// ---------------------------------------------------------------------------
// Deep insights
// ---------------------------------------------------------------------------

/// `#### 深度解析与避坑`, `#### 深度解析` and `#### 避坑`, tried in this order.
pub open spec fn deep_headings() -> Seq<Seq<char>> {
    seq![
        seq!['#', '#', '#', '#', ' ', '深', '度', '解', '析', '与', '避', '坑'],
        seq!['#', '#', '#', '#', ' ', '深', '度', '解', '析'],
        seq!['#', '#', '#', '#', ' ', '避', '坑'],
    ]
}

/// A list item at the start of a line (not indented).
pub open spec fn is_top_level_item(line: Seq<char>) -> bool {
    starts_with(line, seq!['*', ' ']) || starts_with(line, seq!['*', ' ', ' ', ' ']) || starts_with(
        line,
        seq!['-', ' '],
    )
}

/// The item's text without its list marker.
pub open spec fn unmarked(line: Seq<char>) -> Seq<char> {
    if starts_with(line, seq!['*', ' ', ' ', ' ']) {
        line.skip(4)
    } else if starts_with(line, seq!['*', ' ']) {
        line.skip(2)
    } else if starts_with(line, seq!['-', ' ', ' ', ' ']) {
        line.skip(4)
    } else if starts_with(line, seq!['-', ' ']) {
        line.skip(2)
    } else {
        line
    }
}

/// The title of an insight item and the text after it on the same line: a
/// leading `**..**` is the title and what follows (after `:`, `：` and
/// spaces) the text; otherwise the whole item is the title.
pub open spec fn deep_title(line: Seq<char>) -> (Seq<char>, Seq<char>) {
    let c = trim(unmarked(line));
    if starts_with(c, seq!['*', '*']) {
        let st = c.skip(2);
        match find(st, seq!['*', '*']) {
            Some(e) => (trim(st.take(e)), trim(strip_start(st.skip(e + 2), false, seq![':', '：', ' ']))),
            None => (c, Seq::empty()),
        }
    } else {
        (c, Seq::empty())
    }
}

/// The insights with the pending one added, when both its title and its
/// text are non-blank.
pub open spec fn flush(ins: Seq<DeepInsightV>, title: Seq<char>, content: Seq<Seq<char>>) -> Seq<DeepInsightV> {
    let body = trim(join(content, seq!['\n']));
    if trim(title).len() == 0 || body.len() == 0 {
        ins
    } else {
        ins.push(DeepInsightV { title: trim(title), content_markdown: body })
    }
}

/// One line of the insight section: a top-level item closes the pending
/// insight and opens a new one; other lines add to the pending one.
pub open spec fn deep_step(
    st: (Seq<DeepInsightV>, Seq<char>, Seq<Seq<char>>),
    line: Seq<char>,
) -> (Seq<DeepInsightV>, Seq<char>, Seq<Seq<char>>) {
    let t = trim(line);
    if starts_with(t, heading_mark()) || t.len() == 0 {
        st
    } else if is_top_level_item(line) {
        let tt = deep_title(t);
        (
            flush(st.0, st.1, st.2),
            tt.0,
            if tt.1.len() > 0 {
                seq![tt.1]
            } else {
                Seq::empty()
            },
        )
    } else if st.1.len() > 0 {
        (st.0, st.1, st.2.push(t))
    } else {
        st
    }
}

pub open spec fn deep_fold(ls: Seq<Seq<char>>) -> (Seq<DeepInsightV>, Seq<char>, Seq<Seq<char>>)
    decreases ls.len(),
{
    if ls.len() == 0 {
        (Seq::empty(), Seq::empty(), Seq::empty())
    } else {
        deep_step(deep_fold(ls.drop_last()), ls.last())
    }
}

/// The insights of the deep-analysis section; none without one.
pub open spec fn parse_deep_insights(md: Seq<char>) -> Seq<DeepInsightV> {
    match section_by_headings(md, deep_headings()) {
        None => Seq::empty(),
        Some(sec) => {
            let st = deep_fold(lines(sec));
            flush(st.0, st.1, st.2)
        },
    }
}

fn unmarked_exec(line: &Vec<char>) -> (r: Vec<char>)
    ensures
        r@ == unmarked(line@),
{
    let a = vec!['*', ' ', ' ', ' '];
    let b = vec!['*', ' '];
    let c = vec!['-', ' ', ' ', ' '];
    let d = vec!['-', ' '];
    assert(a@ =~= seq!['*', ' ', ' ', ' ']);
    assert(b@ =~= seq!['*', ' ']);
    assert(c@ =~= seq!['-', ' ', ' ', ' ']);
    assert(d@ =~= seq!['-', ' ']);
    let n = line.len();
    if starts_with_exec(line, &a) {
        slice_of(line, 4, n)
    } else if starts_with_exec(line, &b) {
        slice_of(line, 2, n)
    } else if starts_with_exec(line, &c) {
        slice_of(line, 4, n)
    } else if starts_with_exec(line, &d) {
        slice_of(line, 2, n)
    } else {
        slice_of(line, 0, n)
    }
}

fn deep_title_exec(line: &Vec<char>) -> (r: (Vec<char>, Vec<char>))
    ensures
        (r.0@, r.1@) == deep_title(line@),
{
    let u = unmarked_exec(line);
    let c = trim_exec(&u);
    let bold = vec!['*', '*'];
    assert(bold@ =~= seq!['*', '*']);
    if starts_with_exec(&c, &bold) {
        let n = c.len();
        let st = slice_of(&c, 2, n);
        assert(st@ =~= c@.skip(2));
        match find_exec(&st, &bold) {
            Some(e) => {
                proof {
                    lemma_find_from_props(st@, seq!['*', '*'], 0);
                    assert(match_at(st@, seq!['*', '*'], e as int));
                    assert(seq!['*', '*'].len() == 2);
                }
                let m = st.len();
                let head = slice_of(&st, 0, e);
                assert(head@ =~= st@.take(e as int));
                let tail = slice_of(&st, e + 2, m);
                assert(tail@ =~= st@.skip(e + 2));
                let marks: [char; 3] = [':', '：', ' '];
                assert(marks@ =~= seq![':', '：', ' ']);
                let t = strip_start_exec(&tail, false, &marks);
                (trim_exec(&head), trim_exec(&t))
            },
            None => (c, Vec::new()),
        }
    } else {
        (c, Vec::new())
    }
}

fn flush_exec(ins: &mut Vec<StructuredDeepInsight>, title: &Vec<char>, content: &Vec<Vec<char>>)
    ensures
        insight_views(final(ins)@) == flush(insight_views(old(ins)@), title@, views(content@)),
{
    let nl = vec!['\n'];
    assert(nl@ =~= seq!['\n']);
    let tt = trim_exec(title);
    let j = join_exec(content, &nl);
    let body = trim_exec(&j);
    let ghost before = insight_views(ins@);
    if tt.len() == 0 || body.len() == 0 {
        return;
    }
    let it = StructuredDeepInsight { title: string_of(&tt), content_markdown: string_of(&body) };
    ins.push(it);
    assert(insight_views(ins@) =~= before.push(
        DeepInsightV { title: tt@, content_markdown: body@ },
    ));
}

fn parse_deep_insights_exec(md: &Vec<char>) -> (r: Vec<StructuredDeepInsight>)
    ensures
        insight_views(r@) == parse_deep_insights(md@),
{
    let mut heads: Vec<Vec<char>> = Vec::new();
    heads.push(vec!['#', '#', '#', '#', ' ', '深', '度', '解', '析', '与', '避', '坑']);
    heads.push(vec!['#', '#', '#', '#', ' ', '深', '度', '解', '析']);
    heads.push(vec!['#', '#', '#', '#', ' ', '避', '坑']);
    assert(views(heads@) =~= deep_headings());
    let mut ins: Vec<StructuredDeepInsight> = Vec::new();
    let sec = match section_by_headings_exec(md, &heads) {
        None => {
            assert(insight_views(ins@) =~= Seq::empty());
            return ins;
        },
        Some(sec) => sec,
    };
    let ls = lines_exec(&sec);
    let ghost vs = views(ls@);
    let hm = vec!['#', '#', '#', '#'];
    assert(hm@ =~= heading_mark());
    let s1 = vec!['*', ' '];
    let s2 = vec!['*', ' ', ' ', ' '];
    let s3 = vec!['-', ' '];
    assert(s1@ =~= seq!['*', ' ']);
    assert(s2@ =~= seq!['*', ' ', ' ', ' ']);
    assert(s3@ =~= seq!['-', ' ']);
    let mut title: Vec<char> = Vec::new();
    let mut content: Vec<Vec<char>> = Vec::new();
    assert(insight_views(ins@) =~= Seq::empty());
    assert(views(content@) =~= Seq::empty());
    assert(deep_fold(vs.take(0)) == (insight_views(ins@), title@, views(content@)));
    let mut i: usize = 0;
    while i < ls.len()
        invariant
            0 <= i <= ls@.len(),
            vs == views(ls@),
            hm@ == heading_mark(),
            s1@ == seq!['*', ' '],
            s2@ == seq!['*', ' ', ' ', ' '],
            s3@ == seq!['-', ' '],
            deep_fold(vs.take(i as int)) == (insight_views(ins@), title@, views(content@)),
        decreases ls@.len() - i,
    {
        proof {
            assert(vs.take(i + 1).drop_last() =~= vs.take(i as int));
            assert(vs.take(i + 1).last() == ls@[i as int]@);
        }
        let t = trim_exec(&ls[i]);
        if starts_with_exec(&t, &hm) || t.len() == 0 {
        } else if starts_with_exec(&ls[i], &s1) || starts_with_exec(&ls[i], &s2)
            || starts_with_exec(&ls[i], &s3) {
            flush_exec(&mut ins, &title, &content);
            let (tl, inline) = deep_title_exec(&t);
            title = tl;
            content = Vec::new();
            if inline.len() > 0 {
                content.push(inline);
            }
            assert(views(content@) =~= (if inline@.len() > 0 {
                seq![inline@]
            } else {
                Seq::empty()
            }));
        } else if title.len() > 0 {
            let ghost before = views(content@);
            content.push(t);
            assert(views(content@) =~= before.push(t@));
        }
        i = i + 1;
    }
    assert(vs.take(ls@.len() as int) =~= vs);
    flush_exec(&mut ins, &title, &content);
    ins
}

// ---------------------------------------------------------------------------
// The seed document
// ---------------------------------------------------------------------------

/// The document read off the markdown: the trimmed query as headword, the
/// usage modules, the word network and the deep insights; every other field
/// empty.
pub open spec fn structure_seed(query: Seq<char>, md: Seq<char>) -> DocumentV {
    DocumentV {
        headword: trim(query),
        phonetic: Seq::empty(),
        meanings: Seq::empty(),
        usage_modules: parse_usage_modules(md),
        collocations: Seq::empty(),
        examples: Seq::empty(),
        grammar_rows: Seq::empty(),
        grammar_branches: Seq::empty(),
        word_network: parse_word_network(md),
        deep_insights: parse_deep_insights(md),
    }
}

pub fn build_structure_seed(query: &str, markdown: &str) -> (r: StructuredAnalysisDocument)
    ensures
        r@ == structure_seed(query@, markdown@),
{
    let q = chars_of(query);
    let md = chars_of(markdown);
    let hw = trim_exec(&q);
    let doc = StructuredAnalysisDocument {
        headword: string_of(&hw),
        phonetic: String::new(),
        meanings: Vec::new(),
        usage_modules: parse_usage_modules_exec(&md),
        collocations: Vec::new(),
        examples: Vec::new(),
        grammar_rows: Vec::new(),
        grammar_branches: Vec::new(),
        word_network: parse_word_network_exec(&md),
        deep_insights: parse_deep_insights_exec(&md),
    };
    assert(doc@ =~= structure_seed(query@, markdown@));
    doc
}

} // verus!
