//! Markdown sections and list conventions of the analysis text.

use vstd::prelude::*;
use crate::text::{
    chars_of, contains, contains_exec, ends_with, extend, find, find_exec, find_from, find_from_exec,
    lemma_find_from_props, slice_of, starts_with, starts_with_exec, strip_both, strip_both_exec,
    strip_start, strip_start_exec, trim, trim_exec, views,
};

verus! {

/// The text that starts the next `####` heading.
pub open spec fn heading_break() -> Seq<char> {
    seq!['\n', '#', '#', '#', '#', ' ']
}

/// The position of the first of the headings that occurs, trying them in order.
pub open spec fn first_heading_at(md: Seq<char>, hs: Seq<Seq<char>>) -> Option<int>
    decreases hs.len(),
{
    if hs.len() == 0 {
        None
    } else {
        match find(md, hs[0]) {
            Some(i) => Some(i),
            None => first_heading_at(md, hs.drop_first()),
        }
    }
}

/// The section that starts at the first heading found and runs up to the next
/// `\n#### ` (not counting one at the section's first character).
pub open spec fn section_by_headings(md: Seq<char>, hs: Seq<Seq<char>>) -> Option<Seq<char>> {
    match first_heading_at(md, hs) {
        None => None,
        Some(st) => {
            let sec = md.skip(st);
            match find_from(sec, heading_break(), 1) {
                Some(e) => Some(sec.take(e)),
                None => Some(sec),
            }
        },
    }
}

pub fn first_heading_exec(md: &Vec<char>, hs: &Vec<Vec<char>>) -> (r: Option<usize>)
    ensures
        r matches Some(k) ==> first_heading_at(md@, views(hs@)) == Some(k as int) && k
            <= md@.len(),
        r is None ==> first_heading_at(md@, views(hs@)) is None,
{
    let mut i: usize = 0;
    assert(views(hs@).skip(0) =~= views(hs@));
    while i < hs.len()
        invariant
            0 <= i <= hs@.len(),
            first_heading_at(md@, views(hs@)) == first_heading_at(md@, views(hs@).skip(i as int)),
        decreases hs@.len() - i,
    {
        let ghost rest = views(hs@).skip(i as int);
        assert(rest[0] == hs@[i as int]@);
        assert(rest.drop_first() =~= views(hs@).skip(i + 1));
        match find_exec(md, &hs[i]) {
            Some(k) => {
                proof {
                    lemma_find_from_props(md@, hs@[i as int]@, 0);
                }
                return Some(k);
            },
            None => {},
        }
        i = i + 1;
    }
    None
}

pub fn section_by_headings_exec(md: &Vec<char>, hs: &Vec<Vec<char>>) -> (r: Option<Vec<char>>)
    ensures
        r matches Some(v) ==> section_by_headings(md@, views(hs@)) == Some(v@),
        r is None ==> section_by_headings(md@, views(hs@)) is None,
{
    match first_heading_exec(md, hs) {
        None => None,
        Some(st) => {
            let sec = slice_of(md, st, md.len());
            assert(sec@ =~= md@.skip(st as int));
            let brk = vec!['\n', '#', '#', '#', '#', ' '];
            assert(brk@ =~= heading_break());
            if sec.len() == 0 {
                assert(find_from(sec@, heading_break(), 1) is None);
                return Some(sec);
            }
            match find_from_exec(&sec, &brk, 1) {
                Some(e) => {
                    proof {
                        lemma_find_from_props(sec@, heading_break(), 1);
                    }
                    Some(slice_of(&sec, 0, e))
                },
                None => Some(sec),
            }
        },
    }
}

/// The one heading as a list of headings.
pub fn one_heading(h: &str) -> (r: Vec<Vec<char>>)
    ensures
        views(r@) == seq![h@],
{
    let mut r: Vec<Vec<char>> = Vec::new();
    r.push(chars_of(h));
    assert(views(r@) =~= seq![h@]);
    r
}

/// The inner text of a value wrapped in `(..)` or `（..）`.
pub open spec fn strip_wrapping_pair(v: Seq<char>) -> Option<Seq<char>> {
    if v.len() > 0 && v[0] == '(' && ends_with(v.skip(1), seq![')']) {
        Some(v.skip(1).drop_last())
    } else if v.len() > 0 && v[0] == '（' && ends_with(v.skip(1), seq!['）']) {
        Some(v.skip(1).drop_last())
    } else {
        None
    }
}

pub fn strip_wrapping_pair_exec(v: &Vec<char>) -> (r: Option<Vec<char>>)
    ensures
        r matches Some(w) ==> strip_wrapping_pair(v@) == Some(w@),
        r is None ==> strip_wrapping_pair(v@) is None,
{
    if v.len() >= 2 && ((v[0] == '(' && v[v.len() - 1] == ')') || (v[0] == '（' && v[v.len() - 1]
        == '）')) {
        assert(v@.skip(1).skip(v@.skip(1).len() - 1) =~= seq![v@[v@.len() - 1]]);
        let w = slice_of(v, 1, v.len() - 1);
        assert(w@ =~= v@.skip(1).drop_last());
        Some(w)
    } else {
        proof {
            if v@.len() >= 1 {
                let t = v@.skip(1);
                if t.len() >= 1 {
                    let tail = t.skip(t.len() - 1);
                    assert(tail[0] == v@[v@.len() - 1]);
                    if ends_with(t, seq![')']) {
                        assert(tail[0] == seq![')'][0]);
                    }
                    if ends_with(t, seq!['）']) {
                        assert(tail[0] == seq!['）'][0]);
                    }
                }
            }
        }
        None
    }
}

/// The marker characters stripped in front of a bucket label.
pub open spec fn bucket_marks() -> Seq<char> {
    seq!['*', '-', ' ', '\t']
}

/// `**{bucket}**`.
pub open spec fn bold(b: Seq<char>) -> Seq<char> {
    seq!['*', '*'] + b + seq!['*', '*']
}

/// A line that opens a relation bucket of the word network: it holds the
/// bucket's name in bold, or its label starts with the name.
pub open spec fn is_bucket_line(line: Seq<char>, bucket: Seq<char>) -> bool {
    let t = trim(line);
    ||| contains(t, bold(bucket))
    ||| starts_with(trim(strip_both(trim(strip_start(t, false, bucket_marks())), false, seq!['*'])), bucket)
}

pub fn is_bucket_line_exec(line: &Vec<char>, bucket: &Vec<char>) -> (r: bool)
    ensures
        r == is_bucket_line(line@, bucket@),
{
    let t = trim_exec(line);
    let mut b: Vec<char> = vec!['*', '*'];
    extend(&mut b, bucket);
    b.push('*');
    b.push('*');
    assert(b@ =~= bold(bucket@));
    if contains_exec(&t, &b) {
        return true;
    }
    let marks: [char; 4] = ['*', '-', ' ', '\t'];
    assert(marks@ =~= bucket_marks());
    let star: [char; 1] = ['*'];
    assert(star@ =~= seq!['*']);
    let a = strip_start_exec(&t, false, &marks);
    let a = trim_exec(&a);
    let a = strip_both_exec(&a, false, &star);
    let a = trim_exec(&a);
    starts_with_exec(&a, bucket)
}

} // verus!
