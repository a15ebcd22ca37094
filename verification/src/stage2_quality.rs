//! Whether a second-stage analysis markdown came back whole.

use vstd::prelude::*;
use vstd::utf8::encode_utf8;
use crate::text::{
    chars_of, contains, contains_exec, decimal, decimal_exec, extend, extend_str, in_class,
    in_class_exec, remove_char, remove_char_exec, slice_of, strip_end, strip_end_exec,
    string_of, trim_end, trim_end_exec,
};

verus! {

/// The three sections a complete second-stage markdown holds, in the order
/// they are checked.
pub open spec fn stage2_headings() -> Seq<Seq<char>> {
    seq![
        "#### 应用与例句 (Anwendung & Beispiele)"@,
        "#### 词汇网络 (Wortnetz)"@,
        "#### 深度解析与避坑 (Einblicke)"@,
    ]
}

/// The first of the headings that the text lacks.
pub open spec fn first_missing(n: Seq<char>, hs: Seq<Seq<char>>) -> Option<Seq<char>>
    decreases hs.len(),
{
    if hs.len() == 0 {
        None
    } else if !contains(n, hs[0]) {
        Some(hs[0])
    } else {
        first_missing(n, hs.drop_first())
    }
}

/// The length in UTF-8 bytes, as `str::len` reports it.
pub open spec fn byte_len(t: Seq<char>) -> usize {
    encode_utf8(t).len() as usize
}

/// The text without the closing emphasis, code and quote marks that may
/// follow its last sentence.
pub open spec fn punctuation_tail(t: Seq<char>) -> Seq<char> {
    let a = strip_end(t, false, seq!['*']);
    let a = strip_end(a, false, seq!['`']);
    let a = strip_end(a, false, seq!['"']);
    let a = strip_end(a, false, seq!['\'']);
    let a = strip_end(a, false, seq!['」']);
    let a = strip_end(a, false, seq!['』']);
    let a = strip_end(a, false, seq!['”']);
    let a = strip_end(a, false, seq!['’']);
    strip_end(a, false, seq!['*'])
}

/// The characters that may end a complete text.
pub open spec fn closing_marks() -> Seq<char> {
    seq!['。', '！', '？', '.', '!', '?', ')', '）', '`']
}

/// The last 80 characters (all of them when there are fewer).
pub open spec fn tail80(t: Seq<char>) -> Seq<char> {
    if t.len() > 80 {
        t.skip(t.len() - 80)
    } else {
        t
    }
}

/// Why the markdown (without carriage returns) is not a complete second-stage
/// text, or `None`: a missing section, fewer than 800 bytes after trimming its
/// end, or an end that is no sentence end.
pub open spec fn stage2_error(md: Seq<char>) -> Option<Seq<char>> {
    let n = remove_char(md, '\r');
    match first_missing(n, stage2_headings()) {
        Some(h) => Some("grounded stage2 markdown missing section: "@ + h),
        None => {
            let t = trim_end(n);
            if byte_len(t) < 800 {
                Some("grounded stage2 markdown unexpectedly short: len="@ + decimal(byte_len(t) as nat))
            } else {
                let p = punctuation_tail(t);
                if p.len() > 0 && in_class(p.last(), false, closing_marks()) {
                    None
                } else {
                    Some("grounded stage2 markdown appears truncated: tail="@ + tail80(t))
                }
            }
        },
    }
}

fn punctuation_tail_exec(t: &Vec<char>) -> (r: Vec<char>)
    ensures
        r@ == punctuation_tail(t@),
{
    let m1: [char; 1] = ['*'];
    let m2: [char; 1] = ['`'];
    let m3: [char; 1] = ['"'];
    let m4: [char; 1] = ['\''];
    let m5: [char; 1] = ['」'];
    let m6: [char; 1] = ['』'];
    let m7: [char; 1] = ['”'];
    let m8: [char; 1] = ['’'];
    assert(m1@ =~= seq!['*']);
    assert(m2@ =~= seq!['`']);
    assert(m3@ =~= seq!['"']);
    assert(m4@ =~= seq!['\'']);
    assert(m5@ =~= seq!['」']);
    assert(m6@ =~= seq!['』']);
    assert(m7@ =~= seq!['”']);
    assert(m8@ =~= seq!['’']);
    let a = strip_end_exec(t, false, &m1);
    let a = strip_end_exec(&a, false, &m2);
    let a = strip_end_exec(&a, false, &m3);
    let a = strip_end_exec(&a, false, &m4);
    let a = strip_end_exec(&a, false, &m5);
    let a = strip_end_exec(&a, false, &m6);
    let a = strip_end_exec(&a, false, &m7);
    let a = strip_end_exec(&a, false, &m8);
    strip_end_exec(&a, false, &m1)
}

/// Checks that the markdown has its three sections, is not unexpectedly
/// short, and ends like a finished sentence.
pub fn validate_stage2_markdown_completeness(markdown: &str) -> (r: Result<(), String>)
    ensures
        match r {
            Ok(_) => stage2_error(markdown@) is None,
            Err(e) => stage2_error(markdown@) == Some(e@),
        },
{
    let md = chars_of(markdown);
    let n = remove_char_exec(&md, '\r');
    let mut hs: Vec<Vec<char>> = Vec::new();
    hs.push(chars_of("#### 应用与例句 (Anwendung & Beispiele)"));
    hs.push(chars_of("#### 词汇网络 (Wortnetz)"));
    hs.push(chars_of("#### 深度解析与避坑 (Einblicke)"));
    let ghost hv = seq![hs@[0]@, hs@[1]@, hs@[2]@];
    assert(hv =~= stage2_headings());
    let mut i: usize = 0;
    assert(hv.skip(0) =~= hv);
    while i < 3
        invariant
            0 <= i <= 3,
            hs@.len() == 3,
            hv == seq![hs@[0]@, hs@[1]@, hs@[2]@],
            hv == stage2_headings(),
            n@ == remove_char(markdown@, '\r'),
            first_missing(n@, hv) == first_missing(n@, hv.skip(i as int)),
        decreases 3 - i,
    {
        assert(hv.skip(i as int).len() == 3 - i);
        assert(hv.skip(i as int)[0] == hs@[i as int]@);
        assert(hv.skip(i as int).drop_first() =~= hv.skip(i + 1));
        if !contains_exec(&n, &hs[i]) {
            let mut msg: Vec<char> = Vec::new();
            extend_str(&mut msg, "grounded stage2 markdown missing section: ");
            extend(&mut msg, &hs[i]);
            assert(first_missing(n@, hv.skip(i as int)) == Some(hs@[i as int]@));
            return Err(string_of(&msg));
        }
        i = i + 1;
    }
    assert(hv.skip(3).len() == 0);
    let t = trim_end_exec(&n);
    let ts = string_of(&t);
    let blen = ts.as_str().len();
    if blen < 800 {
        let mut msg: Vec<char> = Vec::new();
        extend_str(&mut msg, "grounded stage2 markdown unexpectedly short: len=");
        let d = decimal_exec(blen);
        extend(&mut msg, &d);
        return Err(string_of(&msg));
    }
    let p = punctuation_tail_exec(&t);
    let marks: [char; 9] = ['。', '！', '？', '.', '!', '?', ')', '）', '`'];
    assert(marks@ =~= closing_marks());
    if p.len() > 0 && in_class_exec(p[p.len() - 1], false, &marks) {
        return Ok(());
    }
    let tl = t.len();
    let tail = if tl > 80 {
        slice_of(&t, tl - 80, tl)
    } else {
        slice_of(&t, 0, tl)
    };
    assert(tail@ =~= tail80(t@));
    let mut msg: Vec<char> = Vec::new();
    extend_str(&mut msg, "grounded stage2 markdown appears truncated: tail=");
    extend(&mut msg, &tail);
    Err(string_of(&msg))
}

} // verus!
