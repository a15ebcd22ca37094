//! Getting a JSON object out of a model's reply: cutting it out of the
//! surrounding text and repairing unescaped quotes and truncation.

use vstd::prelude::*;
use crate::text::{
    chars_of, find, find_exec, is_whitespace, is_ws, lemma_find_from_props, lemma_trail_bound,
    match_at, rfind_char, rfind_char_exec, slice_of, string_of, trim, trim_end, trim_end_exec,
    trim_exec,
};

verus! {

// ---------------------------------------------------------------------------
// The candidate text
// ---------------------------------------------------------------------------

/// Whether the last `}` does not stand before the first `{` by more than one
/// character (otherwise cutting the candidate out is not possible).
pub open spec fn candidate_bounds_ok(raw: Seq<char>) -> bool {
    match (find(raw, seq!['{']), rfind_char(raw, '}')) {
        (Some(st), Some(e)) => st <= e + 1,
        _ => true,
    }
}

/// From the first `{` to the last `}`; to the end without a `}`; the whole
/// text without a `{`.
pub open spec fn candidate_of(raw: Seq<char>) -> Seq<char> {
    match find(raw, seq!['{']) {
        None => raw,
        Some(st) => match rfind_char(raw, '}') {
            Some(e) => raw.subrange(st, e + 1),
            None => raw.skip(st),
        },
    }
}

proof fn lemma_rfind_char(s: Seq<char>, c: char)
    ensures
        rfind_char(s, c) matches Some(e) ==> 0 <= e < s.len() && s[e] == c,
    decreases s.len(),
{
    if s.len() > 0 && s.last() != c {
        lemma_rfind_char(s.drop_last(), c);
    }
}

fn candidate_exec(raw: &Vec<char>) -> (r: Vec<char>)
    requires
        candidate_bounds_ok(raw@),
    ensures
        r@ == candidate_of(raw@),
{
    let n = raw.len();
    let open = vec!['{'];
    assert(open@ =~= seq!['{']);
    match find_exec(raw, &open) {
        None => slice_of(raw, 0, raw.len()),
        Some(st) => {
            proof {
                lemma_find_from_props(raw@, seq!['{'], 0);
                assert(match_at(raw@, seq!['{'], st as int));
                assert(seq!['{'].len() == 1);
            }
            match rfind_char_exec(raw, '}') {
                Some(e) => {
                    proof {
                        lemma_rfind_char(raw@, '}');
                    }
                    slice_of(raw, st, e + 1)
                },
                None => slice_of(raw, st, raw.len()),
            }
        },
    }
}

/// The part of a reply that should hold the JSON object.
pub fn json_candidate(raw: &str) -> (r: String)
    requires
        candidate_bounds_ok(raw@),
    ensures
        r@ == candidate_of(raw@),
{
    let v = chars_of(raw);
    let c = candidate_exec(&v);
    string_of(&c)
}

// ---------------------------------------------------------------------------
// Unescaped quotes inside strings
// ---------------------------------------------------------------------------

/// The first character at or after `i` that is not whitespace.
pub open spec fn next_non_ws(s: Seq<char>, i: int) -> Option<char>
    decreases s.len() - i,
{
    if i < 0 || i >= s.len() {
        None
    } else if is_ws(s[i]) {
        next_non_ws(s, i + 1)
    } else {
        Some(s[i])
    }
}

/// A quote inside a string ends it only when what follows it can follow a
/// string value: nothing, `,`, `}`, `]` or `:`.
pub open spec fn quote_is_inner(s: Seq<char>, next: int) -> bool {
    match next_non_ws(s, next) {
        None => false,
        Some(c) => !(c == ',' || c == '}' || c == ']' || c == ':'),
    }
}

proof fn lemma_next_non_ws_at(s: Seq<char>, next: int, j: int)
    requires
        0 <= next <= j < s.len(),
        forall|m: int| next <= m < j ==> is_ws(#[trigger] s[m]),
        !is_ws(s[j]),
    ensures
        next_non_ws(s, next) == Some(s[j]),
    decreases j - next,
{
    if next < j {
        lemma_next_non_ws_at(s, next + 1, j);
    }
}

proof fn lemma_next_non_ws_none(s: Seq<char>, next: int)
    requires
        0 <= next,
        forall|m: int| next <= m < s.len() ==> is_ws(#[trigger] s[m]),
    ensures
        next_non_ws(s, next) is None,
    decreases s.len() - next,
{
    if next < s.len() {
        lemma_next_non_ws_none(s, next + 1);
    }
}

/// A quote inside a string closes it exactly when, after any whitespace,
/// it is followed by `,`, `}`, `]` or `:` (what may follow a string value),
/// or by nothing at all; followed by anything else it is a quote inside
/// the text and is escaped.
pub proof fn law_quote_closes_before_separators(s: Seq<char>, next: int, j: int)
    requires
        0 <= next <= s.len(),
    ensures
        next <= j < s.len() && (forall|m: int| next <= m < j ==> is_ws(#[trigger] s[m])) && !is_ws(s[j])
            ==> (quote_is_inner(s, next) <==> !(s[j] == ',' || s[j] == '}' || s[j] == ']' || s[j]
            == ':')),
        (forall|m: int| next <= m < s.len() ==> is_ws(#[trigger] s[m])) ==> !quote_is_inner(s, next),
{
    if next <= j < s.len() && (forall|m: int| next <= m < j ==> is_ws(#[trigger] s[m])) && !is_ws(s[j]) {
        lemma_next_non_ws_at(s, next, j);
    }
    if forall|m: int| next <= m < s.len() ==> is_ws(#[trigger] s[m]) {
        lemma_next_non_ws_none(s, next);
    }
}

/// The scan state: inside a string, after a backslash, whether a quote was
/// escaped, and the text so far.
pub open spec fn inner_step(s: Seq<char>, i: int, st: (bool, bool, bool, Seq<char>)) -> (bool, bool, bool, Seq<char>) {
    let c = s[i];
    if !st.0 {
        (c == '"', st.1, st.2, st.3.push(c))
    } else if st.1 {
        (st.0, false, st.2, st.3.push(c))
    } else if c == '\\' {
        (st.0, true, st.2, st.3.push(c))
    } else if c == '"' {
        if quote_is_inner(s, i + 1) {
            (true, false, true, st.3.push('\\').push('"'))
        } else {
            (false, false, st.2, st.3.push('"'))
        }
    } else {
        (st.0, st.1, st.2, st.3.push(c))
    }
}

/// The state after the first `n` characters.
pub open spec fn inner_fold(s: Seq<char>, n: int) -> (bool, bool, bool, Seq<char>)
    decreases n,
{
    if n <= 0 {
        (false, false, false, Seq::empty())
    } else {
        inner_step(s, n - 1, inner_fold(s, n - 1))
    }
}

/// A quote that ends a string value before `,`, `}`, `]` or `:` (after any
/// whitespace) is written unchanged and closes the string; the repair
/// escapes only quotes followed by something else.
pub proof fn law_closing_quote_kept(s: Seq<char>, i: int, j: int, st: (bool, bool, bool, Seq<char>))
    requires
        0 <= i < j < s.len(),
        s[i] == '"',
        st.0 && !st.1,
        forall|m: int| i < m < j ==> is_ws(#[trigger] s[m]),
        s[j] == ',' || s[j] == '}' || s[j] == ']' || s[j] == ':',
    ensures
        inner_step(s, i, st) == (false, false, st.2, st.3.push('"')),
{
    assert(!is_ws(s[j]));
    law_quote_closes_before_separators(s, i + 1, j);
}

/// The text with the quotes that stand inside strings escaped, or `None`
/// when there was none.
pub open spec fn repair_inner(s: Seq<char>) -> Option<Seq<char>> {
    let st = inner_fold(s, s.len() as int);
    if st.2 {
        Some(st.3)
    } else {
        None
    }
}

proof fn lemma_inner_fold_len(s: Seq<char>, n: int)
    requires
        0 <= n <= s.len(),
    ensures
        !inner_fold(s, n).2 ==> inner_fold(s, n).3 == s.take(n),
        inner_fold(s, n).3.len() >= n,
        inner_fold(s, n).2 ==> inner_fold(s, n).3.len() > n,
    decreases n,
{
    if n > 0 {
        lemma_inner_fold_len(s, n - 1);
        assert(s.take(n) =~= s.take(n - 1).push(s[n - 1]));
    } else {
        assert(s.take(0) =~= Seq::<char>::empty());
    }
}

/// The quote repair answers only when it changed the text: what it gives
/// is longer than what it was given, and without a quote to escape it
/// gives nothing.
pub proof fn law_inner_repair_only_when_changed(s: Seq<char>)
    ensures
        repair_inner(s) matches Some(r) ==> r.len() > s.len() && r != s,
        repair_inner(s) is None ==> inner_fold(s, s.len() as int).3 == s,
{
    lemma_inner_fold_len(s, s.len() as int);
    assert(s.take(s.len() as int) =~= s);
}

fn should_escape_inner_quote(s: &Vec<char>, next: usize) -> (r: bool)
    requires
        next <= s@.len(),
    ensures
        r == quote_is_inner(s@, next as int),
{
    let mut i = next;
    while i < s.len() && is_whitespace(s[i])
        invariant
            next <= i <= s@.len(),
            next_non_ws(s@, next as int) == next_non_ws(s@, i as int),
        decreases s@.len() - i,
    {
        i = i + 1;
    }
    if i == s.len() {
        false
    } else {
        let c = s[i];
        !(c == ',' || c == '}' || c == ']' || c == ':')
    }
}

fn repair_inner_exec(s: &Vec<char>) -> (r: Option<Vec<char>>)
    ensures
        r matches Some(x) ==> repair_inner(s@) == Some(x@),
        r is None ==> repair_inner(s@) is None,
{
    let mut in_string = false;
    let mut escape = false;
    let mut changed = false;
    let mut out: Vec<char> = Vec::new();
    let mut i: usize = 0;
    while i < s.len()
        invariant
            0 <= i <= s@.len(),
            inner_fold(s@, i as int) == (in_string, escape, changed, out@),
        decreases s@.len() - i,
    {
        let c = s[i];
        if !in_string {
            out.push(c);
            in_string = c == '"';
        } else if escape {
            out.push(c);
            escape = false;
        } else if c == '\\' {
            out.push(c);
            escape = true;
        } else if c == '"' {
            if should_escape_inner_quote(s, i + 1) {
                out.push('\\');
                out.push('"');
                changed = true;
            } else {
                out.push('"');
                in_string = false;
            }
        } else {
            out.push(c);
        }
        i = i + 1;
    }
    if changed {
        Some(out)
    } else {
        None
    }
}

/// The text with every quote that stands inside a string value escaped;
/// `None` when no quote needed it.
pub fn repair_json_inner_quotes(candidate: &str) -> (r: Option<String>)
    ensures
        r matches Some(x) ==> repair_inner(candidate@) == Some(x@),
        r is None ==> repair_inner(candidate@) is None,
{
    let s = chars_of(candidate);
    match repair_inner_exec(&s) {
        Some(x) => Some(string_of(&x)),
        None => None,
    }
}

// ---------------------------------------------------------------------------
// Truncated objects
// ---------------------------------------------------------------------------

/// The scan state: inside a string, after a backslash, and the closers still
/// owed for the open objects and arrays.
pub open spec fn scan_step(st: (bool, bool, Seq<char>), c: char) -> (bool, bool, Seq<char>) {
    if st.0 {
        if st.1 {
            (true, false, st.2)
        } else if c == '\\' {
            (true, true, st.2)
        } else if c == '"' {
            (false, false, st.2)
        } else {
            st
        }
    } else if c == '"' {
        (true, st.1, st.2)
    } else if c == '{' {
        (st.0, st.1, st.2.push('}'))
    } else if c == '[' {
        (st.0, st.1, st.2.push(']'))
    } else if (c == '}' || c == ']') && st.2.len() > 0 && st.2.last() == c {
        (st.0, st.1, st.2.drop_last())
    } else {
        st
    }
}

pub open spec fn scan_fold(s: Seq<char>) -> (bool, bool, Seq<char>)
    decreases s.len(),
{
    if s.len() == 0 {
        (false, false, Seq::empty())
    } else {
        scan_step(scan_fold(s.drop_last()), s.last())
    }
}

/// The stack without its top when the top is `c`.
pub open spec fn pop_if(stack: Seq<char>, c: char) -> Seq<char> {
    if stack.len() > 0 && stack.last() == c {
        stack.drop_last()
    } else {
        stack
    }
}

/// The text without trailing whitespace, separators and unfinished
/// openers; an opener dropped here is no longer owed a closer.
pub open spec fn cleanup(r: Seq<char>, stack: Seq<char>) -> (Seq<char>, Seq<char>)
    decreases r.len(),
{
    let t = trim_end(r);
    proof {
        lemma_trail_bound(r, true, Seq::empty());
    }
    if t.len() == 0 {
        (t, stack)
    } else if t.last() == ',' || t.last() == ':' {
        cleanup(t.drop_last(), stack)
    } else if t.last() == '{' {
        cleanup(t.drop_last(), pop_if(stack, '}'))
    } else if t.last() == '[' {
        cleanup(t.drop_last(), pop_if(stack, ']'))
    } else {
        (t, stack)
    }
}

/// The prefix closed into a complete object: an open string closed, trailing
/// separators and unfinished openers removed, and the owed closers added in
/// reverse order; `None` when nothing is left.
pub open spec fn close_truncated(prefix: Seq<char>) -> Option<Seq<char>> {
    let r0 = trim_end(prefix);
    if r0.len() == 0 {
        None
    } else {
        let sc = scan_fold(r0);
        let r1 = if sc.0 {
            r0.push('"')
        } else {
            r0
        };
        let cl = cleanup(r1, sc.2);
        if cl.0.len() == 0 {
            None
        } else {
            Some(cl.0 + cl.1.reverse())
        }
    }
}

fn close_truncated_json(prefix: &Vec<char>) -> (r: Option<Vec<char>>)
    ensures
        r matches Some(x) ==> close_truncated(prefix@) == Some(x@),
        r is None ==> close_truncated(prefix@) is None,
{
    let mut repaired = trim_end_exec(prefix);
    if repaired.len() == 0 {
        return None;
    }
    let ghost r0 = repaired@;
    let mut in_string = false;
    let mut escape = false;
    let mut stack: Vec<char> = Vec::new();
    let mut i: usize = 0;
    while i < repaired.len()
        invariant
            0 <= i <= repaired@.len(),
            repaired@ == r0,
            scan_fold(r0.take(i as int)) == (in_string, escape, stack@),
        decreases repaired@.len() - i,
    {
        assert(r0.take(i + 1).drop_last() =~= r0.take(i as int));
        let c = repaired[i];
        if in_string {
            if escape {
                escape = false;
            } else if c == '\\' {
                escape = true;
            } else if c == '"' {
                in_string = false;
            }
        } else if c == '"' {
            in_string = true;
        } else if c == '{' {
            stack.push('}');
        } else if c == '[' {
            stack.push(']');
        } else if (c == '}' || c == ']') && stack.len() > 0 && stack[stack.len() - 1] == c {
            stack.pop();
        }
        i = i + 1;
    }
    assert(r0.take(r0.len() as int) =~= r0);
    if in_string {
        repaired.push('"');
    }
    let ghost r1 = repaired@;
    let ghost s1 = stack@;
    loop
        invariant_except_break
            cleanup(repaired@, stack@) == cleanup(r1, s1),
        ensures
            cleanup(r1, s1) == (repaired@, stack@),
        decreases repaired@.len(),
    {
        let t = trim_end_exec(&repaired);
        proof {
            lemma_trail_bound(repaired@, true, Seq::empty());
        }
        let n = t.len();
        if n == 0 {
            repaired = t;
            break;
        }
        let c = t[n - 1];
        if c == ',' || c == ':' {
            repaired = slice_of(&t, 0, n - 1);
            assert(repaired@ =~= t@.drop_last());
        } else if c == '{' {
            repaired = slice_of(&t, 0, n - 1);
            assert(repaired@ =~= t@.drop_last());
            if stack.len() > 0 && stack[stack.len() - 1] == '}' {
                stack.pop();
            }
        } else if c == '[' {
            repaired = slice_of(&t, 0, n - 1);
            assert(repaired@ =~= t@.drop_last());
            if stack.len() > 0 && stack[stack.len() - 1] == ']' {
                stack.pop();
            }
        } else {
            repaired = t;
            break;
        }
    }
    if repaired.len() == 0 {
        return None;
    }
    let ghost st0 = stack@;
    let ghost base = repaired@;
    assert(st0.skip(st0.len() as int).reverse() =~= Seq::<char>::empty());
    assert(repaired@ =~= base + st0.skip(st0.len() as int).reverse());
    assert(st0.take(st0.len() as int) =~= st0);
    while stack.len() > 0
        invariant
            stack@ == st0.take(stack@.len() as int),
            stack@.len() <= st0.len(),
            repaired@ == base + st0.skip(stack@.len() as int).reverse(),
        decreases stack@.len(),
    {
        let c = stack.pop().unwrap();
        let ghost m = stack@.len();
        repaired.push(c);
        assert(st0.take(m as int) =~= stack@);
        assert(st0.skip(m as int).reverse() =~= st0.skip((m + 1) as int).reverse().push(c));
    }
    assert(st0.skip(0) =~= st0);
    Some(repaired)
}

/// Whether a text parses as JSON.
pub uninterp spec fn json_parses(text: Seq<char>) -> bool;

/// Asks `serde_json::from_str::<serde_json::Value>` whether the text is a
/// JSON document; the contract names the answer.
#[verifier::external_body]
fn parses_as_json(text: &str) -> (r: bool)
    ensures
        r == json_parses(text@),
{
    serde_json::from_str::<serde_json::Value>(text).is_ok()
}

/// Cutting `k` to `max` characters off the end, the first closed prefix
/// that parses; `None` as soon as a prefix closes to nothing.
pub open spec fn trunc_from(t: Seq<char>, k: nat, max: nat) -> Option<Seq<char>>
    decreases max + 1 - k,
{
    if k > max || k > t.len() {
        None
    } else {
        match close_truncated(t.take(t.len() - k)) {
            None => None,
            Some(r) => if json_parses(r) {
                Some(r)
            } else {
                trunc_from(t, k + 1, max)
            },
        }
    }
}

/// The trimmed text, shortened by up to 1200 characters from its end, closed
/// into the first complete object that parses.
pub open spec fn repair_truncated(c: Seq<char>) -> Option<Seq<char>> {
    let t = trim(c);
    if t.len() == 0 {
        None
    } else {
        trunc_from(t, 0, if t.len() < 1200 { t.len() } else { 1200 })
    }
}

pub fn repair_truncated_json(candidate: &str) -> (r: Option<String>)
    ensures
        r matches Some(x) ==> repair_truncated(candidate@) == Some(x@),
        r is None ==> repair_truncated(candidate@) is None,
{
    let c = chars_of(candidate);
    let t = trim_exec(&c);
    if t.len() == 0 {
        return None;
    }
    let n = t.len();
    let max: usize = if n < 1200 { n } else { 1200 };
    let mut k: usize = 0;
    while k <= max
        invariant
            n == t@.len(),
            max <= n,
            max == (if n < 1200 { n } else { 1200 }),
            t@ == trim(candidate@),
            0 <= k <= max + 1,
            repair_truncated(candidate@) == trunc_from(t@, k as nat, max as nat),
        decreases max + 1 - k,
    {
        let prefix = slice_of(&t, 0, n - k);
        assert(prefix@ =~= t@.take(n - k));
        match close_truncated_json(&prefix) {
            None => {
                return None;
            },
            Some(r) => {
                let s = string_of(&r);
                if parses_as_json(s.as_str()) {
                    return Some(s);
                }
            },
        }
        k = k + 1;
    }
    None
}

// ---------------------------------------------------------------------------
// What to parse, in order
// ---------------------------------------------------------------------------

/// Which repair made a reply parse.
#[derive(Debug, Clone, Copy, PartialEq, Eq, Structural)]
pub enum JsonRepairKind {
    InnerQuotes,
    InnerQuotesAndTruncation,
    TruncatedPayload,
}

impl JsonRepairKind {
    pub fn as_str(self) -> (r: &'static str)
        ensures
            r@ == (match self {
                JsonRepairKind::InnerQuotes => "inner_quotes"@,
                JsonRepairKind::InnerQuotesAndTruncation => "inner_quotes_and_truncation"@,
                JsonRepairKind::TruncatedPayload => "truncated_payload"@,
            }),
    {
        match self {
            JsonRepairKind::InnerQuotes => "inner_quotes",
            JsonRepairKind::InnerQuotesAndTruncation => "inner_quotes_and_truncation",
            JsonRepairKind::TruncatedPayload => "truncated_payload",
        }
    }
}

/// A parsed reply with how it was obtained; lengths are in bytes.
#[derive(Debug)]
pub struct JsonExtractOutcome<T> {
    pub value: T,
    pub repair: Option<JsonRepairKind>,
    pub raw_len: usize,
    pub candidate_len: usize,
    pub repaired_len: Option<usize>,
}

/// A text to parse and the repair that produced it.
#[derive(Debug)]
pub struct JsonAttempt {
    pub text: String,
    pub repair: Option<JsonRepairKind>,
}

pub open spec fn attempt_view(a: JsonAttempt) -> (Seq<char>, Option<JsonRepairKind>) {
    (a.text@, a.repair)
}

/// The texts to parse, in order: the candidate itself; with inner quotes
/// escaped; with inner quotes escaped and then the truncation closed; with
/// the truncation closed.  A repair that does not apply adds nothing.
pub open spec fn json_attempts(raw: Seq<char>) -> Seq<(Seq<char>, Option<JsonRepairKind>)> {
    let c = candidate_of(raw);
    seq![(c, None)] + (match repair_inner(c) {
        Some(r) => seq![(r, Some(JsonRepairKind::InnerQuotes))],
        None => Seq::empty(),
    }) + (match repair_inner(c) {
        Some(r) => match repair_truncated(r) {
            Some(r2) => seq![(r2, Some(JsonRepairKind::InnerQuotesAndTruncation))],
            None => Seq::empty(),
        },
        None => Seq::empty(),
    }) + (match repair_truncated(c) {
        Some(r) => seq![(r, Some(JsonRepairKind::TruncatedPayload))],
        None => Seq::empty(),
    })
}

fn push_attempt(v: &mut Vec<JsonAttempt>, text: String, repair: Option<JsonRepairKind>)
    ensures
        final(v)@.map_values(|a: JsonAttempt| attempt_view(a)) == old(v)@.map_values(
            |a: JsonAttempt| attempt_view(a),
        ).push((text@, repair)),
{
    let ghost before = v@.map_values(|a: JsonAttempt| attempt_view(a));
    let ghost tv = text@;
    v.push(JsonAttempt { text, repair });
    assert(v@.map_values(|a: JsonAttempt| attempt_view(a)) =~= before.push((tv, repair)));
}

/// The texts to try to parse a reply from, in the order they are tried.
pub fn json_extract_attempts(raw: &str) -> (r: Vec<JsonAttempt>)
    requires
        candidate_bounds_ok(raw@),
    ensures
        r@.map_values(|a: JsonAttempt| attempt_view(a)) == json_attempts(raw@),
{
    let c = json_candidate(raw);
    let mut v: Vec<JsonAttempt> = Vec::new();
    assert(v@.map_values(|a: JsonAttempt| attempt_view(a)) =~= Seq::<(Seq<char>, Option<JsonRepairKind>)>::empty());
    let ghost s0 = v@.map_values(|a: JsonAttempt| attempt_view(a));
    push_attempt(&mut v, crate::text::copy_string(&c), None);
    let inner = repair_json_inner_quotes(c.as_str());
    let ghost s1 = v@.map_values(|a: JsonAttempt| attempt_view(a));
    match &inner {
        Some(r) => push_attempt(&mut v, crate::text::copy_string(r), Some(JsonRepairKind::InnerQuotes)),
        None => {},
    }
    let ghost s2 = v@.map_values(|a: JsonAttempt| attempt_view(a));
    match &inner {
        Some(r) => match repair_truncated_json(r.as_str()) {
            Some(r2) => push_attempt(&mut v, r2, Some(JsonRepairKind::InnerQuotesAndTruncation)),
            None => {},
        },
        None => {},
    }
    let ghost s3 = v@.map_values(|a: JsonAttempt| attempt_view(a));
    match repair_truncated_json(c.as_str()) {
        Some(r) => push_attempt(&mut v, r, Some(JsonRepairKind::TruncatedPayload)),
        None => {},
    }
    assert(v@.map_values(|a: JsonAttempt| attempt_view(a)) =~= json_attempts(raw@));
    v
}

/// The outcome of parsing `attempt` out of `raw`: the byte lengths of the
/// reply, of its candidate and of the repaired text when a repair was used.
pub fn extract_outcome<T>(raw: &str, attempt: &JsonAttempt, value: T) -> (r: JsonExtractOutcome<T>)
    requires
        candidate_bounds_ok(raw@),
    ensures
        r.value == value,
        r.repair == attempt.repair,
        r.raw_len == crate::stage2_quality::byte_len(raw@),
        r.candidate_len == crate::stage2_quality::byte_len(candidate_of(raw@)),
        r.repaired_len == (match attempt.repair {
            Some(_) => Some(crate::stage2_quality::byte_len(attempt.text@)),
            None => None,
        }),
{
    let c = json_candidate(raw);
    let repaired_len = match attempt.repair {
        Some(_) => Some(attempt.text.as_str().len()),
        None => None,
    };
    JsonExtractOutcome {
        value,
        repair: attempt.repair,
        raw_len: raw.len(),
        candidate_len: c.as_str().len(),
        repaired_len,
    }
}

} // verus!
