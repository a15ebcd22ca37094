//! Server-sent event frames of a streamed answer.

use vstd::prelude::*;
use crate::text::{chars_of, extend, extend_str, string_of};

verus! {

/// The body used when a payload could not be serialized.
pub open spec fn serialization_failed() -> Seq<char> {
    "{\"message\":\"serialization failed\"}"@
}

/// The frame of an event: its name, its JSON payload (the failure body
/// when the payload could not be serialized), and a blank line.
pub fn sse_event(event: &str, json: Option<&str>) -> (r: String)
    ensures
        r@ == "event: "@ + event@ + "\ndata: "@ + (match json {
            Some(j) => j@,
            None => serialization_failed(),
        }) + "\n\n"@,
{
    let mut out = chars_of("event: ");
    extend_str(&mut out, event);
    extend_str(&mut out, "\ndata: ");
    match json {
        Some(j) => extend_str(&mut out, j),
        None => extend_str(&mut out, "{\"message\":\"serialization failed\"}"),
    }
    extend_str(&mut out, "\n\n");
    string_of(&out)
}

/// The kinds of event a stream sends.
#[derive(Debug, Clone, Copy, PartialEq, Eq, Structural)]
pub enum StreamEvent {
    Meta,
    Delta,
    Complete,
    Error,
}

impl StreamEvent {
    pub fn as_str(self) -> (r: &'static str)
        ensures
            r@ == (match self {
                StreamEvent::Meta => "meta"@,
                StreamEvent::Delta => "delta"@,
                StreamEvent::Complete => "complete"@,
                StreamEvent::Error => "error"@,
            }),
    {
        match self {
            StreamEvent::Meta => "meta",
            StreamEvent::Delta => "delta",
            StreamEvent::Complete => "complete",
            StreamEvent::Error => "error",
        }
    }
}

/// A lower-case hexadecimal digit.
pub open spec fn hex_digit(n: int) -> char {
    if n < 10 {
        ('0' as int + n) as char
    } else {
        ('a' as int + n - 10) as char
    }
}

/// How a character stands in a JSON string literal: a quote and a
/// backslash are escaped, the controls with a short escape get it, the
/// other controls below 0x20 become `\u00xx` in lower-case hex, and every
/// other character stands as it is.
pub open spec fn json_char(c: char) -> Seq<char> {
    if c == '"' {
        seq!['\\', '"']
    } else if c == '\\' {
        seq!['\\', '\\']
    } else if c == '\u{8}' {
        seq!['\\', 'b']
    } else if c == '\t' {
        seq!['\\', 't']
    } else if c == '\n' {
        seq!['\\', 'n']
    } else if c == '\u{c}' {
        seq!['\\', 'f']
    } else if c == '\r' {
        seq!['\\', 'r']
    } else if (c as int) < 0x20 {
        seq!['\\', 'u', '0', '0', hex_digit(c as int / 16), hex_digit(c as int % 16)]
    } else {
        seq![c]
    }
}

/// The characters of a text escaped one by one.
pub open spec fn json_escaped(s: Seq<char>) -> Seq<char>
    decreases s.len(),
{
    if s.len() == 0 {
        Seq::empty()
    } else {
        json_escaped(s.drop_last()) + json_char(s.last())
    }
}

/// The JSON string literal of a text, as `serde_json::to_string` writes it.
pub open spec fn json_quoted(s: Seq<char>) -> Seq<char> {
    seq!['"'] + json_escaped(s) + seq!['"']
}

/// Writes a text as a JSON string literal with `serde_json::to_string`,
/// which cannot fail for a string. The contract states serde_json's escape
/// table (`format_escaped_str_contents` and `write_char_escape`): see
/// `json_char`.
#[verifier::external_body]
fn json_string(s: &str) -> (r: String)
    ensures
        r@ == json_quoted(s@),
{
    serde_json::to_string(s).unwrap_or_default()
}

/// The JSON object with one member holding a text.
pub open spec fn one_member_object(key: Seq<char>, text: Seq<char>) -> Seq<char> {
    "{\""@ + key + "\":"@ + json_quoted(text) + "}"@
}

fn one_member(key: &str, text: &str) -> (r: String)
    ensures
        r@ == one_member_object(key@, text@),
{
    let mut out = chars_of("{\"");
    extend_str(&mut out, key);
    extend_str(&mut out, "\":");
    let q = json_string(text);
    extend_str(&mut out, q.as_str());
    extend_str(&mut out, "}");
    string_of(&out)
}

/// The frame carrying a piece of streamed text.
pub fn sse_delta(delta: &str) -> (r: String)
    ensures
        r@ == "event: "@ + "delta"@ + "\ndata: "@ + one_member_object("delta"@, delta@) + "\n\n"@,
{
    let payload = one_member("delta", delta);
    sse_event("delta", Some(payload.as_str()))
}

/// The frame carrying an error message.
pub fn sse_error(message: &str) -> (r: String)
    ensures
        r@ == "event: "@ + "error"@ + "\ndata: "@ + one_member_object("message"@, message@) + "\n\n"@,
{
    let payload = one_member("message", message);
    sse_event("error", Some(payload.as_str()))
}

} // verus!
