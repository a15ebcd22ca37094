//! A JSON value as the analysis code reads it.

use vstd::prelude::*;
use crate::text::{chars_of, same};

verus! {

/// A parsed JSON value.  Numbers keep their text; an object keeps its
/// members in order, each key once.
#[derive(Debug)]
pub enum JsonValue {
    Null,
    Bool(bool),
    Number(String),
    Str(String),
    Array(Vec<JsonValue>),
    Object(Vec<(String, JsonValue)>),
}

/// The first member of the members named `key`, searching from index `i`.
pub open spec fn member_from(ms: Seq<(String, JsonValue)>, key: Seq<char>, i: int) -> Option<JsonValue>
    decreases ms.len() - i,
{
    if i < 0 || i >= ms.len() {
        None
    } else if ms[i].0@ == key {
        Some(ms[i].1)
    } else {
        member_from(ms, key, i + 1)
    }
}

/// `Value::get` with a string key: the member of an object, `None` for any
/// other value.
pub open spec fn json_get(v: JsonValue, key: Seq<char>) -> Option<JsonValue> {
    match v {
        JsonValue::Object(ms) => member_from(ms@, key, 0),
        _ => None,
    }
}

impl JsonValue {
    /// The member named `key` of an object.
    pub fn get(&self, key: &str) -> (r: Option<&JsonValue>)
        ensures
            r matches Some(x) ==> json_get(*self, key@) == Some(*x),
            r is None ==> json_get(*self, key@) is None,
    {
        match self {
            JsonValue::Object(ms) => {
                assert(*self == JsonValue::Object(*ms));
                assert(json_get(*self, key@) == member_from(ms@, key@, 0));
                let k = chars_of(key);
                let mut i: usize = 0;
                while i < ms.len()
                    invariant
                        0 <= i <= ms@.len(),
                        k@ == key@,
                        json_get(*self, key@) == member_from(ms@, key@, 0),
                        member_from(ms@, key@, 0) == member_from(ms@, key@, i as int),
                    decreases ms@.len() - i,
                {
                    let name = chars_of(ms[i].0.as_str());
                    if same(&name, &k) {
                        assert(ms@[i as int].0@ == key@);
                        assert(member_from(ms@, key@, i as int) == Some(ms@[i as int].1));
                        return Some(&ms[i].1);
                    }
                    i = i + 1;
                }
                None
            },
            _ => None,
        }
    }

    /// The elements of an array.
    pub fn as_array(&self) -> (r: Option<&Vec<JsonValue>>)
        ensures
            r matches Some(x) ==> *self == JsonValue::Array(*x),
            r is None ==> !(*self is Array),
    {
        match self {
            JsonValue::Array(xs) => Some(xs),
            _ => None,
        }
    }

    /// The text of a string.
    pub fn as_str(&self) -> (r: Option<&str>)
        ensures
            r matches Some(x) ==> *self matches JsonValue::Str(s) && s@ == x@,
            r is None ==> !(*self is Str),
    {
        match self {
            JsonValue::Str(s) => Some(s.as_str()),
            _ => None,
        }
    }
}

} // verus!
