//! A JSON document as plain values, as `nix ... --json` prints it.
//!
//! Parsing is `serde_json`'s; the library reads the parsed document through
//! the accessors below, which follow `serde_json::Value` indexing: a missing
//! key, or indexing into a non-object, reads as `null`.

use vstd::prelude::*;

verus! {

/// A parsed JSON value. A number keeps only what the logic reads of it: its
/// value when it is a non-negative integer that fits in a `u64`.
#[derive(Debug, PartialEq, Eq)]
pub enum JsonValue {
    Null,
    Bool(bool),
    Number(Option<u64>),
    Str(String),
    Array(Vec<JsonValue>),
    /// Entries in the order the parser's map yields them.
    Object(Vec<(String, JsonValue)>),
}

#[verifier::external_type_specification]
#[verifier::external_body]
pub struct ExJsonValue(serde_json::Value);

/// What `serde_json::from_str::<serde_json::Value>` yields for `text`,
/// taken as a [`JsonValue`]; on failure, the text of the parser's error.
pub uninterp spec fn parsed_json(text: Seq<char>) -> Result<JsonValue, Seq<char>>;

/// Converts a `serde_json::Value` into a [`JsonValue`], variant by variant.
#[verifier::external_body]
fn from_serde(v: &serde_json::Value) -> JsonValue {
    match v {
        serde_json::Value::Null => JsonValue::Null,
        serde_json::Value::Bool(b) => JsonValue::Bool(*b),
        serde_json::Value::Number(n) => JsonValue::Number(n.as_u64()),
        serde_json::Value::String(s) => JsonValue::Str(s.clone()),
        serde_json::Value::Array(a) => JsonValue::Array(a.iter().map(from_serde).collect()),
        serde_json::Value::Object(m) => JsonValue::Object(m.iter().map(|(k, x)| (k.clone(), from_serde(x))).collect()),
    }
}

/// Parses `text` with `serde_json::from_str` into a `serde_json::Value` and
/// converts it; the result is named [`parsed_json`], and on failure the
/// error's display text is returned.
#[verifier::external_body]
pub(crate) fn parse_json(text: &str) -> (r: Result<JsonValue, String>)
    ensures
        match r {
            Ok(v) => parsed_json(text@) == Ok::<JsonValue, Seq<char>>(v),
            Err(e) => parsed_json(text@) == Err::<JsonValue, Seq<char>>(e@),
        },
{
    match serde_json::from_str::<serde_json::Value>(text) {
        Ok(v) => Ok(from_serde(&v)),
        Err(e) => Err(e.to_string()),
    }
}

/// The value stored under the first entry named `key`, if `v` is an object
/// holding one.
pub open spec fn get(v: JsonValue, key: Seq<char>) -> Option<JsonValue> {
    match v {
        JsonValue::Object(entries) => if exists|i: int| 0 <= i < entries@.len() && #[trigger] entries@[i].0@ == key {
            let i = choose|i: int|
                0 <= i < entries@.len() && #[trigger] entries@[i].0@ == key && forall|j: int|
                    0 <= j < i ==> entries@[j].0@ != key;
            Some(entries@[i].1)
        } else {
            None
        },
        _ => None,
    }
}

/// `v[key]`: the value under `key`, or `null`.
pub open spec fn at(v: JsonValue, key: Seq<char>) -> JsonValue {
    match get(v, key) {
        Some(x) => x,
        None => JsonValue::Null,
    }
}

/// `v.as_str()`.
pub open spec fn str_of(v: JsonValue) -> Option<Seq<char>> {
    match v {
        JsonValue::Str(s) => Some(s@),
        _ => None,
    }
}

/// `v.as_u64()`.
pub open spec fn u64_of(v: JsonValue) -> Option<u64> {
    match v {
        JsonValue::Number(n) => n,
        _ => None,
    }
}

/// The first position of `key` among the entries, if any.
fn find_key(entries: &Vec<(String, JsonValue)>, key: &str) -> (r: Option<usize>)
    ensures
        r matches Some(i) ==> i < entries@.len() && entries@[i as int].0@ == key@ && forall|j: int|
            0 <= j < i ==> entries@[j].0@ != key@,
        r is None ==> forall|j: int| 0 <= j < entries@.len() ==> entries@[j].0@ != key@,
{
    let mut i: usize = 0;
    while i < entries.len()
        invariant
            i <= entries@.len(),
            forall|j: int| 0 <= j < i ==> entries@[j].0@ != key@,
        decreases entries@.len() - i,
    {
        if crate::text::str_eq(entries[i].0.as_str(), key) {
            return Some(i);
        }
        i += 1;
    }
    None
}

/// The first position of `key` among the entries, if any.
pub fn find_key_in(entries: &Vec<(String, JsonValue)>, key: &str) -> (r: Option<usize>)
    ensures
        r is Some <==> exists|j: int| 0 <= j < entries@.len() && #[trigger] entries@[j].0@ == key@,
        r matches Some(i) ==> i < entries@.len() && entries@[i as int].0@ == key@,
{
    find_key(entries, key)
}

/// Proof that the first matching entry is the one [`get`] picks.
proof fn lemma_get_first(entries: Vec<(String, JsonValue)>, key: Seq<char>, i: int)
    requires
        0 <= i < entries@.len(),
        entries@[i].0@ == key,
        forall|j: int| 0 <= j < i ==> entries@[j].0@ != key,
    ensures
        get(JsonValue::Object(entries), key) == Some(entries@[i].1),
{
    let v = JsonValue::Object(entries);
    assert(entries@[i].0@ == key);
    let k = choose|k: int|
        0 <= k < entries@.len() && #[trigger] entries@[k].0@ == key && forall|j: int|
            0 <= j < k ==> entries@[j].0@ != key;
    if k < i {
    } else if k > i {
    }
}

impl JsonValue {
    /// The value under `key` (`serde_json::Value::get`).
    pub fn get(&self, key: &str) -> (r: Option<&JsonValue>)
        ensures
            r matches Some(x) ==> get(*self, key@) == Some(*x),
            r is None ==> get(*self, key@) is None,
    {
        match self {
            JsonValue::Object(entries) => match find_key(entries, key) {
                Some(i) => {
                    proof {
                        lemma_get_first(*entries, key@, i as int);
                    }
                    Some(&entries[i].1)
                },
                None => None,
            },
            _ => None,
        }
    }

    /// The string under `key`, if the value there is a string.
    pub fn str_at(&self, key: &str) -> (r: Option<&str>)
        ensures
            r matches Some(s) ==> str_of(at(*self, key@)) == Some(s@),
            r is None ==> str_of(at(*self, key@)) is None,
    {
        match self.get(key) {
            Some(v) => v.as_str(),
            None => None,
        }
    }

    /// The unsigned integer under `key`, if the value there is one.
    pub fn u64_at(&self, key: &str) -> (r: Option<u64>)
        ensures
            r == u64_of(at(*self, key@)),
    {
        match self.get(key) {
            Some(v) => v.as_u64(),
            None => None,
        }
    }

    /// `v.as_str()`.
    pub fn as_str(&self) -> (r: Option<&str>)
        ensures
            r matches Some(s) ==> str_of(*self) == Some(s@),
            r is None ==> str_of(*self) is None,
    {
        match self {
            JsonValue::Str(s) => Some(s.as_str()),
            _ => None,
        }
    }

    /// `v.as_u64()`.
    pub fn as_u64(&self) -> (r: Option<u64>)
        ensures
            r == u64_of(*self),
    {
        match self {
            JsonValue::Number(n) => *n,
            _ => None,
        }
    }
}

} // verus!
