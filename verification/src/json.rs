//! The JSON documents the library reads and writes, held as plain values.
//!
//! Parsing and string escaping are done by `serde_json`; the library inspects the parsed value
//! and frames the bytes it sends.

use vstd::prelude::*;
use crate::text::str_eq;

verus! {

#[verifier::external_type_specification]
#[verifier::external_body]
pub struct ExSerdeNumber(serde_json::Number);

/// A JSON number: its canonical text as `serde_json` prints it, its value when it is a
/// non-negative integer that fits `u64`, and the parsed number itself.
#[derive(Debug, PartialEq, Eq)]
pub struct JsonNumber {
    pub text: String,
    pub unsigned: Option<u64>,
    pub number: serde_json::Number,
}

/// A parsed JSON document. Object members keep the order of the parser's map, with unique
/// names.
#[derive(Debug, PartialEq, Eq)]
pub enum JsonValue {
    Null,
    Bool(bool),
    Number(JsonNumber),
    String(String),
    Array(Vec<JsonValue>),
    Object(Vec<(String, JsonValue)>),
}

#[verifier::external_type_specification]
#[verifier::external_body]
pub struct ExSerdeValue(serde_json::Value);

/// The document `serde_json` parses from these bytes, if they are JSON.
pub uninterp spec fn parsed_json(bytes: Seq<u8>) -> Option<JsonValue>;

/// A lower-case hexadecimal digit.
pub open spec fn json_hex_digit(n: u8) -> u8 {
    if n < 10 {
        (48 + n) as u8
    } else {
        (87 + n) as u8
    }
}

/// How `serde_json` writes one byte of a string: `"` and `\\` escaped by a backslash; backspace,
/// tab, line feed, form feed and carriage return by their short escapes; the other control
/// bytes as `\u00` and two lower-case hex digits; every other byte as it is.
pub open spec fn json_escaped_byte(b: u8) -> Seq<u8> {
    if b == 34 {
        seq![92u8, 34u8]
    } else if b == 92 {
        seq![92u8, 92u8]
    } else if b == 8 {
        seq![92u8, 98u8]
    } else if b == 9 {
        seq![92u8, 116u8]
    } else if b == 10 {
        seq![92u8, 110u8]
    } else if b == 12 {
        seq![92u8, 102u8]
    } else if b == 13 {
        seq![92u8, 114u8]
    } else if b < 32 {
        seq![92u8, 117u8, 48u8, 48u8, json_hex_digit(b / 16), json_hex_digit(b % 16)]
    } else {
        seq![b]
    }
}

/// The escaped bytes of a string, byte by byte.
pub open spec fn json_escaped(bytes: Seq<u8>) -> Seq<u8>
    decreases bytes.len(),
{
    if bytes.len() == 0 {
        Seq::empty()
    } else {
        json_escaped(bytes.drop_last()) + json_escaped_byte(bytes.last())
    }
}

/// The bytes `serde_json` writes for a string: the escaped UTF-8 bytes between quotes.
#[verifier::opaque]
pub open spec fn json_string_literal(text: Seq<char>) -> Seq<u8> {
    seq![34u8] + json_escaped(crate::text::text_bytes(text)) + seq![34u8]
}

/// Converts a parsed `serde_json::Value` into the library's value, member for member.
#[verifier::external_body]
fn from_serde(value: serde_json::Value) -> JsonValue {
    match value {
        serde_json::Value::Null => JsonValue::Null,
        serde_json::Value::Bool(b) => JsonValue::Bool(b),
        serde_json::Value::Number(n) => JsonValue::Number(
            JsonNumber { text: n.to_string(), unsigned: n.as_u64(), number: n },
        ),
        serde_json::Value::String(s) => JsonValue::String(s),
        serde_json::Value::Array(a) => JsonValue::Array(a.into_iter().map(from_serde).collect()),
        serde_json::Value::Object(m) => JsonValue::Object(
            m.into_iter().map(|(k, v)| (k, from_serde(v))).collect(),
        ),
    }
}

/// Parses JSON bytes.
///
/// Trusted: calls `serde_json::from_slice::<serde_json::Value>` and converts the value; the
/// result is named `parsed_json` of the bytes, and `None` stands for a parse error.
#[verifier::external_body]
pub(crate) fn parse_json(bytes: &[u8]) -> (res: Option<JsonValue>)
    ensures
        res == parsed_json(bytes@),
{
    match serde_json::from_slice::<serde_json::Value>(bytes) {
        Ok(value) => Some(from_serde(value)),
        Err(_) => None,
    }
}

/// The compact JSON text `serde_json` displays for a value.
pub uninterp spec fn json_display_text(value: JsonValue) -> Seq<char>;

/// Converts a value back into a `serde_json::Value`, member for member.
#[verifier::external_body]
fn to_serde(value: &JsonValue) -> serde_json::Value {
    match value {
        JsonValue::Null => serde_json::Value::Null,
        JsonValue::Bool(b) => serde_json::Value::Bool(*b),
        JsonValue::Number(n) => serde_json::Value::Number(n.number.clone()),
        JsonValue::String(s) => serde_json::Value::String(s.clone()),
        JsonValue::Array(a) => serde_json::Value::Array(a.iter().map(to_serde).collect()),
        JsonValue::Object(m) => serde_json::Value::Object(
            m.iter().map(|(k, v)| (k.clone(), to_serde(v))).collect(),
        ),
    }
}

/// Renders a value as compact JSON text.
///
/// Trusted: converts the value to `serde_json::Value` and calls its `Display` through
/// `to_string`; the result is named `json_display_text` of the value.
#[verifier::external_body]
pub(crate) fn json_display(value: &JsonValue) -> (res: String)
    ensures
        res@ == json_display_text(*value),
{
    to_serde(value).to_string()
}

/// Writes a string as a JSON literal.
///
/// Trusted: calls `serde_json::to_vec` on the string, which cannot fail for a `str`, and
/// appends what it writes: `json_string_literal` of the text.
#[verifier::external_body]
pub(crate) fn write_json_string(out: &mut Vec<u8>, text: &str)
    ensures
        final(out)@ == old(out)@ + json_string_literal(text@),
{
    out.extend(serde_json::to_vec(text).unwrap());
}

/// The first member named `key`.
pub open spec fn json_get(fields: Seq<(String, JsonValue)>, key: Seq<char>) -> Option<JsonValue>
    decreases fields.len(),
{
    if fields.len() == 0 {
        None
    } else if fields[0].0@ == key {
        Some(fields[0].1)
    } else {
        json_get(fields.drop_first(), key)
    }
}

proof fn lemma_json_get_at(fields: Seq<(String, JsonValue)>, key: Seq<char>, i: int)
    requires
        0 <= i <= fields.len(),
        forall|j: int| 0 <= j < i ==> fields[j].0@ != key,
        i < fields.len() ==> fields[i].0@ == key,
    ensures
        i < fields.len() ==> json_get(fields, key) == Some(fields[i].1),
        i == fields.len() ==> json_get(fields, key) is None,
    decreases i,
{
    if i > 0 {
        lemma_json_get_at(fields.drop_first(), key, i - 1);
    } else if fields.len() > 0 {
    }
}

/// Looks up a member of an object.
pub fn get<'a>(fields: &'a Vec<(String, JsonValue)>, key: &str) -> (res: Option<&'a JsonValue>)
    ensures
        match json_get(fields@, key@) {
            Some(v) => res matches Some(r) && *r == v,
            None => res is None,
        },
{
    let mut i: usize = 0;
    while i < fields.len()
        invariant
            i <= fields.len(),
            forall|j: int| 0 <= j < i ==> fields@[j].0@ != key@,
        decreases fields.len() - i,
    {
        if str_eq(fields[i].0.as_str(), key) {
            proof {
                lemma_json_get_at(fields@, key@, i as int);
            }
            return Some(&fields[i].1);
        }
        i = i + 1;
    }
    proof {
        lemma_json_get_at(fields@, key@, i as int);
    }
    None
}

impl JsonValue {
    pub open spec fn spec_as_str(&self) -> Option<Seq<char>> {
        match self {
            JsonValue::String(s) => Some(s@),
            _ => None,
        }
    }

    pub fn as_str(&self) -> (res: Option<&str>)
        ensures
            match self {
                JsonValue::String(s) => res matches Some(r) && r@ == s@,
                _ => res is None,
            },
    {
        match self {
            JsonValue::String(s) => Some(s.as_str()),
            _ => None,
        }
    }

    pub fn as_object(&self) -> (res: Option<&Vec<(String, JsonValue)>>)
        ensures
            match self {
                JsonValue::Object(m) => res matches Some(r) && *r == m,
                _ => res is None,
            },
    {
        match self {
            JsonValue::Object(m) => Some(m),
            _ => None,
        }
    }

    pub fn as_array(&self) -> (res: Option<&Vec<JsonValue>>)
        ensures
            match self {
                JsonValue::Array(a) => res matches Some(r) && *r == a,
                _ => res is None,
            },
    {
        match self {
            JsonValue::Array(a) => Some(a),
            _ => None,
        }
    }

    pub fn is_null(&self) -> (res: bool)
        ensures
            res == (self is Null),
    {
        matches!(self, JsonValue::Null)
    }
}

} // verus!
