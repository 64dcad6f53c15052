//! A JSON document as plain values, for state that is stored as JSON.
use vstd::prelude::*;

use crate::text::{first_from, str_eq};

verus! {

/// A JSON value. Numbers are kept as far as this library reads them: a
/// non-negative integer that fits in `u64`, or some other number.
#[derive(Debug, PartialEq, Eq)]
pub enum JsonValue {
    Null,
    Bool(bool),
    UInt(u64),
    OtherNumber,
    Str(String),
    Array(Vec<JsonValue>),
    Object(Vec<(String, JsonValue)>),
}

pub open spec fn key_is(fields: Seq<(String, JsonValue)>, key: Seq<char>) -> spec_fn(int) -> bool {
    |i: int| fields[i].0@ == key
}

/// The value of the first member named `key`.
pub open spec fn json_field(fields: Seq<(String, JsonValue)>, key: Seq<char>) -> Option<JsonValue> {
    match first_from(0, fields.len() as int, key_is(fields, key)) {
        Some(i) => Some(fields[i].1),
        None => None,
    }
}

/// The member `key` of an object; nothing for any other value.
pub open spec fn json_get(v: JsonValue, key: Seq<char>) -> Option<JsonValue> {
    match v {
        JsonValue::Object(fields) => json_field(fields@, key),
        _ => None,
    }
}

pub fn field<'a>(fields: &'a Vec<(String, JsonValue)>, key: &str) -> (r: Option<&'a JsonValue>)
    ensures
        match r {
            Some(v) => json_field(fields@, key@) == Some(*v),
            None => json_field(fields@, key@) is None,
        },
{
    let mut i: usize = 0;
    while i < fields.len()
        invariant
            i <= fields.len(),
            first_from(0, fields@.len() as int, key_is(fields@, key@)) == first_from(
                i as int,
                fields@.len() as int,
                key_is(fields@, key@),
            ),
        decreases fields.len() - i,
    {
        if str_eq(fields[i].0.as_str(), key) {
            return Some(&fields[i].1);
        }
        i += 1;
    }
    None
}

pub fn get<'a>(v: &'a JsonValue, key: &str) -> (r: Option<&'a JsonValue>)
    ensures
        match r {
            Some(x) => json_get(*v, key@) == Some(*x),
            None => json_get(*v, key@) is None,
        },
{
    match v {
        JsonValue::Object(fields) => field(fields, key),
        _ => None,
    }
}

/// A value behind an optional reference.
pub open spec fn opt_val(v: Option<&JsonValue>) -> Option<JsonValue> {
    match v {
        Some(x) => Some(*x),
        None => None,
    }
}

/// The text of a string value.
pub open spec fn json_str(v: Option<JsonValue>) -> Option<Seq<char>> {
    match v {
        Some(JsonValue::Str(s)) => Some(s@),
        _ => None,
    }
}

/// The truth value of a boolean value.
pub open spec fn json_bool(v: Option<JsonValue>) -> Option<bool> {
    match v {
        Some(JsonValue::Bool(b)) => Some(b),
        _ => None,
    }
}

pub fn as_str(v: Option<&JsonValue>) -> (r: Option<&str>)
    ensures
        match r {
            Some(s) => json_str(opt_val(v)) == Some(s@),
            None => json_str(opt_val(v)) is None,
        },
{
    match v {
        Some(JsonValue::Str(s)) => Some(s.as_str()),
        _ => None,
    }
}

pub fn as_bool(v: Option<&JsonValue>) -> (r: Option<bool>)
    ensures
        r == json_bool(opt_val(v)),
{
    match v {
        Some(JsonValue::Bool(b)) => Some(*b),
        _ => None,
    }
}

// ---------------------------------------------------------------------------
// JSON text
// ---------------------------------------------------------------------------

/// `serde_json::Value`, carried as an opaque value.
#[verifier::external_type_specification]
#[verifier::external_body]
pub struct ExSerdeValue(serde_json::Value);

/// What `serde_json::from_str::<serde_json::Value>` makes of `text`, as a
/// `JsonValue` (numbers kept as `from_serde` keeps them), or the text of
/// its error.
pub uninterp spec fn json_text_value(text: Seq<char>) -> Result<JsonValue, Seq<char>>;

/// The text `serde_json::to_string_pretty` writes for `value` (as
/// `to_serde` gives it to serde), or nothing when it fails.
pub uninterp spec fn json_pretty_text(value: JsonValue) -> Option<Seq<char>>;

pub open spec fn result_view(r: Result<JsonValue, String>) -> Result<JsonValue, Seq<char>> {
    match r {
        Ok(v) => Ok(v),
        Err(e) => Err(e@),
    }
}

/// A `serde_json::Value` as a `JsonValue`, variant for variant: a number
/// is kept when `as_u64` reads it.
#[verifier::external_body]
fn from_serde(value: &serde_json::Value) -> JsonValue {
    match value {
        serde_json::Value::Null => JsonValue::Null,
        serde_json::Value::Bool(b) => JsonValue::Bool(*b),
        serde_json::Value::Number(n) => match n.as_u64() {
            Some(u) => JsonValue::UInt(u),
            None => JsonValue::OtherNumber,
        },
        serde_json::Value::String(s) => JsonValue::Str(s.clone()),
        serde_json::Value::Array(items) => JsonValue::Array(items.iter().map(from_serde).collect()),
        serde_json::Value::Object(map) => JsonValue::Object(
            map.iter().map(|(k, v)| (k.clone(), from_serde(v))).collect(),
        ),
    }
}

/// A `JsonValue` as a `serde_json::Value`, variant for variant; a number
/// other than a `u64` has no value here and is written as null.
#[verifier::external_body]
fn to_serde(value: &JsonValue) -> serde_json::Value {
    match value {
        JsonValue::Null | JsonValue::OtherNumber => serde_json::Value::Null,
        JsonValue::Bool(b) => serde_json::Value::Bool(*b),
        JsonValue::UInt(u) => serde_json::Value::from(*u),
        JsonValue::Str(s) => serde_json::Value::String(s.clone()),
        JsonValue::Array(items) => serde_json::Value::Array(items.iter().map(to_serde).collect()),
        JsonValue::Object(fields) => serde_json::Value::Object(
            fields.iter().map(|(k, v)| (k.clone(), to_serde(v))).collect(),
        ),
    }
}

/// Parses `text` with `serde_json::from_str::<serde_json::Value>`. Claims
/// that the value, or the text of the error, depends on `text` alone.
#[verifier::external_body]
fn parse_json_text(text: &str) -> (r: Result<JsonValue, String>)
    ensures
        result_view(r) == json_text_value(text@),
{
    match serde_json::from_str::<serde_json::Value>(text) {
        Ok(value) => Ok(from_serde(&value)),
        Err(err) => Err(err.to_string()),
    }
}

/// Writes `value` with `serde_json::to_string_pretty`. Claims that the
/// text, or the failure, depends on `value` alone.
#[verifier::external_body]
fn pretty_json_text(value: &JsonValue) -> (r: Option<String>)
    ensures
        match r {
            Some(t) => json_pretty_text(*value) == Some(t@),
            None => json_pretty_text(*value) is None,
        },
{
    serde_json::to_string_pretty(&to_serde(value)).ok()
}

/// `text` read as JSON, or the parser's error.
pub fn parse_json_result(text: &str) -> (r: Result<JsonValue, String>)
    ensures
        result_view(r) == json_text_value(text@),
{
    parse_json_text(text)
}

/// `text` read as JSON, or nothing when it is not JSON.
pub open spec fn text_json(text: Seq<char>) -> Option<JsonValue> {
    match json_text_value(text) {
        Ok(v) => Some(v),
        Err(_) => None,
    }
}

pub fn parse_json(text: &str) -> (r: Option<JsonValue>)
    ensures
        r == text_json(text@),
{
    match parse_json_text(text) {
        Ok(v) => Some(v),
        Err(_) => None,
    }
}

/// `value` as pretty-printed JSON text, or `fallback` when it cannot be
/// written.
pub fn pretty_json_or(value: &JsonValue, fallback: &str) -> (r: String)
    ensures
        r@ == (match json_pretty_text(*value) {
            Some(t) => t,
            None => fallback@,
        }),
{
    match pretty_json_text(value) {
        Some(t) => t,
        None => fallback.to_owned(),
    }
}

} // verus!
