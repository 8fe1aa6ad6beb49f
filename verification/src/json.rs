//! A JSON document model, parsed by `serde_json`.

use vstd::prelude::*;
use vstd::string::*;

use crate::text::str_equal;

verus! {

/// A JSON value as `serde_json::Value` holds it; numbers keep their
/// `serde_json` text, objects their entries in the map's order (keys unique).
pub enum JsonValue {
    Null,
    Bool(bool),
    Number(String),
    Str(String),
    Array(Vec<JsonValue>),
    Object(Vec<(String, JsonValue)>),
}

#[verifier::external_type_specification]
#[verifier::external_body]
pub struct ExSerdeJsonValue(serde_json::Value);

/// The document that `serde_json::from_str::<serde_json::Value>` parses
/// from a text, or `None` when the text is not JSON.
pub uninterp spec fn spec_parse_json(text: Seq<char>) -> Option<JsonValue>;

/// Converts a `serde_json::Value` variant by variant.
#[verifier::external_body]
pub(crate) fn json_from_serde(value: serde_json::Value) -> (v: JsonValue) {
    match value {
        serde_json::Value::Null => JsonValue::Null,
        serde_json::Value::Bool(b) => JsonValue::Bool(b),
        serde_json::Value::Number(n) => JsonValue::Number(n.to_string()),
        serde_json::Value::String(s) => JsonValue::Str(s),
        serde_json::Value::Array(a) => JsonValue::Array(a.into_iter().map(json_from_serde).collect()),
        serde_json::Value::Object(m) => JsonValue::Object(
            m.into_iter().map(|(k, v)| (k, json_from_serde(v))).collect(),
        ),
    }
}

/// Converts the model back into a `serde_json::Value`, variant by variant;
/// a number is read back from its `serde_json` text.
#[verifier::external_body]
pub(crate) fn json_to_serde(value: &JsonValue) -> (v: serde_json::Value) {
    match value {
        JsonValue::Null => serde_json::Value::Null,
        JsonValue::Bool(b) => serde_json::Value::Bool(*b),
        JsonValue::Number(n) => n.parse::<serde_json::Number>().map(serde_json::Value::Number).unwrap_or(
            serde_json::Value::Null,
        ),
        JsonValue::Str(s) => serde_json::Value::String(s.clone()),
        JsonValue::Array(a) => serde_json::Value::Array(a.iter().map(json_to_serde).collect()),
        JsonValue::Object(m) => serde_json::Value::Object(
            m.iter().map(|(k, v)| (k.clone(), json_to_serde(v))).collect(),
        ),
    }
}

/// Calls `serde_json::from_str::<serde_json::Value>`. Trusted: the result
/// is the named parse of the text, and an error (shown as its message)
/// exactly when the named parse is `None`.
#[verifier::external_body]
fn parse_json_value(text: &str) -> (r: Result<JsonValue, String>)
    ensures
        r is Ok <==> spec_parse_json(text@) is Some,
        r matches Ok(v) ==> spec_parse_json(text@) == Some(v),
{
    match serde_json::from_str::<serde_json::Value>(text) {
        Ok(v) => Ok(json_from_serde(v)),
        Err(e) => Err(e.to_string()),
    }
}

/// Parses a JSON text; the error is the parser's message.
pub fn parse_json(text: &str) -> (r: Result<JsonValue, String>)
    ensures
        r is Ok <==> spec_parse_json(text@) is Some,
        r matches Ok(v) ==> spec_parse_json(text@) == Some(v),
{
    parse_json_value(text)
}

/// The first entry of an object with the given key.
pub open spec fn entry_value_from(entries: Seq<(String, JsonValue)>, key: Seq<char>, i: int) -> Option<
    JsonValue,
>
    decreases entries.len() - i,
{
    if i < 0 || i >= entries.len() {
        None
    } else if entries[i].0@ == key {
        Some(entries[i].1)
    } else {
        entry_value_from(entries, key, i + 1)
    }
}

/// `Value::get` with a string index: the member of an object, `None` for
/// anything else.
pub open spec fn json_get(v: JsonValue, key: Seq<char>) -> Option<JsonValue> {
    match v {
        JsonValue::Object(entries) => entry_value_from(entries@, key, 0),
        _ => None,
    }
}

/// `value.get(key)?.as_str()`: a member that is a string.
pub open spec fn json_str_member(v: JsonValue, key: Seq<char>) -> Option<Seq<char>> {
    match json_get(v, key) {
        Some(JsonValue::Str(s)) => Some(s@),
        _ => None,
    }
}

/// Whether an object has a member with the given key.
pub fn has_member(v: &JsonValue, key: &str) -> (b: bool)
    ensures
        b == json_get(*v, key@) is Some,
{
    match v {
        JsonValue::Object(entries) => {
            let mut i: usize = 0;
            while i < entries.len()
                invariant
                    i <= entries@.len(),
                    json_get(*v, key@) == entry_value_from(entries@, key@, i as int),
                decreases entries@.len() - i,
            {
                if str_equal(entries[i].0.as_str(), key) {
                    return true;
                }
                i = i + 1;
            }
            false
        },
        _ => false,
    }
}

/// A string member of an object, cloned.
pub fn str_member(v: &JsonValue, key: &str) -> (r: Option<String>)
    ensures
        match r {
            Some(s) => json_str_member(*v, key@) == Some(s@),
            None => json_str_member(*v, key@) is None,
        },
{
    match v {
        JsonValue::Object(entries) => {
            let mut i: usize = 0;
            while i < entries.len()
                invariant
                    i <= entries@.len(),
                    json_get(*v, key@) == entry_value_from(entries@, key@, i as int),
                decreases entries@.len() - i,
            {
                if str_equal(entries[i].0.as_str(), key) {
                    return match &entries[i].1 {
                        JsonValue::Str(s) => Some(s.clone()),
                        _ => None,
                    };
                }
                i = i + 1;
            }
            None
        },
        _ => None,
    }
}

/// The member of an object with the given key.
pub fn get_member<'a>(v: &'a JsonValue, key: &str) -> (r: Option<&'a JsonValue>)
    ensures
        match r {
            Some(x) => json_get(*v, key@) == Some(*x),
            None => json_get(*v, key@) is None,
        },
{
    match v {
        JsonValue::Object(entries) => {
            let mut i: usize = 0;
            while i < entries.len()
                invariant
                    i <= entries@.len(),
                    json_get(*v, key@) == entry_value_from(entries@, key@, i as int),
                decreases entries@.len() - i,
            {
                if str_equal(entries[i].0.as_str(), key) {
                    return Some(&entries[i].1);
                }
                i = i + 1;
            }
            None
        },
        _ => None,
    }
}


/// The member of an object with the given key, taken out of the value.
pub fn take_member(v: JsonValue, key: &str) -> (r: Option<JsonValue>)
    ensures
        r == json_get(v, key@),
{
    match v {
        JsonValue::Object(entries) => {
            let ghost all = entries@;
            let mut i: usize = 0;
            while i < entries.len()
                invariant
                    i <= entries@.len(),
                    entries@ == all,
                    json_get(v, key@) == entry_value_from(all, key@, 0),
                    entry_value_from(all, key@, 0) == entry_value_from(all, key@, i as int),
                decreases entries@.len() - i,
            {
                if str_equal(entries[i].0.as_str(), key) {
                    let mut entries = entries;
                    let (_, value) = entries.swap_remove(i);
                    return Some(value);
                }
                i = i + 1;
            }
            None
        },
        _ => None,
    }
}

} // verus!
