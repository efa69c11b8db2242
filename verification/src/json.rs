//! JSON values as plain data, and the reading of JSON text.

use vstd::prelude::*;

use crate::keyed::{find_key, index_of_first, key_views};

verus! {

/// A JSON value. Numbers keep their decimal text; an object keeps its members
/// in order. Values read from JSON text hold each key of an object once
/// (`keys_once`); a lookup finds the first member with the key.
#[derive(Debug)]
pub enum JsonValue {
    Null,
    Bool(bool),
    Number(String),
    String(String),
    Array(Vec<JsonValue>),
    Object(Vec<(String, JsonValue)>),
}

/// Every object in `v`, at any depth, has each key once.
pub open spec fn keys_once(v: JsonValue) -> bool
    decreases v,
{
    match v {
        JsonValue::Array(items) => forall|i: int|
            0 <= i < items@.len() ==> #[trigger] keys_once(items@[i]),
        JsonValue::Object(fields) => key_views(fields@).no_duplicates() && forall|i: int|
            0 <= i < fields@.len() ==> #[trigger] keys_once(fields@[i].1),
        _ => true,
    }
}

/// The member `key` of an object (`None` for anything else, or a missing key).
pub open spec fn json_get(v: JsonValue, key: Seq<char>) -> Option<JsonValue> {
    match v {
        JsonValue::Object(fields) => match index_of_first(key_views(fields@), key) {
            Some(i) => Some(fields@[i].1),
            None => None,
        },
        _ => None,
    }
}

/// The text of a string value.
pub open spec fn json_as_str(v: Option<JsonValue>) -> Option<Seq<char>> {
    match v {
        Some(JsonValue::String(s)) => Some(s@),
        _ => None,
    }
}

/// The truth value of a boolean value.
pub open spec fn json_as_bool(v: Option<JsonValue>) -> Option<bool> {
    match v {
        Some(JsonValue::Bool(b)) => Some(b),
        _ => None,
    }
}

impl JsonValue {
    /// The member `key` of an object, like `serde_json::Value::get` with a
    /// string index.
    pub fn get(&self, key: &str) -> (r: Option<&JsonValue>)
        ensures
            match r {
                Some(v) => json_get(*self, key@) == Some(*v),
                None => json_get(*self, key@) is None,
            },
    {
        match self {
            JsonValue::Object(fields) => match find_key(fields, key) {
                Some(i) => Some(&fields[i].1),
                None => None,
            },
            _ => None,
        }
    }

    /// The text of a string value.
    pub fn as_str(&self) -> (r: Option<&str>)
        ensures
            match r {
                Some(s) => json_as_str(Some(*self)) == Some(s@),
                None => json_as_str(Some(*self)) is None,
            },
    {
        match self {
            JsonValue::String(s) => Some(s.as_str()),
            _ => None,
        }
    }

    /// The truth value of a boolean value.
    pub fn as_bool(&self) -> (r: Option<bool>)
        ensures
            r == json_as_bool(Some(*self)),
    {
        match self {
            JsonValue::Bool(b) => Some(*b),
            _ => None,
        }
    }
}

/// The JSON value that `text` holds, as `serde_json` reads it; `None` where
/// the text is not JSON.
pub uninterp spec fn json_text_value(text: Seq<char>) -> Option<JsonValue>;

/// The JSON value that the bytes `bytes` hold, as `serde_json` reads them
/// (UTF-8 JSON text); `None` where they are not JSON.
pub uninterp spec fn json_bytes_value(bytes: Seq<u8>) -> Option<JsonValue>;

/// The list of strings that `text` holds, as `serde_json` reads a
/// `Vec<String>`; `None` where the text is not a JSON array of strings.
pub uninterp spec fn json_text_string_list(text: Seq<char>) -> Option<Seq<Seq<char>>>;

/// `serde_json::Value`, carried opaquely into the conversion below.
#[verifier::external_type_specification]
#[verifier::external_body]
pub struct ExSerdeJsonValue(serde_json::Value);

/// The same value as `v`, in this crate's form.
#[verifier::external_body]
fn from_serde_value(v: serde_json::Value) -> JsonValue {
    match v {
        serde_json::Value::Null => JsonValue::Null,
        serde_json::Value::Bool(b) => JsonValue::Bool(b),
        serde_json::Value::Number(n) => JsonValue::Number(n.to_string()),
        serde_json::Value::String(s) => JsonValue::String(s),
        serde_json::Value::Array(a) => JsonValue::Array(a.into_iter().map(from_serde_value).collect()),
        serde_json::Value::Object(m) => JsonValue::Object(m.into_iter().map(|(k, x)| (k, from_serde_value(x))).collect()),
    }
}

/// `serde_json::from_str::<serde_json::Value>`: the JSON value of `text`, or
/// the text of the parse error (which is not stated). Its objects come from
/// `serde_json::Map` (a `BTreeMap` here), so each holds a key once.
#[verifier::external_body]
pub(crate) fn parse_json(text: &str) -> (r: Result<JsonValue, String>)
    ensures
        match r {
            Ok(v) => json_text_value(text@) == Some(v),
            Err(_) => json_text_value(text@) is None,
        },
        r matches Ok(v) ==> keys_once(v),
{
    serde_json::from_str::<serde_json::Value>(text).map(from_serde_value).map_err(|e| e.to_string())
}

/// `serde_json::from_slice::<serde_json::Value>`: the JSON value of the bytes,
/// or the text of the parse error (which is not stated). Its objects come from
/// `serde_json::Map` (a `BTreeMap` here), so each holds a key once.
#[verifier::external_body]
pub(crate) fn parse_json_bytes(bytes: &[u8]) -> (r: Result<JsonValue, String>)
    ensures
        match r {
            Ok(v) => json_bytes_value(bytes@) == Some(v),
            Err(_) => json_bytes_value(bytes@) is None,
        },
        r matches Ok(v) ==> keys_once(v),
{
    serde_json::from_slice::<serde_json::Value>(bytes).map(from_serde_value).map_err(|e| e.to_string())
}

/// `serde_json::from_str::<Vec<String>>`: the strings of a JSON array of
/// strings; `None` for any other text.
#[verifier::external_body]
pub(crate) fn parse_json_string_list(text: &str) -> (r: Option<Vec<String>>)
    ensures
        match r {
            Some(v) => json_text_string_list(text@) == Some(v@.map_values(|s: String| s@)),
            None => json_text_string_list(text@) is None,
        },
{
    serde_json::from_str::<Vec<String>>(text).ok()
}

} // verus!
