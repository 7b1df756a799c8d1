//! JSON documents as plain values, read with `serde_json`.

use vstd::prelude::*;
use crate::text::chars_of;

verus! {

#[verifier::external_type_specification]
#[verifier::external_body]
pub struct ExSerdeJsonValue(serde_json::Value);

#[verifier::external_type_specification]
#[verifier::external_body]
pub struct ExSerdeJsonError(serde_json::Error);

/// A JSON document. Numbers keep their text; objects keep their members in
/// the order `serde_json` holds them (sorted by key, one member per key).
#[derive(Debug)]
pub enum JsonValue {
    Null,
    Bool(bool),
    Number(String),
    Str(String),
    Array(Vec<JsonValue>),
    Object(Vec<(String, JsonValue)>),
}

/// What `serde_json::from_str::<serde_json::Value>` makes of a text, as a
/// plain value (`None` when the text is not JSON).
pub uninterp spec fn json_document(text: Seq<char>) -> Option<JsonValue>;

/// The plain value that a `serde_json::Value` holds.
pub uninterp spec fn json_tree(v: serde_json::Value) -> JsonValue;

/// What `serde_json::from_str::<Vec<u8>>` makes of a text: the numbers of a
/// JSON array of integers in `0..=255`, else `None`.
pub uninterp spec fn json_byte_array(text: Seq<char>) -> Option<Seq<u8>>;

/// Calls `serde_json::from_str::<serde_json::Value>`. Claimed: the result is
/// `Some` exactly when `json_document` of the text is, and then holds that
/// document.
#[verifier::external_body]
fn serde_parse_value(text: &str) -> (r: Option<serde_json::Value>)
    ensures
        match r {
            Some(v) => json_document(text@) == Some(json_tree(v)),
            None => json_document(text@) is None,
        },
{
    serde_json::from_str::<serde_json::Value>(text).ok()
}

/// Converts a `serde_json::Value` member by member into a `JsonValue`
/// (numbers through their `Display` text). Claimed: the result is
/// `json_tree` of the value.
#[verifier::external_body]
fn serde_value_tree(v: &serde_json::Value) -> (r: JsonValue)
    ensures
        r == json_tree(*v),
{
    match v {
        serde_json::Value::Null => JsonValue::Null,
        serde_json::Value::Bool(b) => JsonValue::Bool(*b),
        serde_json::Value::Number(n) => JsonValue::Number(n.to_string()),
        serde_json::Value::String(s) => JsonValue::Str(s.clone()),
        serde_json::Value::Array(a) => JsonValue::Array(a.iter().map(serde_value_tree).collect()),
        serde_json::Value::Object(m) => JsonValue::Object(
            m.iter().map(|(k, x)| (k.clone(), serde_value_tree(x))).collect(),
        ),
    }
}

/// Calls `serde_json::from_str::<Vec<u8>>`. Claimed: `Ok` exactly when
/// `json_byte_array` of the text is `Some`, and then the same bytes.
#[verifier::external_body]
fn serde_parse_bytes(text: &str) -> (r: Result<Vec<u8>, serde_json::Error>)
    ensures
        r is Ok <==> json_byte_array(text@) is Some,
        r matches Ok(v) ==> json_byte_array(text@) == Some(v@),
{
    serde_json::from_str::<Vec<u8>>(text)
}

/// The `Display` text of a `serde_json::Error`; nothing is claimed of it.
#[verifier::external_body]
fn json_error_text(e: &serde_json::Error) -> String {
    e.to_string()
}

/// Parse a JSON document.
pub fn parse_json(text: &str) -> (r: Option<JsonValue>)
    ensures
        r == json_document(text@),
{
    match serde_parse_value(text) {
        Some(v) => Some(serde_value_tree(&v)),
        None => None,
    }
}

/// Parse a JSON array of bytes; the error carries `serde_json`'s message.
pub fn parse_byte_array(text: &str) -> (r: Result<Vec<u8>, String>)
    ensures
        r is Ok <==> json_byte_array(text@) is Some,
        r matches Ok(v) ==> json_byte_array(text@) == Some(v@),
{
    match serde_parse_bytes(text) {
        Ok(v) => Ok(v),
        Err(e) => Err(json_error_text(&e)),
    }
}

/// The value of the first member of `entries` named `key`.
pub open spec fn lookup(entries: Seq<(String, JsonValue)>, key: Seq<char>) -> Option<JsonValue>
    decreases entries.len(),
{
    if entries.len() == 0 {
        None
    } else if entries[0].0@ == key {
        Some(entries[0].1)
    } else {
        lookup(entries.drop_first(), key)
    }
}

/// The member `key` of an object (`Value::get` with a string).
pub open spec fn member(v: JsonValue, key: Seq<char>) -> Option<JsonValue> {
    match v {
        JsonValue::Object(entries) => lookup(entries@, key),
        _ => None,
    }
}

/// The element `i` of an array (`Value::get` with an index).
pub open spec fn element(v: JsonValue, i: int) -> Option<JsonValue> {
    match v {
        JsonValue::Array(items) => if 0 <= i < items@.len() {
            Some(items@[i])
        } else {
            None
        },
        _ => None,
    }
}

fn same_chars(a: &Vec<char>, b: &Vec<char>) -> (r: bool)
    ensures
        r == (a@ == b@),
{
    if a.len() != b.len() {
        return false;
    }
    let mut i: usize = 0;
    while i < a.len()
        invariant
            a.len() == b.len(),
            0 <= i <= a.len(),
            forall|j: int| 0 <= j < i ==> a@[j] == b@[j],
        decreases a.len() - i,
    {
        if a[i] != b[i] {
            return false;
        }
        i = i + 1;
    }
    assert(a@ =~= b@);
    true
}

/// The value of the first member of `entries` named `key`.
pub fn lookup_member<'a>(entries: &'a Vec<(String, JsonValue)>, key: &Vec<char>) -> (r: Option<
    &'a JsonValue,
>)
    ensures
        match r {
            Some(v) => lookup(entries@, key@) == Some(*v),
            None => lookup(entries@, key@) is None,
        },
{
    let mut i: usize = 0;
    assert(entries@.skip(0) =~= entries@);
    while i < entries.len()
        invariant
            0 <= i <= entries.len(),
            lookup(entries@, key@) == lookup(entries@.skip(i as int), key@),
        decreases entries.len() - i,
    {
        let name = chars_of(entries[i].0.as_str());
        assert(entries@.skip(i as int)[0] == entries@[i as int]);
        if same_chars(&name, key) {
            return Some(&entries[i].1);
        }
        assert(entries@.skip(i as int).drop_first() =~= entries@.skip(i + 1));
        i = i + 1;
    }
    None
}

/// The member `key` of an object.
pub fn get_member<'a>(v: &'a JsonValue, key: &Vec<char>) -> (r: Option<&'a JsonValue>)
    ensures
        match r {
            Some(x) => member(*v, key@) == Some(*x),
            None => member(*v, key@) is None,
        },
{
    match v {
        JsonValue::Object(entries) => lookup_member(entries, key),
        _ => None,
    }
}

/// The element `i` of an array.
pub fn get_element<'a>(v: &'a JsonValue, i: usize) -> (r: Option<&'a JsonValue>)
    ensures
        match r {
            Some(x) => element(*v, i as int) == Some(*x),
            None => element(*v, i as int) is None,
        },
{
    match v {
        JsonValue::Array(items) => if i < items.len() {
            Some(&items[i])
        } else {
            None
        },
        _ => None,
    }
}

} // verus!
