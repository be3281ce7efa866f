//! The JSON documents that the capture path reads and the log writes.
//!
//! Documents are held as `serde_json::Value`. Verus cannot look inside such a
//! value, so this module gives it a mathematical model, [`Json`], and states
//! for each `serde_json` operation used by the crate how it acts on the model.
//! Everything stated here about `serde_json` is believed, not proved.

use vstd::prelude::*;

verus! {

/// The mathematical model of a JSON document.
pub enum Json {
    Null,
    Bool(bool),
    /// A number held as an integer: any value from `i64::MIN` to `u64::MAX`.
    Int(int),
    /// A number held as a double; the field is its IEEE-754 bit pattern.
    Real(u64),
    Text(Seq<char>),
    Array(Seq<Json>),
    Object(Map<Seq<char>, Json>),
}

/// `serde_json::Value`, carried through verified code as an opaque value.
#[verifier::external_type_specification]
#[verifier::external_body]
pub struct ExValue(serde_json::Value);

/// `serde_json::Error`, carried through verified code as an opaque value.
#[verifier::external_type_specification]
#[verifier::external_body]
pub struct ExError(serde_json::Error);

/// The document that a `serde_json::Value` holds.
pub uninterp spec fn value_tree(v: serde_json::Value) -> Json;

/// What `serde_json::from_slice` makes of a byte string: the document it
/// reads, or `None` where it reports an error.
pub uninterp spec fn json_parse(bytes: Seq<u8>) -> Option<Json>;

/// What `serde_json::to_vec_pretty` makes of a document: the text it writes,
/// or `None` where it reports an error.
pub uninterp spec fn json_pretty(tree: Json) -> Option<Seq<u8>>;

/// The member of an object under `key`; `None` for a missing key and for
/// anything that is not an object.
pub open spec fn member_of(tree: Json, key: Seq<char>) -> Option<Json> {
    match tree {
        Json::Object(members) => if members.contains_key(key) {
            Some(members[key])
        } else {
            None
        },
        _ => None,
    }
}

/// The characters of a JSON string; `None` for any other document.
pub open spec fn text_of(tree: Json) -> Option<Seq<char>> {
    match tree {
        Json::Text(chars) => Some(chars),
        _ => None,
    }
}

/// The value of a JSON integer that fits `i64`; `None` for any other document.
pub open spec fn i64_of(tree: Json) -> Option<i64> {
    match tree {
        Json::Int(n) => if i64::MIN <= n <= i64::MAX {
            Some(n as i64)
        } else {
            None
        },
        _ => None,
    }
}

/// The elements of a JSON array; `None` for any other document.
pub open spec fn items_of(tree: Json) -> Option<Seq<Json>> {
    match tree {
        Json::Array(items) => Some(items),
        _ => None,
    }
}

/// The documents held by a sequence of values, in the same order.
pub open spec fn value_trees(values: Seq<serde_json::Value>) -> Seq<Json> {
    values.map_values(|v: serde_json::Value| value_tree(v))
}

/// `Value::is_null`: true exactly for the document `null`.
pub assume_specification[ serde_json::Value::is_null ](v: &serde_json::Value) -> (r: bool)
    ensures
        r == (value_tree(*v) is Null),
;

/// `Value::is_object`: true exactly for an object.
pub assume_specification[ serde_json::Value::is_object ](v: &serde_json::Value) -> (r: bool)
    ensures
        r == (value_tree(*v) is Object),
;

/// `Value::as_str`: the string's characters for a JSON string, `None` otherwise.
pub assume_specification<'a>[ serde_json::Value::as_str ](v: &'a serde_json::Value) -> (r: Option<
    &'a str,
>)
    ensures
        match r {
            Some(s) => text_of(value_tree(*v)) == Some(s@),
            None => text_of(value_tree(*v)) is None,
        },
;

/// `Value::as_i64`: the number for an integer that fits `i64`, `None` otherwise.
pub assume_specification[ serde_json::Value::as_i64 ](v: &serde_json::Value) -> (r: Option<i64>)
    ensures
        r == i64_of(value_tree(*v)),
;

/// `Value::as_array`: the elements of an array, `None` otherwise.
pub assume_specification<'a>[ serde_json::Value::as_array ](v: &'a serde_json::Value) -> (r:
    Option<&'a Vec<serde_json::Value>>)
    ensures
        match r {
            Some(items) => items_of(value_tree(*v)) == Some(value_trees(items@)),
            None => items_of(value_tree(*v)) is None,
        },
;

/// `Value::get` with a string key: the member under that key where the value
/// is an object that has it, `None` otherwise.
#[verifier::external_body]
pub(crate) fn member<'a>(v: &'a serde_json::Value, key: &str) -> (r: Option<&'a serde_json::Value>)
    ensures
        match r {
            Some(m) => member_of(value_tree(*v), key@) == Some(value_tree(*m)),
            None => member_of(value_tree(*v), key@) is None,
        },
{
    v.get(key)
}

/// `serde_json::from_slice` at type `Value`: reads one document from JSON text.
#[verifier::external_body]
pub(crate) fn parse(bytes: &[u8]) -> (r: Result<serde_json::Value, serde_json::Error>)
    ensures
        match r {
            Ok(v) => json_parse(bytes@) == Some(value_tree(v)),
            Err(_) => json_parse(bytes@) is None,
        },
{
    serde_json::from_slice::<serde_json::Value>(bytes)
}

/// `serde_json::to_vec_pretty` on a `Value`: writes the pretty-printed text
/// of the document. Whether it succeeds depends on the document alone; that
/// it does succeed is not claimed.
#[verifier::external_body]
pub(crate) fn pretty(v: &serde_json::Value) -> (r: Result<Vec<u8>, serde_json::Error>)
    ensures
        match r {
            Ok(bytes) => json_pretty(value_tree(*v)) == Some(bytes@),
            Err(_) => json_pretty(value_tree(*v)) is None,
        },
{
    serde_json::to_vec_pretty(v)
}

/// `Value::from(i64)`: the JSON integer with that value.
#[verifier::external_body]
pub(crate) fn integer(n: i64) -> (r: serde_json::Value)
    ensures
        value_tree(r) == Json::Int(n as int),
{
    serde_json::Value::from(n)
}

/// `Value::String`: the JSON string with those characters.
#[verifier::external_body]
pub(crate) fn text(s: String) -> (r: serde_json::Value)
    ensures
        value_tree(r) == Json::Text(s@),
{
    serde_json::Value::String(s)
}

/// `Value::Array`: the JSON array of the given documents, in order.
#[verifier::external_body]
pub(crate) fn array(items: Vec<serde_json::Value>) -> (r: serde_json::Value)
    ensures
        value_tree(r) == Json::Array(value_trees(items@)),
{
    serde_json::Value::Array(items)
}

/// Whether one of the entries has the key `key`.
pub open spec fn has_key(entries: Seq<(String, serde_json::Value)>, key: Seq<char>) -> bool {
    exists|i: int| 0 <= i < entries.len() && (#[trigger] entries[i]).0@ == key
}

/// The position of an entry with the key `key`, where there is one.
pub open spec fn key_index(entries: Seq<(String, serde_json::Value)>, key: Seq<char>) -> int {
    choose|i: int| 0 <= i < entries.len() && (#[trigger] entries[i]).0@ == key
}

/// The members of the object made of entries whose keys differ pairwise: each
/// key with the document of its own value.
pub open spec fn entries_members(entries: Seq<(String, serde_json::Value)>) -> Map<
    Seq<char>,
    Json,
> {
    Map::new(
        |key: Seq<char>| has_key(entries, key),
        |key: Seq<char>| value_tree(entries[key_index(entries, key)].1),
    )
}

/// Whether no two entries share a key.
pub open spec fn distinct_keys(entries: Seq<(String, serde_json::Value)>) -> bool {
    forall|i: int, j: int|
        0 <= i < j < entries.len() ==> (#[trigger] entries[i]).0@ != (#[trigger] entries[j]).0@
}

/// `Value::from_iter` over key-value pairs with pairwise different keys: the
/// object whose keys are exactly the given ones, each with its own value.
#[verifier::external_body]
pub(crate) fn object(entries: Vec<(String, serde_json::Value)>) -> (r: serde_json::Value)
    requires
        distinct_keys(entries@),
    ensures
        value_tree(r) == Json::Object(entries_members(entries@)),
{
    serde_json::Value::from_iter(entries)
}

/// The characters of the string member under `key`; `None` where the member
/// is missing or is no string.
pub open spec fn member_text(tree: Json, key: Seq<char>) -> Option<Seq<char>> {
    match member_of(tree, key) {
        Some(m) => text_of(m),
        None => None,
    }
}

/// The value of the integer member under `key`; `None` where the member is
/// missing or is no integer that fits `i64`.
pub open spec fn member_i64(tree: Json, key: Seq<char>) -> Option<i64> {
    match member_of(tree, key) {
        Some(m) => i64_of(m),
        None => None,
    }
}

/// Reads the string member of `v` under `key`.
pub(crate) fn member_str<'a>(v: &'a serde_json::Value, key: &str) -> (r: Option<&'a str>)
    ensures
        match r {
            Some(s) => member_text(value_tree(*v), key@) == Some(s@),
            None => member_text(value_tree(*v), key@) is None,
        },
{
    match member(v, key) {
        Some(m) => m.as_str(),
        None => None,
    }
}

/// Reads the integer member of `v` under `key`.
pub(crate) fn member_int(v: &serde_json::Value, key: &str) -> (r: Option<i64>)
    ensures
        r == member_i64(value_tree(*v), key@),
{
    match member(v, key) {
        Some(m) => m.as_i64(),
        None => None,
    }
}

} // verus!
