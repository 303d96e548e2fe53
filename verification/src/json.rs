//! The JSON values that the protocol carries.
//!
//! JSON itself is `serde_json`'s business: this module declares its `Value`
//! type, names what a value holds, and states what the handful of `serde_json`
//! functions that the crate calls do to those names. Everything here is
//! trusted; the rest of the crate is proved against it.

use serde_json::Value;
use vstd::prelude::*;

verus! {

/// Declares `serde_json::Value`. What a value holds is known only through
/// the names below.
#[verifier::external_type_specification]
#[verifier::external_body]
pub struct ExValue(serde_json::Value);

/// Declares `serde_json::Error`. Nothing is claimed of it.
#[verifier::external_type_specification]
#[verifier::external_body]
pub struct ExJsonError(serde_json::Error);

/// Whether a JSON value is `null`.
pub uninterp spec fn json_null(v: Value) -> bool;

/// The text of a JSON string; `None` for every other kind of value.
pub uninterp spec fn json_text(v: Value) -> Option<Seq<char>>;

/// The number held by a JSON value if it is a non-negative integer that fits
/// in 64 bits; `None` for every other value.
pub uninterp spec fn json_u64(v: Value) -> Option<u64>;

/// The truth value of a JSON boolean; `None` for every other kind of value.
pub uninterp spec fn json_bool(v: Value) -> Option<bool>;

/// The elements of a JSON array, in order; `None` for every other kind of value.
pub uninterp spec fn json_items(v: Value) -> Option<Seq<Value>>;

/// The members of a JSON object, by key; `None` for every other kind of value.
pub uninterp spec fn json_fields(v: Value) -> Option<Map<Seq<char>, Value>>;

/// The value that a text parses to as one JSON document; `None` where it is
/// not one.
pub uninterp spec fn json_parse(text: Seq<char>) -> Option<Value>;

/// The compact text that the JSON writer gives for a value; `None` where the
/// writer fails on it.
pub uninterp spec fn json_render(v: Value) -> Option<Seq<char>>;

/// The member of an object under `key`, if `v` is an object that has one.
pub open spec fn json_field(v: Value, key: Seq<char>) -> Option<Value> {
    match json_fields(v) {
        Some(members) => if members.contains_key(key) {
            Some(members[key])
        } else {
            None
        },
        None => None,
    }
}

/// No two of the pairs share a key.
pub open spec fn distinct_keys(pairs: Seq<(String, Value)>) -> bool {
    forall|i: int, j: int|
        0 <= i < j < pairs.len() ==> (#[trigger] pairs[i]).0@ != (#[trigger] pairs[j]).0@
}

/// The object that has exactly the given pairs as members.
pub open spec fn members_of(pairs: Seq<(String, Value)>) -> Map<Seq<char>, Value> {
    Map::new(
        |key: Seq<char>| exists|i: int| 0 <= i < pairs.len() && (#[trigger] pairs[i]).0@ == key,
        |key: Seq<char>|
            pairs[choose|i: int| 0 <= i < pairs.len() && (#[trigger] pairs[i]).0@ == key].1,
    )
}

/// Specifies `serde_json::Value::is_null`: true exactly for `Value::Null`.
pub assume_specification[ Value::is_null ](v: &Value) -> (r: bool)
    ensures
        r == json_null(*v),
;

/// Specifies `serde_json::Value::as_str`: the string slice of a
/// `Value::String`, `None` for any other variant.
pub assume_specification<'a>[ Value::as_str ](v: &'a Value) -> (r: Option<&'a str>)
    ensures
        match r {
            Some(s) => json_text(*v) == Some(s@),
            None => json_text(*v) is None,
        },
;

/// Specifies `serde_json::Value::as_u64`: the integer of a `Value::Number`
/// that holds a non-negative integer, `None` otherwise.
pub assume_specification[ Value::as_u64 ](v: &Value) -> (r: Option<u64>)
    ensures
        r == json_u64(*v),
;

/// Specifies `serde_json::Value::as_array`: the vector of a `Value::Array`,
/// `None` for any other variant.
pub assume_specification<'a>[ Value::as_array ](v: &'a Value) -> (r: Option<&'a Vec<Value>>)
    ensures
        match r {
            Some(items) => json_items(*v) == Some(items@),
            None => json_items(*v) is None,
        },
;

/// Specifies `Clone` for `serde_json::Value`: the copy equals the value it was made of.
pub assume_specification[ <Value as Clone>::clone ](v: &Value) -> (r: Value)
    ensures
        r == *v,
;

/// Calls `serde_json::Value::get` with a string key: the member under that
/// key where the value is an object that has one, `None` otherwise.
#[verifier::external_body]
pub(crate) fn member<'a>(v: &'a Value, key: &str) -> (r: Option<&'a Value>)
    ensures
        match r {
            Some(found) => json_field(*v, key@) == Some(*found),
            None => json_field(*v, key@) is None,
        },
{
    v.get(key)
}

/// Calls `serde_json::Value::as_object` and copies the members out: each key
/// once with its value, `None` where the value is no object.
#[verifier::external_body]
pub(crate) fn members(v: &Value) -> (r: Option<Vec<(String, Value)>>)
    ensures
        match r {
            Some(pairs) => distinct_keys(pairs@) && json_fields(*v) == Some(members_of(pairs@)),
            None => json_fields(*v) is None,
        },
{
    v.as_object().map(|object| object.iter().map(|(k, v)| (k.clone(), v.clone())).collect())
}

/// Builds `serde_json::Value::Null`.
#[verifier::external_body]
pub(crate) fn null_value() -> (r: Value)
    ensures
        json_null(r),
{
    Value::Null
}

/// Builds `serde_json::Value::String`: a string, which is not `null`.
#[verifier::external_body]
pub(crate) fn text_value(text: String) -> (r: Value)
    ensures
        json_text(r) == Some(text@),
        !json_null(r),
{
    Value::String(text)
}

/// Builds `serde_json::Value::Bool`: a boolean, which is not `null`.
#[verifier::external_body]
pub(crate) fn bool_value(b: bool) -> (r: Value)
    ensures
        json_bool(r) == Some(b),
        !json_null(r),
{
    Value::Bool(b)
}

/// Calls `Value::from` on a `u64`: the number that `as_u64` gives back.
#[verifier::external_body]
pub(crate) fn number_value(n: u64) -> (r: Value)
    ensures
        json_u64(r) == Some(n),
{
    Value::from(n)
}

/// Builds `serde_json::Value::Array` around the given elements.
#[verifier::external_body]
pub(crate) fn array_value(items: Vec<Value>) -> (r: Value)
    ensures
        json_items(r) == Some(items@),
{
    Value::Array(items)
}

/// Collects pairs with distinct keys into a `serde_json::Map` and builds
/// `serde_json::Value::Object` around it: an object with exactly those members.
#[verifier::external_body]
pub(crate) fn object_value(pairs: Vec<(String, Value)>) -> (r: Value)
    requires
        distinct_keys(pairs@),
    ensures
        json_fields(r) == Some(members_of(pairs@)),
{
    Value::Object(pairs.into_iter().collect())
}

/// Calls `serde_json::from_str` for a `Value`: the parsed document, or the
/// crate's error where the text is not one JSON document.
#[verifier::external_body]
pub(crate) fn parse_text(text: &str) -> (r: Result<Value, serde_json::Error>)
    ensures
        match r {
            Ok(v) => json_parse(text@) == Some(v),
            Err(_) => json_parse(text@) is None,
        },
{
    serde_json::from_str::<Value>(text)
}

/// Calls `serde_json::to_string` on a `Value`: its compact text, or the
/// crate's error where the writer fails on the value. Whether it fails is not
/// claimed, only that the same value fares the same.
#[verifier::external_body]
pub(crate) fn render_text(v: &Value) -> (r: Result<String, serde_json::Error>)
    ensures
        match r {
            Ok(text) => json_render(*v) == Some(text@),
            Err(_) => json_render(*v) is None,
        },
{
    serde_json::to_string(v)
}

} // verus!
