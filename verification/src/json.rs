//! JSON values of the `serde_json` crate, seen by what they hold.
use vstd::prelude::*;

verus! {

/// A JSON value.
#[verifier::external_type_specification]
#[verifier::external_body]
pub struct ExValue(serde_json::Value);

/// What a JSON value holds.
pub enum Json {
    Null,
    Bool(bool),
    /// A number that is an unsigned integer of 64 bits.
    Unsigned(u64),
    /// Any other number, by its digits.
    Number(Seq<char>),
    Text(Seq<char>),
    Array(Seq<Json>),
    Object(Map<Seq<char>, Json>),
}

/// What a value holds.
pub uninterp spec fn content(value: serde_json::Value) -> Json;

/// What a text is parsed to, or why it is no JSON.
pub uninterp spec fn parsed(text: Seq<char>) -> Result<Json, Seq<char>>;

/// How a value is written.
pub uninterp spec fn written(json: Json) -> Seq<char>;

/// `serde_json::from_str`: parses a text, or says why it is no JSON.
#[verifier::external_body]
pub(crate) fn parse(text: &str) -> (r: Result<serde_json::Value, String>)
    ensures
        match r {
            Ok(value) => parsed(text@) == Ok::<Json, Seq<char>>(content(value)),
            Err(error) => parsed(text@) == Err::<Json, Seq<char>>(error@),
        },
{
    serde_json::from_str(text).map_err(|error: serde_json::Error| error.to_string())
}

/// `serde_json::Value::to_string`: writes a value.
#[verifier::external_body]
pub(crate) fn value_text(value: &serde_json::Value) -> (text: String)
    ensures
        text@ == written(content(*value)),
{
    value.to_string()
}

/// `serde_json::Value::clone`: a value that holds the same.
#[verifier::external_body]
pub(crate) fn copy(value: &serde_json::Value) -> (same: serde_json::Value)
    ensures
        content(same) == content(*value),
{
    value.clone()
}

/// `serde_json::Value::String`: a text.
#[verifier::external_body]
pub(crate) fn text_value(text: &str) -> (value: serde_json::Value)
    ensures
        content(value) == Json::Text(text@),
{
    serde_json::Value::String(text.to_string())
}

/// `serde_json::Value::get` with a key: what an object holds under it; nothing where it has no
/// such key or the value is no object.
#[verifier::external_body]
pub(crate) fn get<'a>(value: &'a serde_json::Value, key: &str) -> (r: Option<&'a serde_json::Value>)
    ensures
        match r {
            Some(field) => member(content(*value), key@) == Some(content(*field)),
            None => member(content(*value), key@) is None,
        },
{
    value.get(key)
}

/// `serde_json::Value::as_str`: the text, where the value is one.
#[verifier::external_body]
pub(crate) fn as_str(value: &serde_json::Value) -> (r: Option<&str>)
    ensures
        match r {
            Some(text) => content(*value) == Json::Text(text@),
            None => content(*value) !is Text,
        },
{
    value.as_str()
}

/// `serde_json::Value::as_bool`: the truth value, where the value is one.
#[verifier::external_body]
pub(crate) fn as_bool(value: &serde_json::Value) -> (r: Option<bool>)
    ensures
        match r {
            Some(truth) => content(*value) == Json::Bool(truth),
            None => content(*value) !is Bool,
        },
{
    value.as_bool()
}

/// `serde_json::Value::as_u64`: the number, where the value is an unsigned integer of 64 bits.
#[verifier::external_body]
pub(crate) fn as_u64(value: &serde_json::Value) -> (r: Option<u64>)
    ensures
        match r {
            Some(number) => content(*value) == Json::Unsigned(number),
            None => content(*value) !is Unsigned,
        },
{
    value.as_u64()
}

/// `serde_json::Value::as_array`: the elements, where the value is an array.
#[verifier::external_body]
pub(crate) fn as_array(value: &serde_json::Value) -> (r: Option<&Vec<serde_json::Value>>)
    ensures
        match r {
            Some(elements) => content(*value) == Json::Array(contents(elements@)),
            None => content(*value) !is Array,
        },
{
    value.as_array()
}

/// `serde_json::Value::is_object`: whether the value is an object.
#[verifier::external_body]
pub(crate) fn is_object(value: &serde_json::Value) -> (r: bool)
    ensures
        r == content(*value) is Object,
{
    value.is_object()
}

/// `serde_json::Map::len` and `serde_json::Value::as_object`: how many keys an object has.
#[verifier::external_body]
pub(crate) fn object_len(object: &serde_json::Value) -> (len: usize)
    requires
        content(*object) is Object,
    ensures
        has_keys(content(*object), len as nat),
{
    object.as_object().map_or(0, serde_json::Map::len)
}

/// `serde_json::Map::insert` and `serde_json::Value::as_object_mut`: puts a value under a key of an
/// object.
#[verifier::external_body]
pub(crate) fn insert(object: &mut serde_json::Value, key: &str, value: serde_json::Value)
    requires
        content(*old(object)) is Object,
    ensures
        content(*final(object)) == Json::Object(
            content(*old(object))->Object_0.insert(key@, content(value)),
        ),
{
    if let Some(map) = object.as_object_mut() {
        map.insert(key.to_string(), value);
    }
}

/// What the values hold.
pub open spec fn contents(values: Seq<serde_json::Value>) -> Seq<Json> {
    values.map_values(|value: serde_json::Value| content(value))
}

/// What an object holds under a key.
pub open spec fn member(json: Json, key: Seq<char>) -> Option<Json> {
    match json {
        Json::Object(map) => if map.dom().contains(key) {
            Some(map[key])
        } else {
            None
        },
        _ => None,
    }
}

/// Whether an object has so many keys.
pub open spec fn has_keys(json: Json, len: nat) -> bool {
    json is Object && json->Object_0.dom().finite() && json->Object_0.dom().len() == len
}

/// The text that an object holds under a key.
pub open spec fn text_member(json: Json, key: Seq<char>) -> Option<Seq<char>> {
    match member(json, key) {
        Some(Json::Text(text)) => Some(text),
        _ => None,
    }
}

/// Looks up the text under a key.
pub fn text_field<'a>(value: &'a serde_json::Value, key: &str) -> (r: Option<&'a str>)
    ensures
        match r {
            Some(text) => text_member(content(*value), key@) == Some(text@),
            None => text_member(content(*value), key@) is None,
        },
{
    match get(value, key) {
        Some(field) => as_str(field),
        None => None,
    }
}

/// Checks whether an object holds `true` under a key.
pub fn is_true(value: &serde_json::Value, key: &str) -> (r: bool)
    ensures
        r == (member(content(*value), key@) == Some(Json::Bool(true))),
{
    match get(value, key) {
        Some(field) => match as_bool(field) {
            Some(truth) => truth,
            None => false,
        },
        None => false,
    }
}

/// Checks whether an object holds the given text under a key.
pub fn holds_text(value: &serde_json::Value, key: &str, text: &str) -> (r: bool)
    ensures
        r == (text_member(content(*value), key@) == Some(text@)),
{
    match text_field(value, key) {
        Some(found) => crate::text::same(found, text),
        None => false,
    }
}

} // verus!
