//! JSON documents as the `json` crate holds them, seen through a
//! mathematical model, and the operations of that crate that the sprint
//! logic uses.

use vstd::prelude::*;
use crate::jira::sprint::JsonNumber;

verus! {

/// The content of a JSON value. Objects keep their entries in the order in
/// which the `json` crate iterates them (the order of first insertion).
pub enum JsonData {
    Null,
    Str(Seq<char>),
    Number(JsonNumber),
    NaN,
    Bool(bool),
    Array(Seq<JsonData>),
    Object(Seq<(Seq<char>, JsonData)>),
}

#[verifier::external_type_specification]
#[verifier::external_body]
pub struct ExJsonValue(json::JsonValue);

/// What a `json::JsonValue` holds.
pub uninterp spec fn json_data(v: json::JsonValue) -> JsonData;

/// What `json::parse` makes of a text: `None` where it reports an error.
pub uninterp spec fn parsed_json(text: Seq<char>) -> Option<JsonData>;

/// The text that `json::stringify_pretty` writes for a value.
pub uninterp spec fn pretty_json_text(data: JsonData, spaces: u16) -> Seq<char>;

/// The value stored under `key` in a list of object entries (the first
/// entry with that key), or `Null`.
pub open spec fn field_value(fields: Seq<(Seq<char>, JsonData)>, key: Seq<char>) -> JsonData
    decreases fields.len(),
{
    if fields.len() == 0 {
        JsonData::Null
    } else if fields[0].0 == key {
        fields[0].1
    } else {
        field_value(fields.drop_first(), key)
    }
}

/// `value[key]`: the member of an object, `Null` for anything else.
pub open spec fn data_get(d: JsonData, key: Seq<char>) -> JsonData {
    match d {
        JsonData::Object(fields) => field_value(fields, key),
        _ => JsonData::Null,
    }
}

/// `value[i]`: the element of an array, `Null` out of range or for anything
/// else.
pub open spec fn data_at(d: JsonData, i: int) -> JsonData {
    match d {
        JsonData::Array(items) => if 0 <= i < items.len() { items[i] } else { JsonData::Null },
        _ => JsonData::Null,
    }
}

/// `value.members()`: the elements of an array, nothing for anything else.
pub open spec fn members(d: JsonData) -> Seq<JsonData> {
    match d {
        JsonData::Array(items) => items,
        _ => Seq::empty(),
    }
}

/// `value.len()`: the number of elements or entries, 0 for scalars.
pub open spec fn data_len(d: JsonData) -> nat {
    match d {
        JsonData::Array(items) => items.len(),
        JsonData::Object(fields) => fields.len(),
        _ => 0,
    }
}

pub open spec fn data_as_str(d: JsonData) -> Option<Seq<char>> {
    match d {
        JsonData::Str(s) => Some(s),
        _ => None,
    }
}

pub open spec fn data_as_bool(d: JsonData) -> Option<bool> {
    match d {
        JsonData::Bool(b) => Some(b),
        _ => None,
    }
}

/// The parts of a number; a NaN has the parts of a negative zero.
pub open spec fn data_as_number(d: JsonData) -> Option<JsonNumber> {
    match d {
        JsonData::Number(n) => Some(n),
        JsonData::NaN => Some(JsonNumber { positive: false, mantissa: 0, exponent: 0 }),
        _ => None,
    }
}

/// A number that is a non-negative integer written without exponent.
pub open spec fn data_as_u64(d: JsonData) -> Option<u64> {
    match d {
        JsonData::Number(n) => if n.positive && n.exponent == 0 { Some(n.mantissa) } else { None },
        _ => None,
    }
}

pub open spec fn data_is_array(d: JsonData) -> bool {
    d is Array
}

pub open spec fn data_is_object(d: JsonData) -> bool {
    d is Object
}

pub open spec fn data_is_string(d: JsonData) -> bool {
    d is Str
}

/// `value.is_empty()`: null, "", 0, NaN, false, [] and {}.
pub open spec fn data_is_empty(d: JsonData) -> bool {
    match d {
        JsonData::Null => true,
        JsonData::Str(s) => s.len() == 0,
        JsonData::Number(n) => n.mantissa == 0,
        JsonData::NaN => true,
        JsonData::Bool(b) => !b,
        JsonData::Array(items) => items.len() == 0,
        JsonData::Object(fields) => fields.len() == 0,
    }
}

/// The entries after `object.insert(key, value)`: an existing entry for `key`
/// takes the new value in place, otherwise the entry goes last.
pub open spec fn insert_field(fields: Seq<(Seq<char>, JsonData)>, key: Seq<char>, value: JsonData) -> Seq<
    (Seq<char>, JsonData),
>
    decreases fields.len(),
{
    if fields.len() == 0 {
        seq![(key, value)]
    } else if fields[0].0 == key {
        fields.update(0, (key, value))
    } else {
        seq![fields[0]] + insert_field(fields.drop_first(), key, value)
    }
}

/// The number that `json::number::Number::from_parts` builds: trailing zeros
/// of the mantissa of a number with a negative exponent are dropped.
pub open spec fn normalized(n: JsonNumber) -> JsonNumber
    decreases (if n.exponent < 0 { -n.exponent } else { 0 }),
{
    if n.exponent < 0 && n.mantissa % 10 == 0 {
        normalized(JsonNumber { positive: n.positive, mantissa: n.mantissa / 10, exponent: (n.exponent + 1) as i16 })
    } else {
        n
    }
}

/// `json::parse`, with the error dropped.
#[verifier::external_body]
pub(crate) fn json_parse(text: &str) -> (r: Option<json::JsonValue>)
    ensures
        r is Some <==> parsed_json(text@) is Some,
        r matches Some(v) ==> parsed_json(text@) == Some(json_data(v)),
{
    json::parse(text).ok()
}

/// `json::stringify_pretty`: the document as text, indented by `spaces`.
#[verifier::external_body]
pub(crate) fn json_stringify_pretty(v: json::JsonValue, spaces: u16) -> (r: String)
    ensures
        r@ == pretty_json_text(json_data(v), spaces),
{
    json::stringify_pretty(v, spaces)
}

/// `value[key]` (`Index<&str>` of `JsonValue`).
#[verifier::external_body]
pub(crate) fn json_get<'a>(v: &'a json::JsonValue, key: &str) -> (r: &'a json::JsonValue)
    ensures
        json_data(*r) == data_get(json_data(*v), key@),
{
    &v[key]
}

/// `value[i]` (`Index<usize>` of `JsonValue`).
#[verifier::external_body]
pub(crate) fn json_at(v: &json::JsonValue, i: usize) -> (r: &json::JsonValue)
    ensures
        json_data(*r) == data_at(json_data(*v), i as int),
{
    &v[i]
}

/// `JsonValue::len`.
#[verifier::external_body]
pub(crate) fn json_len(v: &json::JsonValue) -> (r: usize)
    ensures
        r == data_len(json_data(*v)),
{
    v.len()
}

/// `JsonValue::is_array`.
#[verifier::external_body]
pub(crate) fn json_is_array(v: &json::JsonValue) -> (r: bool)
    ensures
        r == data_is_array(json_data(*v)),
{
    v.is_array()
}

/// `JsonValue::is_object`.
#[verifier::external_body]
pub(crate) fn json_is_object(v: &json::JsonValue) -> (r: bool)
    ensures
        r == data_is_object(json_data(*v)),
{
    v.is_object()
}

/// `JsonValue::is_string`.
#[verifier::external_body]
pub(crate) fn json_is_string(v: &json::JsonValue) -> (r: bool)
    ensures
        r == data_is_string(json_data(*v)),
{
    v.is_string()
}

/// `JsonValue::is_empty`.
#[verifier::external_body]
pub(crate) fn json_is_empty(v: &json::JsonValue) -> (r: bool)
    ensures
        r == data_is_empty(json_data(*v)),
{
    v.is_empty()
}

/// `JsonValue::as_str`.
#[verifier::external_body]
pub(crate) fn json_as_str(v: &json::JsonValue) -> (r: Option<&str>)
    ensures
        match r {
            Some(s) => data_as_str(json_data(*v)) == Some(s@),
            None => data_as_str(json_data(*v)) is None,
        },
{
    v.as_str()
}

/// `JsonValue::as_bool`.
#[verifier::external_body]
pub(crate) fn json_as_bool(v: &json::JsonValue) -> (r: Option<bool>)
    ensures
        r == data_as_bool(json_data(*v)),
{
    v.as_bool()
}

/// `JsonValue::as_u64`.
#[verifier::external_body]
pub(crate) fn json_as_u64(v: &json::JsonValue) -> (r: Option<u64>)
    ensures
        r == data_as_u64(json_data(*v)),
{
    v.as_u64()
}

/// `JsonValue::as_number`, taken apart by `Number::as_parts`.
#[verifier::external_body]
pub(crate) fn json_as_number(v: &json::JsonValue) -> (r: Option<JsonNumber>)
    ensures
        r == data_as_number(json_data(*v)),
{
    v.as_number().map(|n| {
        let (positive, mantissa, exponent) = n.as_parts();
        JsonNumber { positive, mantissa, exponent }
    })
}

/// `JsonValue::Null`.
#[verifier::external_body]
pub(crate) fn json_null() -> (r: json::JsonValue)
    ensures
        json_data(r) == JsonData::Null,
{
    json::JsonValue::Null
}

/// `JsonValue::from(&str)`.
#[verifier::external_body]
pub(crate) fn json_from_str(s: &str) -> (r: json::JsonValue)
    ensures
        json_data(r) == JsonData::Str(s@),
{
    json::JsonValue::from(s)
}

/// `JsonValue::Boolean`.
#[verifier::external_body]
pub(crate) fn json_from_bool(b: bool) -> (r: json::JsonValue)
    ensures
        json_data(r) == JsonData::Bool(b),
{
    json::JsonValue::Boolean(b)
}

/// `JsonValue::Number` of `Number::from_parts`.
#[verifier::external_body]
pub(crate) fn json_from_number(n: JsonNumber) -> (r: json::JsonValue)
    ensures
        json_data(r) == JsonData::Number(normalized(n)),
{
    json::JsonValue::Number(json::number::Number::from_parts(n.positive, n.mantissa, n.exponent))
}

/// `JsonValue::new_array`.
#[verifier::external_body]
pub(crate) fn json_new_array() -> (r: json::JsonValue)
    ensures
        json_data(r) == JsonData::Array(Seq::empty()),
{
    json::JsonValue::new_array()
}

/// `JsonValue::new_object`.
#[verifier::external_body]
pub(crate) fn json_new_object() -> (r: json::JsonValue)
    ensures
        json_data(r) == JsonData::Object(Seq::empty()),
{
    json::JsonValue::new_object()
}

/// `JsonValue::push`: appends to an array, leaves anything else as it was.
#[verifier::external_body]
pub(crate) fn json_push(v: &mut json::JsonValue, item: json::JsonValue)
    ensures
        json_data(*final(v)) == match json_data(*old(v)) {
            JsonData::Array(items) => JsonData::Array(items.push(json_data(item))),
            other => other,
        },
{
    let _ = v.push(item);
}

/// `JsonValue::insert`: sets an entry of an object, leaves anything else as
/// it was.
#[verifier::external_body]
pub(crate) fn json_insert(v: &mut json::JsonValue, key: &str, item: json::JsonValue)
    ensures
        json_data(*final(v)) == match json_data(*old(v)) {
            JsonData::Object(fields) => JsonData::Object(insert_field(fields, key@, json_data(item))),
            other => other,
        },
{
    let _ = v.insert(key, item);
}

} // verus!
