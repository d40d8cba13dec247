use vstd::prelude::*;

use crate::error::Error;

verus! {

// Access to JSON documents through serde_json. A parsed document is opaque
// to the verifier, so its content is given a mathematical shape that the
// accessor contracts speak of.

/// The mathematical shape of a JSON document: object fields, array items and
/// leaf values. A number representable as a signed 64-bit integer is kept
/// exactly; any other number is kept only as the fact that it is a number.
pub enum JsonValueModel {
    Null,
    Bool(bool),
    Int(i64),
    OtherNum,
    Text(Seq<char>),
    Arr(Seq<JsonValueModel>),
    Obj(Map<Seq<char>, JsonValueModel>),
}

#[verifier::external_type_specification]
#[verifier::external_body]
pub struct ExJsonValue(serde_json::Value);

/// The document a JSON text parses to, or `None` for malformed text.
pub uninterp spec fn json_parsed(text: Seq<char>) -> Option<JsonValueModel>;

/// The shape of a parsed JSON value.
pub uninterp spec fn json_model(v: serde_json::Value) -> JsonValueModel;

/// Relies on serde_json::from_str::<Value>: whether the text parses, and
/// what it parses to, are functions of the text alone.
#[verifier::external_body]
pub(crate) fn json_parse(text: &str) -> (r: Result<serde_json::Value, Error>)
    ensures
        r is Ok <==> json_parsed(text@) is Some,
        r is Ok ==> json_model(r->Ok_0) == json_parsed(text@)->0,
        r is Err ==> r->Err_0 is Json,
{
    match serde_json::from_str::<serde_json::Value>(text) {
        Ok(v) => Ok(v),
        Err(e) => Err(Error::Json(e.to_string())),
    }
}

/// Relies on Value::get with a string index: `Some` exactly for a present
/// key of an object, returning that key's value.
#[verifier::external_body]
pub(crate) fn json_get<'a>(v: &'a serde_json::Value, key: &str) -> (r: Option<
    &'a serde_json::Value,
>)
    ensures
        r is Some <==> (json_model(*v) matches JsonValueModel::Obj(m) && m.contains_key(key@)),
        r is Some ==> (json_model(*v) matches JsonValueModel::Obj(m) && json_model(*r->0)
            == m[key@]),
{
    v.get(key)
}

/// Relies on Value::as_str: `Some` exactly for a JSON string, with its text.
#[verifier::external_body]
pub(crate) fn json_as_str<'a>(v: &'a serde_json::Value) -> (r: Option<&'a str>)
    ensures
        r is Some <==> json_model(*v) is Text,
        r is Some ==> r->0@ == json_model(*v)->Text_0,
{
    v.as_str()
}

/// Relies on Value::as_i64: `Some` exactly for a JSON number stored as an
/// integer that fits a signed 64-bit value, with that value. A number
/// written with a decimal point or an exponent is kept as a float and is
/// never `Some` here.
#[verifier::external_body]
pub(crate) fn json_as_i64(v: &serde_json::Value) -> (r: Option<i64>)
    ensures
        r is Some <==> json_model(*v) is Int,
        r is Some ==> r->0 == json_model(*v)->Int_0,
{
    v.as_i64()
}

/// Relies on Value::is_null: true exactly for JSON null.
#[verifier::external_body]
pub(crate) fn json_is_null(v: &serde_json::Value) -> (r: bool)
    ensures
        r == (json_model(*v) is Null),
{
    v.is_null()
}

/// Relies on Value::as_array: `Some` exactly for a JSON array, with its
/// items in order.
#[verifier::external_body]
pub(crate) fn json_as_array<'a>(v: &'a serde_json::Value) -> (r: Option<&'a Vec<serde_json::Value>>)
    ensures
        r is Some <==> json_model(*v) is Arr,
        r is Some ==> r->0@.len() == json_model(*v)->Arr_0.len() && (forall|i: int|
            0 <= i < r->0@.len() ==> json_model(#[trigger] r->0@[i]) == json_model(*v)->Arr_0[i]),
{
    v.as_array()
}

} // verus!
