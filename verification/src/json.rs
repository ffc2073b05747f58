//! JSON documents as `serde_json` reads them, seen through a model of
//! plain values.

use vstd::prelude::*;

use crate::text::{parse_u64, parse_u64_spec, IntErrorKind};

verus! {

#[verifier::external_type_specification]
#[verifier::external_body]
pub struct ExJsonValue(serde_json::Value);

#[verifier::external_type_specification]
#[verifier::external_body]
pub struct ExJsonError(serde_json::Error);

/// A JSON number as `serde_json` stores it: a non-negative integer, a
/// negative integer, or a floating-point number (whose value the logic
/// never reads).
pub enum JsonNumber {
    PosInt(u64),
    NegInt(i64),
    Float,
}

/// A JSON value as plain data.
pub enum JsonModel {
    Null,
    Bool(bool),
    Number(JsonNumber),
    Str(Seq<char>),
    Array(Seq<JsonModel>),
    Object(Map<Seq<char>, JsonModel>),
}

/// What a `serde_json::Value` holds.
pub uninterp spec fn json_content(v: serde_json::Value) -> JsonModel;

/// The JSON document that `serde_json::from_slice` reads from `bytes`, or
/// `None` where it reports an error.
pub uninterp spec fn json_document(bytes: Seq<u8>) -> Option<JsonModel>;

/// The member `key` of an object, as `serde_json::Value::get` with a string
/// index finds it; anything but an object has no members.
pub open spec fn json_member(m: JsonModel, key: Seq<char>) -> Option<JsonModel> {
    match m {
        JsonModel::Object(fields) => if fields.dom().contains(key) {
            Some(fields[key])
        } else {
            None
        },
        _ => None,
    }
}

/// The string that a value holds, as `serde_json::Value::as_str` gives it.
pub open spec fn json_str(m: JsonModel) -> Option<Seq<char>> {
    match m {
        JsonModel::Str(s) => Some(s),
        _ => None,
    }
}

/// A number as an `i64`, as `serde_json::Value::as_i64` gives it.
pub open spec fn json_i64(m: JsonModel) -> Option<i64> {
    match m {
        JsonModel::Number(JsonNumber::PosInt(n)) => if n <= i64::MAX {
            Some(n as i64)
        } else {
            None
        },
        JsonModel::Number(JsonNumber::NegInt(n)) => Some(n),
        _ => None,
    }
}

/// A number as a `u64`, as `serde_json::Value::as_u64` gives it.
pub open spec fn json_u64(m: JsonModel) -> Option<u64> {
    match m {
        JsonModel::Number(JsonNumber::PosInt(n)) => Some(n),
        _ => None,
    }
}

/// Reads a JSON document from bytes.
///
/// Trusted: `serde_json::from_slice::<serde_json::Value>`. What it reads
/// is left to the name `json_document`; the contract ties the value it
/// returns to that name, and its error to the name being `None`.
#[verifier::external_body]
pub(crate) fn json_from_slice(bytes: &[u8]) -> (r: Result<serde_json::Value, serde_json::Error>)
    ensures
        match r {
            Ok(v) => json_document(bytes@) == Some(json_content(v)),
            Err(_) => json_document(bytes@) is None,
        },
{
    serde_json::from_slice(bytes)
}

/// Trusted: `serde_json::Value::get` with a string index, which gives the
/// member of that name of an object, and `None` for a missing member or a
/// value that is not an object.
#[verifier::external_body]
pub(crate) fn json_get<'a>(v: &'a serde_json::Value, key: &str) -> (r: Option<&'a serde_json::Value>)
    ensures
        match r {
            Some(f) => json_member(json_content(*v), key@) == Some(json_content(*f)),
            None => json_member(json_content(*v), key@) is None,
        },
{
    v.get(key)
}

/// Trusted: `serde_json::Value::as_str`, which gives the string of a string
/// value and `None` for any other value.
#[verifier::external_body]
pub(crate) fn json_as_str(v: &serde_json::Value) -> (r: Option<&str>)
    ensures
        match r {
            Some(s) => json_str(json_content(*v)) == Some(s@),
            None => json_str(json_content(*v)) is None,
        },
{
    v.as_str()
}

/// Trusted: `serde_json::Value::as_i64`, which gives a number that fits in
/// an `i64` and `None` otherwise.
#[verifier::external_body]
pub(crate) fn json_as_i64(v: &serde_json::Value) -> (r: Option<i64>)
    ensures
        r == json_i64(json_content(*v)),
{
    v.as_i64()
}

/// Trusted: `serde_json::Value::as_u64`, which gives a non-negative integer
/// and `None` otherwise.
#[verifier::external_body]
pub(crate) fn json_as_u64(v: &serde_json::Value) -> (r: Option<u64>)
    ensures
        r == json_u64(json_content(*v)),
{
    v.as_u64()
}

/// Trusted: `serde_json::Value::is_number`.
#[verifier::external_body]
pub(crate) fn json_is_number(v: &serde_json::Value) -> (r: bool)
    ensures
        r == (json_content(*v) is Number),
{
    v.is_number()
}

/// Why a device-code polling interval is refused.
#[derive(Debug, Clone, Copy, PartialEq, Eq)]
pub enum IntervalError {
    /// A string that is not a decimal `u64`.
    Parse(IntErrorKind),
    /// A number that is not a `u64`, or a value that is neither a string
    /// nor a number.
    Invalid,
}

/// The polling interval that a device-code response gives: a string is
/// read as a decimal `u64`, a number must be a `u64`, and anything else is
/// refused.
pub open spec fn interval_spec(m: JsonModel) -> Result<u64, IntervalError> {
    match m {
        JsonModel::Str(s) => match parse_u64_spec(s) {
            Ok(n) => Ok(n),
            Err(k) => Err(IntervalError::Parse(k)),
        },
        JsonModel::Number(JsonNumber::PosInt(n)) => Ok(n),
        _ => Err(IntervalError::Invalid),
    }
}

/// Reads the `interval` field of a device-code response.
pub fn interval_from_json(v: &serde_json::Value) -> (r: Result<u64, IntervalError>)
    ensures
        r == interval_spec(json_content(*v)),
{
    match json_as_str(v) {
        Some(s) => match parse_u64(s) {
            Ok(n) => Ok(n),
            Err(k) => Err(IntervalError::Parse(k)),
        },
        None => {
            if json_is_number(v) {
                match json_as_u64(v) {
                    Some(n) => Ok(n),
                    None => Err(IntervalError::Invalid),
                }
            } else {
                Err(IntervalError::Invalid)
            }
        },
    }
}

} // verus!
