//! JSON documents as `serde_json` holds them, and the few questions the
//! library asks of one.
//!
//! A `serde_json::Value` is opaque to the verifier. Its content is named by
//! [`json_of`], and each accessor below says over that name what the
//! `serde_json` method it calls returns. The accessors' contracts are taken
//! on trust: they are the boundary on which the proofs of the other modules
//! rest.

use serde_json::Value;
use vstd::prelude::*;

verus! {

/// A JSON number: an integer, or a finite binary64 given by its bit pattern.
pub enum JsonNumber {
    Int(int),
    Float(u64),
}

/// The mathematical content of a JSON document.
pub enum Json {
    Null,
    Bool(bool),
    Number(JsonNumber),
    Text(Seq<char>),
    Array(Seq<Json>),
    Object(Map<Seq<char>, Json>),
}

#[verifier::external_type_specification]
#[verifier::external_body]
pub struct ExValue(Value);

#[verifier::external_type_specification]
#[verifier::external_body]
pub struct ExJsonError(serde_json::Error);

/// The document that a `serde_json::Value` holds.
pub uninterp spec fn json_of(v: Value) -> Json;

/// The text that `serde_json` writes for a number that is no integer, given
/// by its bit pattern.
pub uninterp spec fn float_display(bits: u64) -> Seq<char>;

/// The character of a decimal digit.
pub open spec fn digit(d: int) -> char {
    if d == 0 {
        '0'
    } else if d == 1 {
        '1'
    } else if d == 2 {
        '2'
    } else if d == 3 {
        '3'
    } else if d == 4 {
        '4'
    } else if d == 5 {
        '5'
    } else if d == 6 {
        '6'
    } else if d == 7 {
        '7'
    } else if d == 8 {
        '8'
    } else {
        '9'
    }
}

/// A natural number in decimal digits, without leading zeros.
pub open spec fn decimal(n: nat) -> Seq<char>
    decreases n,
{
    if n < 10 {
        seq![digit(n as int)]
    } else {
        decimal(n / 10).push(digit((n % 10) as int))
    }
}

/// An integer in decimal digits, with a minus sign before a negative one.
pub open spec fn integer_display(i: int) -> Seq<char> {
    if i < 0 {
        seq!['-'] + decimal((-i) as nat)
    } else {
        decimal(i as nat)
    }
}

/// The text of a number: an integer in decimal digits, and any other number
/// as `serde_json` writes it.
pub open spec fn number_display(n: JsonNumber) -> Seq<char> {
    match n {
        JsonNumber::Int(i) => integer_display(i),
        JsonNumber::Float(bits) => float_display(bits),
    }
}

/// The document that `serde_json` reads from a sequence of bytes, if it reads
/// one.
pub uninterp spec fn json_from_bytes(bytes: Seq<u8>) -> Option<Json>;

/// `Value::get` with a string key: the member of that name where the value is
/// an object that has one, and `None` for every other value.
#[verifier::external_body]
pub(crate) fn member<'a>(v: &'a Value, key: &str) -> (out: Option<&'a Value>)
    ensures
        match json_of(*v) {
            Json::Object(m) => if m.dom().contains(key@) {
                out.is_some() && json_of(*out.unwrap()) == m[key@]
            } else {
                out.is_none()
            },
            _ => out.is_none(),
        },
{
    v.get(key)
}

/// `Value::as_str`: the text of a string value, `None` for every other value.
#[verifier::external_body]
pub(crate) fn text_of<'a>(v: &'a Value) -> (out: Option<&'a str>)
    ensures
        match json_of(*v) {
            Json::Text(s) => out.is_some() && out.unwrap()@ == s,
            _ => out.is_none(),
        },
{
    v.as_str()
}

/// `Value::is_null`: whether the value is null.
#[verifier::external_body]
pub(crate) fn is_null(v: &Value) -> (out: bool)
    ensures
        out == (json_of(*v) is Null),
{
    v.is_null()
}

/// `Value::is_object`: whether the value is an object.
#[verifier::external_body]
pub(crate) fn is_object(v: &Value) -> (out: bool)
    ensures
        out == (json_of(*v) is Object),
{
    v.is_object()
}

/// `Value::is_number`: whether the value is a number.
#[verifier::external_body]
pub(crate) fn is_number(v: &Value) -> (out: bool)
    ensures
        out == (json_of(*v) is Number),
{
    v.is_number()
}

/// `Value::as_i64`: the integer of a number that holds one within the range
/// of `i64`, `None` for every other value.
#[verifier::external_body]
pub(crate) fn integer_of(v: &Value) -> (out: Option<i64>)
    ensures
        match json_of(*v) {
            Json::Number(JsonNumber::Int(i)) => if i64::MIN <= i <= i64::MAX {
                out == Some(i as i64)
            } else {
                out.is_none()
            },
            _ => out.is_none(),
        },
{
    v.as_i64()
}

/// `Value::as_array`: the elements of an array, in order, `None` for every
/// other value.
#[verifier::external_body]
pub(crate) fn elements_of<'a>(v: &'a Value) -> (out: Option<&'a Vec<Value>>)
    ensures
        match json_of(*v) {
            Json::Array(items) => out.is_some() && out.unwrap()@.len() == items.len()
                && forall|i: int|
                0 <= i < items.len() ==> json_of(#[trigger] out.unwrap()@[i]) == items[i],
            _ => out.is_none(),
        },
{
    v.as_array()
}

/// `Value::to_string`, the compact text of a value. For a number it is the
/// number as `serde_json` writes it: an integer in decimal digits, with a
/// minus sign where it is negative, and any other number as the text named
/// by [`float_display`]. The text of a number has at least one character.
/// Of other values nothing is claimed.
#[verifier::external_body]
pub(crate) fn display(v: &Value) -> (out: String)
    ensures
        json_of(*v) matches Json::Number(JsonNumber::Int(i)) ==> out@ == integer_display(i),
        json_of(*v) matches Json::Number(JsonNumber::Float(bits)) ==> out@ == float_display(bits),
        json_of(*v) is Number ==> out@.len() > 0,
{
    v.to_string()
}

/// `Value::clone`: a value that holds the same document.
#[verifier::external_body]
pub(crate) fn duplicate(v: &Value) -> (out: Value)
    ensures
        json_of(out) == json_of(*v),
{
    v.clone()
}

/// `serde_json::from_slice` into a `Value`: the document named by
/// [`json_from_bytes`], or the parser's error where there is none.
#[verifier::external_body]
pub(crate) fn parse(bytes: &[u8]) -> (out: Result<Value, serde_json::Error>)
    ensures
        match out {
            Ok(v) => json_from_bytes(bytes@) == Some(json_of(v)),
            Err(_) => json_from_bytes(bytes@).is_none(),
        },
{
    serde_json::from_slice(bytes)
}

} // verus!
