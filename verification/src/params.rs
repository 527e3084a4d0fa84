//! Typed reads from a JSON parameter bag, each with a default.
//!
//! A lookup never fails: a missing key, a value of another type or a bag
//! that is no object all give the default.

use vstd::prelude::*;

verus! {

/// A JSON value, as `serde_json` holds it.
#[verifier::external_type_specification]
#[verifier::external_body]
pub struct ExJsonValue(serde_json::Value);

/// What a parameter bag holds under one key, as far as the typed reads can
/// tell values apart.
pub enum Scalar {
    /// A number stored as a non-negative integer.
    Unsigned(u64),
    /// A boolean.
    Flag(bool),
    /// A string.
    Text(Seq<char>),
    /// Anything else: null, a negative or fractional number, an array or an
    /// object.
    Other,
}

/// The members of a JSON object by key. A value that is no object has none.
pub uninterp spec fn json_fields(value: serde_json::Value) -> Map<Seq<char>, Scalar>;

/// Whether a JSON value is an object.
pub uninterp spec fn json_is_object(value: serde_json::Value) -> bool;

/// `Clone::clone` of `serde_json::Value`: the copy holds the same members.
pub assume_specification[ <serde_json::Value as Clone>::clone ](value: &serde_json::Value) -> (r:
    serde_json::Value)
    ensures
        json_fields(r) == json_fields(*value),
        json_is_object(r) == json_is_object(*value),
;

/// The members of an object that has none.
pub open spec fn no_fields() -> Map<Seq<char>, Scalar> {
    Map::empty()
}

/// The non-negative integer that the bag holds under `name`, if any.
pub open spec fn unsigned_at(params: serde_json::Value, name: Seq<char>) -> Option<u64> {
    if json_fields(params).contains_key(name) {
        match json_fields(params)[name] {
            Scalar::Unsigned(n) => Some(n),
            _ => None,
        }
    } else {
        None
    }
}

/// The boolean that the bag holds under `name`, if any.
pub open spec fn flag_at(params: serde_json::Value, name: Seq<char>) -> Option<bool> {
    if json_fields(params).contains_key(name) {
        match json_fields(params)[name] {
            Scalar::Flag(b) => Some(b),
            _ => None,
        }
    } else {
        None
    }
}

/// The string that the bag holds under `name`, if any.
pub open spec fn text_at(params: serde_json::Value, name: Seq<char>) -> Option<Seq<char>> {
    if json_fields(params).contains_key(name) {
        match json_fields(params)[name] {
            Scalar::Text(s) => Some(s),
            _ => None,
        }
    } else {
        None
    }
}

/// `serde_json::Value::get` with a string key, then `Value::as_u64`: the
/// member under `name` if the value is an object that has one and the
/// member is a number stored as a non-negative integer.
#[verifier::external_body]
fn lookup_u64(params: &serde_json::Value, name: &str) -> (r: Option<u64>)
    ensures
        r == unsigned_at(*params, name@),
{
    params.get(name).and_then(serde_json::Value::as_u64)
}

/// `serde_json::Value::get` with a string key, then `Value::as_bool`: the
/// member under `name` if the value is an object that has one and the
/// member is a boolean.
#[verifier::external_body]
fn lookup_bool(params: &serde_json::Value, name: &str) -> (r: Option<bool>)
    ensures
        r == flag_at(*params, name@),
{
    params.get(name).and_then(serde_json::Value::as_bool)
}

/// `serde_json::Value::get` with a string key, then `Value::as_str`: the
/// member under `name` if the value is an object that has one and the
/// member is a string.
#[verifier::external_body]
fn lookup_str<'a>(params: &'a serde_json::Value, name: &str) -> (r: Option<&'a str>)
    ensures
        r is Some <==> text_at(*params, name@) is Some,
        r is Some ==> r->0@ == text_at(*params, name@)->0,
{
    params.get(name).and_then(serde_json::Value::as_str)
}

/// `serde_json::Value::Object` of `serde_json::Map::new`: an object without
/// members.
#[verifier::external_body]
pub(crate) fn empty_object() -> (r: serde_json::Value)
    ensures
        json_is_object(r),
        json_fields(r) == no_fields(),
{
    serde_json::Value::Object(serde_json::Map::new())
}

/// Reads a `usize` from `params[name]`; `default` if the key is missing or
/// the value is no non-negative integer. A number beyond the machine word
/// is cut to it.
pub fn param_usize(params: &serde_json::Value, name: &str, default: usize) -> (r: usize)
    ensures
        r == match unsigned_at(*params, name@) {
            Some(n) => n as usize,
            None => default,
        },
{
    match lookup_u64(params, name) {
        Some(n) => {
            #[verifier::truncate]
            let cut: usize = n as usize;
            cut
        },
        None => default,
    }
}

/// Reads a `bool` from `params[name]`; `default` if the key is missing or
/// the value is no boolean.
pub fn param_bool(params: &serde_json::Value, name: &str, default: bool) -> (r: bool)
    ensures
        r == match flag_at(*params, name@) {
            Some(b) => b,
            None => default,
        },
{
    match lookup_bool(params, name) {
        Some(b) => b,
        None => default,
    }
}

/// Reads a `String` from `params[name]`; `default` if the key is missing
/// or the value is no string.
pub fn param_string(params: &serde_json::Value, name: &str, default: &str) -> (r: String)
    ensures
        r@ == match text_at(*params, name@) {
            Some(s) => s,
            None => default@,
        },
{
    match lookup_str(params, name) {
        Some(s) => s.to_owned(),
        None => default.to_owned(),
    }
}

} // verus!
