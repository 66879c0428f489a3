//! JSON values, built with `serde_json`. A value is opaque here: it is made
//! and handed on. What each maker returns has a name, so that a contract can
//! say which value was built without saying what is inside it.

use vstd::prelude::*;

verus! {

/// `serde_json::Value`, any JSON value.
#[verifier::external_type_specification]
#[verifier::external_body]
pub struct ExJsonValue(serde_json::Value);

/// `serde_json::Error`, what an encoder of `serde_json` fails with.
#[verifier::external_type_specification]
#[verifier::external_body]
pub struct ExJsonError(serde_json::Error);

/// The JSON string of a text.
pub uninterp spec fn json_string_of(text: Seq<char>) -> serde_json::Value;

/// The JSON number of a natural number.
pub uninterp spec fn json_number_of(n: int) -> serde_json::Value;

/// The JSON object of two members, the first put in first.
pub uninterp spec fn json_object_of(
    first: Seq<char>,
    first_value: serde_json::Value,
    second: Seq<char>,
    second_value: serde_json::Value,
) -> serde_json::Value;

/// The JSON array of the items in their order.
pub uninterp spec fn json_array_of(items: Seq<serde_json::Value>) -> serde_json::Value;

/// What `serde_json::to_value` makes of a value, `None` where it fails.
pub uninterp spec fn to_value_of(value: serde_json::Value) -> Option<serde_json::Value>;

/// Makes a `serde_json::Value::String` of a copy of the text. Trusted: the
/// value depends on the text alone.
#[verifier::external_body]
pub(crate) fn json_string(text: &String) -> (r: serde_json::Value)
    ensures
        r == json_string_of(text@),
{
    serde_json::Value::String(text.clone())
}

/// Makes a `serde_json::Value::Number` with `serde_json::Number::from`.
/// Trusted: the value depends on the number alone.
#[verifier::external_body]
pub(crate) fn json_number(n: u64) -> (r: serde_json::Value)
    ensures
        r == json_number_of(n as int),
{
    serde_json::Value::Number(serde_json::Number::from(n))
}

/// Makes a `serde_json::Value::Object` of two members with
/// `serde_json::Map::insert`. Trusted: the value depends on the two names and
/// the two values alone.
#[verifier::external_body]
pub(crate) fn json_object(
    first: &str,
    first_value: serde_json::Value,
    second: &str,
    second_value: serde_json::Value,
) -> (r: serde_json::Value)
    ensures
        r == json_object_of(first@, first_value, second@, second_value),
{
    let mut members = serde_json::Map::new();
    members.insert(first.to_owned(), first_value);
    members.insert(second.to_owned(), second_value);
    serde_json::Value::Object(members)
}

/// Makes a `serde_json::Value::Array` of the items. Trusted: the value
/// depends on the items and their order alone.
#[verifier::external_body]
pub(crate) fn json_array(items: Vec<serde_json::Value>) -> (r: serde_json::Value)
    ensures
        r == json_array_of(items@),
{
    serde_json::Value::Array(items)
}

/// Calls `serde_json::to_value`. Trusted: whether it succeeds, and with what,
/// depends on the value alone; nothing is promised of either.
#[verifier::external_body]
pub(crate) fn json_to_value(value: serde_json::Value) -> (r: Result<
    serde_json::Value,
    serde_json::Error,
>)
    ensures
        r matches Ok(made) ==> to_value_of(value) == Some(made),
        r is Err ==> to_value_of(value) is None,
{
    serde_json::to_value(value)
}

/// Calls `to_string` on a `serde_json::Error`.
#[verifier::external_body]
pub(crate) fn json_error_message(error: &serde_json::Error) -> (r: String) {
    error.to_string()
}

} // verus!
