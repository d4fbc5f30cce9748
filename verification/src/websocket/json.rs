//! The JSON encoder the broker relies on, and what is taken on trust of it.

use vstd::prelude::*;

verus! {

/// `serde_json::Value`, carried through as an opaque value.
#[verifier::external_type_specification]
#[verifier::external_body]
pub struct ExValue(serde_json::Value);

/// Why a value could not be serialised: the encoder's own description.
#[derive(Debug)]
pub struct SerializeError {
    pub message: String,
}

/// The JSON string value that `serde_json::Value::from` makes of the string
/// `s`.
pub uninterp spec fn string_value(s: Seq<char>) -> serde_json::Value;

/// The compact JSON text that `serde_json::to_string` produces for `value`,
/// or `None` where it reports an error.
pub uninterp spec fn json_of_value(value: serde_json::Value) -> Option<Seq<char>>;

/// Calls `serde_json::Value::from` on a string slice, which makes the JSON
/// string value holding the same characters. Trusted: the result is a
/// function of the characters of `s` alone, named [`string_value`].
#[verifier::external_body]
pub(crate) fn value_of_str(s: &str) -> (value: serde_json::Value)
    ensures
        value == string_value(s@),
{
    serde_json::Value::from(s)
}

/// Calls `serde_json::to_string` on a JSON value. Trusted: the outcome is a
/// function of `value` alone, named [`json_of_value`]. Nothing is claimed
/// about what the text looks like or about when the call succeeds. An error
/// comes back as its description.
#[verifier::external_body]
pub(crate) fn value_to_json(value: &serde_json::Value) -> (r: Result<String, SerializeError>)
    ensures
        match r {
            Ok(text) => json_of_value(*value) == Some(text@),
            Err(_) => json_of_value(*value) is None,
        },
{
    match serde_json::to_string(value) {
        Ok(text) => Ok(text),
        Err(error) => Err(SerializeError { message: error.to_string() }),
    }
}

} // verus!
