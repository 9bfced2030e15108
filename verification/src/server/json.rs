//! JSON objects, read and written by `serde_json`.

use serde_json::Value;
use vstd::prelude::*;

verus! {

/// `serde_json::Value`, any JSON value.
#[verifier::external_type_specification]
#[verifier::external_body]
pub struct ExJsonValue(Value);

/// `serde_json::Map`, the members of a JSON object.
#[verifier::external_type_specification]
#[verifier::external_body]
#[verifier::reject_recursive_types(K)]
#[verifier::reject_recursive_types(V)]
pub struct ExJsonMap<K, V>(serde_json::Map<K, V>);

/// `serde_json::Error`, which says why a text was not read or a value not written.
#[verifier::external_type_specification]
#[verifier::external_body]
pub struct ExJsonError(serde_json::Error);

/// The object that `serde_json::from_str` reads from a text, or `None` where it
/// returns an error: the text is not JSON, or the JSON is not an object.
pub uninterp spec fn json_object(text: Seq<char>) -> Option<serde_json::Map<String, Value>>;

/// The text that `serde_json::to_string` writes for an object, or `None` where
/// it returns an error.
pub uninterp spec fn json_text(object: serde_json::Map<String, Value>) -> Option<Seq<char>>;

/// Calls `serde_json::from_str` for an object. The contract gives the outcome
/// its name: the object on `Ok`, none on `Err`.
#[verifier::external_body]
pub(crate) fn read_object(text: &str) -> (read: Result<serde_json::Map<String, Value>, serde_json::Error>)
    ensures
        match read {
            Ok(object) => json_object(text@) == Some(object),
            Err(_) => json_object(text@) is None,
        },
{
    serde_json::from_str::<serde_json::Map<String, Value>>(text)
}

/// Calls `serde_json::to_string` on an object. The contract gives the outcome
/// its name: the text on `Ok`, none on `Err`.
#[verifier::external_body]
pub(crate) fn write_object(object: &serde_json::Map<String, Value>) -> (written: Result<
    String,
    serde_json::Error,
>)
    ensures
        match written {
            Ok(text) => json_text(*object) == Some(text@),
            Err(_) => json_text(*object) is None,
        },
{
    serde_json::to_string(object)
}

} // verus!
