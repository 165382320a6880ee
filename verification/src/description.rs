//! The free-form description that a language carries.

use vstd::prelude::*;

verus! {

/// A JSON document. The library carries it and never looks inside.
#[verifier::external_type_specification]
#[verifier::external_body]
pub struct ExJsonValue(serde_json::Value);

/// Calls `<serde_json::Value as Clone>::clone`, which builds a document with
/// the same content as the one it is given. The contract claims that the copy
/// is the same value as the one it was made from.
#[verifier::external_body]
pub(crate) fn clone_json(value: &serde_json::Value) -> (copy: serde_json::Value)
    ensures
        copy == *value,
{
    value.clone()
}

/// A copy of an optional description.
pub fn clone_description(description: &Option<serde_json::Value>) -> (copy: Option<
    serde_json::Value,
>)
    ensures
        copy == *description,
{
    match description {
        Some(value) => Some(clone_json(value)),
        None => None,
    }
}

} // verus!
