//! JSON documents that the gateway carries without looking inside: the
//! payload of a ping, the data of a dispatch.

use vstd::prelude::*;

verus! {

/// Declares `serde_json::Value`, a parsed JSON document, so that it can
/// stand in fields and signatures. Nothing is known of what a document
/// holds.
#[verifier::external_type_specification]
#[verifier::external_body]
pub struct ExValue(serde_json::Value);

/// A copy of a JSON document.
///
/// Trusted: calls `Clone::clone` of `serde_json::Value`. The impl is
/// derived, so the copy is the same document as the one it was made
/// from.
#[verifier::external_body]
pub(crate) fn clone_value(value: &serde_json::Value) -> (res: serde_json::Value)
    ensures
        res == *value,
{
    value.clone()
}

/// A copy of an optional JSON document.
pub(crate) fn clone_opt_value(value: &Option<serde_json::Value>) -> (res: Option<serde_json::Value>)
    ensures
        res == *value,
{
    match value {
        Some(v) => Some(clone_value(v)),
        None => None,
    }
}

} // verus!
