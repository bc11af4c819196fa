//! Structured decoding of an output buffer.
//!
//! The JSON query helper asks the child for machine-readable output and
//! parses the resulting bytes as one generic structured value.  The
//! parse itself is the JSON library's; this module pins down when it
//! succeeds and that its result depends on the bytes alone.

use vstd::prelude::*;

verus! {

#[verifier::external_type_specification]
#[verifier::external_body]
/// A generic structured (JSON) value, held opaquely.
pub struct ExValue(serde_json::Value);

#[verifier::external_type_specification]
#[verifier::external_body]
/// The JSON library's parse error, held opaquely.
pub struct ExJsonError(serde_json::Error);

/// Whether `bytes` is one well-formed JSON document — exactly the inputs
/// on which the JSON library's slice parse succeeds.
pub uninterp spec fn json_parses(bytes: Seq<u8>) -> bool;

/// The structured value that parsing `bytes` yields, when it parses.
pub uninterp spec fn json_value_of(bytes: Seq<u8>) -> serde_json::Value;

/// Structured decoding failed: the output bytes are not well-formed JSON.
#[derive(Clone, Copy, Debug, PartialEq, Eq, Structural)]
pub enum JsonError {
    /// The buffer is not one well-formed JSON document.
    Malformed,
}

/// Relies on `serde_json::from_slice::<serde_json::Value>`: it returns
/// `Ok` exactly on well-formed JSON documents, and its result is a
/// function of the input bytes alone.
#[verifier::external_body]
fn from_slice_value(bytes: &[u8]) -> (r: Result<serde_json::Value, serde_json::Error>)
    ensures
        (r is Ok) == json_parses(bytes@),
        r matches Ok(v) ==> v == json_value_of(bytes@),
{
    serde_json::from_slice(bytes)
}

/// Parse one output buffer as a generic structured value.  Succeeds on
/// exactly the well-formed JSON documents, with the value parsing yields;
/// any other buffer is reported malformed.
pub fn parse_json(bytes: &Vec<u8>) -> (r: Result<serde_json::Value, JsonError>)
    ensures
        (r is Ok) == json_parses(bytes@),
        r matches Ok(v) ==> v == json_value_of(bytes@),
        r matches Err(e) ==> e == JsonError::Malformed && !json_parses(bytes@),
{
    match from_slice_value(bytes.as_slice()) {
        Ok(v) => Ok(v),
        Err(_) => Err(JsonError::Malformed),
    }
}

} // verus!
