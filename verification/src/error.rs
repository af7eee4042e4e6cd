//! What can go wrong on a connection.
use vstd::prelude::*;

verus! {

/// The error of `serde_json`, carried through unread.
#[verifier::external_type_specification]
#[verifier::external_body]
pub struct ExJsonError(serde_json::Error);

/// Why an operation on a connection failed. Each of these ends the
/// connection: nothing is retried and no frame is skipped.
#[derive(Debug)]
pub enum ConnectionError {
    /// The transport holds less than one whole frame; `missing` bytes more
    /// would complete it.
    ShortRead { missing: u64 },
    /// A value could not be written as JSON.
    Encode(serde_json::Error),
    /// A payload is not the JSON of the type that was expected.
    Decode(serde_json::Error),
}

} // verus!
