//! Channel names as JSON text. The encoding itself is `serde_json`'s; this
//! module gives it names that contracts can speak of.
use vstd::prelude::*;

verus! {

/// The JSON text that `serde_json` writes for a string, if it writes one.
pub uninterp spec fn json_of_text(text: Seq<char>) -> Option<Seq<u8>>;

/// The string that `serde_json` reads from a JSON text, if it reads one.
pub uninterp spec fn text_of_json(bytes: Seq<u8>) -> Option<Seq<char>>;

/// Calls `serde_json::to_vec` on a string. Nothing is proved of it: the
/// contract only names what comes back, the bytes of `json_of_text`, or an
/// error where there are none.
#[verifier::external_body]
pub(crate) fn encode_name(name: &&str) -> (r: Result<Vec<u8>, serde_json::Error>)
    ensures
        match r {
            Ok(bytes) => json_of_text(name@) == Some(bytes@),
            Err(_) => json_of_text(name@) is None,
        },
{
    serde_json::to_vec(name)
}

/// Calls `serde_json::from_reader` for a `String` on a byte slice. Nothing
/// is proved of it: the contract only names what comes back, the string of
/// `text_of_json`, or an error where there is none.
#[verifier::external_body]
pub(crate) fn decode_name(bytes: &[u8]) -> (r: Result<String, serde_json::Error>)
    ensures
        match r {
            Ok(name) => text_of_json(bytes@) == Some(name@),
            Err(_) => text_of_json(bytes@) is None,
        },
{
    serde_json::from_reader(bytes)
}

} // verus!
