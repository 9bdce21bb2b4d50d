//! JSON encoding of string values, delegated to serde_json.

use vstd::prelude::*;

verus! {

/// The JSON string literal (quotes and escapes included) that encodes the
/// character sequence `s`. The encoding is performed by serde_json and is
/// a function of the characters alone.
pub uninterp spec fn json_string_of(s: Seq<char>) -> Seq<char>;

/// Relies on serde_json::to_string for a `String` value: the result is the
/// JSON string literal encoding the characters and depends on them alone.
/// For a string the serializer writes into a growing buffer with a fixed
/// escape table and cannot fail or panic.
#[verifier::external_body]
pub(crate) fn to_json_string(s: &String) -> (r: String)
    ensures
        r@ == json_string_of(s@),
{
    serde_json::to_string(s).expect("string serialization is infallible")
}

} // verus!
