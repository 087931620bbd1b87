//! Text forms in which pictures cross the boundary to the host: bytes as
//! standard base64 text, a list of such texts as a JSON array of strings.
//! Both forms are the work of the `base64` and `serde_json` crates.

use base64::Engine;
use vstd::prelude::*;

verus! {

/// The error type of the `base64` decoder, carried through as an opaque value.
#[verifier::external_type_specification]
#[verifier::external_body]
pub struct ExDecodeError(base64::DecodeError);

/// The error type of `serde_json`, carried through as an opaque value.
#[verifier::external_type_specification]
#[verifier::external_body]
pub struct ExJsonError(serde_json::Error);

/// The bytes that the text stands for in standard base64 with padding;
/// `None` where the text is not such base64.
pub uninterp spec fn base64_decoded(text: Seq<char>) -> Option<Seq<u8>>;

/// The standard base64 text, with padding, that stands for the bytes.
pub uninterp spec fn base64_encoded(bytes: Seq<u8>) -> Seq<char>;

/// The strings of the JSON array that the text holds; `None` where the
/// text is not a JSON array of strings.
pub uninterp spec fn json_string_list(text: Seq<char>) -> Option<Seq<Seq<char>>>;

/// The bytes are few enough for their base64 text to have a length.
pub open spec fn base64_encodable(len: nat) -> bool {
    len / 3 * 4 + 4 <= usize::MAX
}

/// Calls `Engine::decode` of `base64::engine::general_purpose::STANDARD`.
/// Not proved: that the outcome is `base64_decoded` of the text, which
/// only says that equal texts decode equally.
#[verifier::external_body]
pub(crate) fn base64_decode(text: &str) -> (r: Result<Vec<u8>, base64::DecodeError>)
    ensures
        match r {
            Ok(bytes) => base64_decoded(text@) == Some(bytes@),
            Err(_) => base64_decoded(text@) is None,
        },
{
    base64::engine::general_purpose::STANDARD.decode(text)
}

/// Calls `Engine::encode` of `base64::engine::general_purpose::STANDARD`,
/// which panics where the length of the text overflows; the precondition
/// leaves those inputs out. Not proved: that the text is `base64_encoded`
/// of the bytes, which only says that equal bytes encode equally.
#[verifier::external_body]
pub(crate) fn base64_encode(bytes: &[u8]) -> (text: String)
    requires
        base64_encodable(bytes@.len()),
    ensures
        text@ == base64_encoded(bytes@),
{
    base64::engine::general_purpose::STANDARD.encode(bytes)
}

/// Calls `serde_json::from_str` for a `Vec<String>`. Not proved: that the
/// outcome is `json_string_list` of the text, which only says that equal
/// texts parse equally.
#[verifier::external_body]
pub(crate) fn parse_string_list(text: &str) -> (r: Result<Vec<String>, serde_json::Error>)
    ensures
        match r {
            Ok(list) => json_string_list(text@) == Some(list@.map_values(|s: String| s@)),
            Err(_) => json_string_list(text@) is None,
        },
{
    serde_json::from_str::<Vec<String>>(text)
}

} // verus!
