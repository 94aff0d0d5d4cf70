//! Text that is held in Base64.

use vstd::prelude::*;
use vstd::utf8::{decode_utf8, encode_utf8, valid_utf8};

verus! {

/// The bytes that a Base64 text stands for; none for a text that is not
/// Base64.
pub uninterp spec fn base64_decoded(text: Seq<char>) -> Option<Seq<u8>>;

/// Whether a text is short enough to be decoded: whether the count of its
/// groups of eight bytes fits the machine.
pub open spec fn is_decodable(text: Seq<char>) -> bool {
    encode_utf8(text).len() + 7 <= usize::MAX
}

/// `base64::decode`: the bytes that the text stands for in the standard
/// alphabet, or nothing where the text is not Base64. The text must be short
/// enough for the lengths that the decoder computes from its length.
#[verifier::external_body]
pub(crate) fn decode_base64(text: &str) -> (bytes: Option<Vec<u8>>)
    requires
        is_decodable(text@),
    ensures
        match bytes {
            Some(bytes) => base64_decoded(text@) == Some(bytes@),
            None => base64_decoded(text@) is None,
        },
{
    match base64::decode(text) {
        Ok(bytes) => Some(bytes),
        Err(_) => None,
    }
}

/// `String::from_utf8`: the text that the bytes encode in UTF-8, or nothing
/// where they encode none.
#[verifier::external_body]
pub(crate) fn text_from_utf8(bytes: Vec<u8>) -> (text: Option<String>)
    ensures
        match text {
            Some(text) => valid_utf8(bytes@) && text@ == decode_utf8(bytes@),
            None => !valid_utf8(bytes@),
        },
{
    match String::from_utf8(bytes) {
        Ok(text) => Some(text),
        Err(_) => None,
    }
}

/// The text that a Base64 text holds in UTF-8, if it holds one.
pub open spec fn decoded_text(decoded: Option<Seq<u8>>) -> Option<Seq<char>> {
    match decoded {
        Some(bytes) if valid_utf8(bytes) => Some(decode_utf8(bytes)),
        _ => None,
    }
}

/// The text that the decoded bytes of a Base64 text encode in UTF-8.
pub fn text_of_decoded(decoded: Option<Vec<u8>>) -> (text: Option<String>)
    ensures
        match text {
            Some(text) => decoded_text(
                match decoded {
                    Some(bytes) => Some(bytes@),
                    None => None,
                },
            ) == Some(text@),
            None => decoded_text(
                match decoded {
                    Some(bytes) => Some(bytes@),
                    None => None,
                },
            ) is None,
        },
{
    match decoded {
        Some(bytes) => text_from_utf8(bytes),
        None => None,
    }
}

/// The text that a Base64 text holds in UTF-8, if it holds one.
pub fn decode_text(encoded: &str) -> (text: Option<String>)
    requires
        is_decodable(encoded@),
    ensures
        match text {
            Some(text) => decoded_text(base64_decoded(encoded@)) == Some(text@),
            None => decoded_text(base64_decoded(encoded@)) is None,
        },
{
    text_of_decoded(decode_base64(encoded))
}

} // verus!
