//! The text encoding of artifact content on the wire: standard base64.
use vstd::prelude::*;

use base64::prelude::BASE64_STANDARD;
use base64::{DecodeError, Engine};

verus! {

/// The bytes that a text encodes in standard base64, if it is valid.
pub uninterp spec fn base64_decoded(text: Seq<char>) -> Option<Seq<u8>>;

/// The standard base64 text of a byte string.
pub uninterp spec fn base64_encoded(data: Seq<u8>) -> Seq<char>;

#[verifier::external_type_specification]
#[verifier::external_body]
pub struct ExDecodeError(DecodeError);

/// Relies on base64's `Engine::decode` with the standard engine: the bytes
/// that the text encodes, or an error when it is not valid base64.
#[verifier::external_body]
pub(crate) fn decode_base64(text: &str) -> (r: Result<Vec<u8>, DecodeError>)
    ensures
        match r {
            Ok(b) => base64_decoded(text@) == Some(b@),
            Err(_) => base64_decoded(text@) is None,
        },
{
    BASE64_STANDARD.decode(text.as_bytes())
}

/// Relies on base64's `Engine::encode` with the standard engine, which panics
/// only when the encoded length overflows `usize`; decoding its output with
/// the same engine gives the bytes back.
#[verifier::external_body]
pub(crate) fn encode_base64(data: &[u8]) -> (r: String)
    requires
        data@.len() <= usize::MAX / 2,
    ensures
        r@ == base64_encoded(data@),
        base64_decoded(r@) == Some(data@),
{
    BASE64_STANDARD.encode(data)
}

/// Decodes artifact content from its wire text; `None` when it is not valid
/// base64.
pub fn decode_content(text: &str) -> (r: Option<Vec<u8>>)
    ensures
        match r {
            Some(b) => base64_decoded(text@) == Some(b@),
            None => base64_decoded(text@) is None,
        },
{
    match decode_base64(text) {
        Ok(b) => Some(b),
        Err(_) => None,
    }
}

/// Encodes artifact content as wire text; `None` when the content is too
/// large for its encoding to fit in memory.
pub fn encode_content(data: &[u8]) -> (r: Option<String>)
    ensures
        match r {
            Some(t) => data@.len() <= usize::MAX / 2 && t@ == base64_encoded(data@)
                && base64_decoded(t@) == Some(data@),
            None => data@.len() > usize::MAX / 2,
        },
{
    if data.len() > usize::MAX / 2 {
        return None;
    }
    Some(encode_base64(data))
}

} // verus!
