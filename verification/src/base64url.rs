//! Unpadded URL-safe base64, the text form of bytes in tokens and keys.

use base64::engine::general_purpose::URL_SAFE_NO_PAD;
use base64::Engine;
use vstd::prelude::*;

verus! {

/// What `URL_SAFE_NO_PAD.encode` writes for these bytes.
pub uninterp spec fn base64url(data: Seq<u8>) -> Seq<char>;

/// What `URL_SAFE_NO_PAD.decode` makes of a text: the bytes, or the text of
/// the error.
pub uninterp spec fn base64url_decoded(text: Seq<char>) -> Result<Seq<u8>, Seq<char>>;

/// Whether a character belongs to the URL-safe alphabet.
pub open spec fn in_alphabet(c: char) -> bool {
    'A' <= c <= 'Z' || 'a' <= c <= 'z' || '0' <= c <= '9' || c == '-' || c == '_'
}

/// Whether a text is written in the URL-safe alphabet and decodes to `data`.
pub open spec fn stands_for(text: Seq<char>, data: Seq<u8>) -> bool {
    &&& forall|i: int| 0 <= i < text.len() ==> in_alphabet(#[trigger] text[i])
    &&& base64url_decoded(text) matches Ok(decoded) && decoded == data
}

/// `URL_SAFE_NO_PAD.encode`: the text is in the URL-safe alphabet, and
/// decoding it gives the bytes back.
#[verifier::external_body]
pub(crate) fn b64_encode(data: &[u8]) -> (text: String)
    ensures
        text@ == base64url(data@),
        stands_for(text@, data@),
{
    URL_SAFE_NO_PAD.encode(data)
}

/// `URL_SAFE_NO_PAD.decode`, with the error as text.
#[verifier::external_body]
fn decode_segment(segment: &str) -> (decoded: Result<Vec<u8>, String>)
    ensures
        match decoded {
            Ok(data) => base64url_decoded(segment@) matches Ok(bytes) && bytes == data@,
            Err(error) => base64url_decoded(segment@) matches Err(text) && text == error@,
        },
{
    URL_SAFE_NO_PAD.decode(segment).map_err(|error| error.to_string())
}

/// What a segment decodes to, or why it does not.
pub open spec fn segment_bytes(segment: Seq<char>) -> Result<Seq<u8>, Seq<char>> {
    match base64url_decoded(segment) {
        Ok(data) => Ok(data),
        Err(error) => Err("invalid base64url: "@ + error),
    }
}

/// Decodes one base64url segment.
pub fn b64_decode(segment: &str) -> (decoded: Result<Vec<u8>, String>)
    ensures
        match decoded {
            Ok(data) => segment_bytes(segment@) matches Ok(bytes) && bytes == data@,
            Err(error) => segment_bytes(segment@) matches Err(text) && text == error@,
        },
{
    match decode_segment(segment) {
        Ok(data) => Ok(data),
        Err(error) => Err("invalid base64url: ".to_owned().concat(error.as_str())),
    }
}

} // verus!
