//! Base64 in the two forms that are used: URL-safe without padding, and standard with padding.
use vstd::prelude::*;
use vstd::utf8::encode_utf8;

verus! {

/// The bytes that a text stands for in URL-safe base64 without padding, if it is such a text.
pub uninterp spec fn base64url_bytes(s: Seq<char>) -> Option<Seq<u8>>;

/// The text of bytes in standard base64 with padding.
pub uninterp spec fn base64_text(bytes: Seq<u8>) -> Seq<char>;

/// The bytes of an outcome.
pub open spec fn bytes_view(r: Option<Vec<u8>>) -> Option<Seq<u8>> {
    match r {
        Some(v) => Some(v@),
        None => None,
    }
}

/// The text is short enough for its length in bits to be counted, so that it can be decoded.
pub open spec fn is_decodable(s: Seq<char>) -> bool {
    encode_utf8(s).len() <= usize::MAX / 8
}

/// Calls `data_encoding::BASE64URL_NOPAD.decode` on the bytes of the text. The claim is that the
/// outcome is a function of the text alone, here named `base64url_bytes`. The call panics on a text
/// that is longer than `is_decodable` allows.
#[verifier::external_body]
pub(crate) fn decode_base64url(s: &str) -> (r: Option<Vec<u8>>)
    requires
        is_decodable(s@),
    ensures
        bytes_view(r) == base64url_bytes(s@),
{
    data_encoding::BASE64URL_NOPAD.decode(s.as_bytes()).ok()
}

/// Calls `data_encoding::BASE64.encode`. The claim is that the text is a function of the bytes
/// alone, here named `base64_text`. The call may panic on more bytes than the bound allows.
#[verifier::external_body]
pub(crate) fn encode_base64(bytes: &[u8]) -> (r: String)
    requires
        bytes@.len() <= usize::MAX / 512,
    ensures
        r@ == base64_text(bytes@),
{
    data_encoding::BASE64.encode(bytes)
}

} // verus!
