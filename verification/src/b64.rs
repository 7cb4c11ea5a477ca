//! Trusted boundary to the `base64` crate, used for the text form of packed
//! tensor data.

use vstd::prelude::*;

use base64::Engine;

verus! {

/// The standard, unpadded base64 rendering of a byte sequence. The result
/// depends on the bytes alone.
pub uninterp spec fn b64_of(bytes: Seq<u8>) -> Seq<char>;

/// What decoding a text as standard, unpadded base64 yields: the bytes, or
/// `None` for text that is not a canonical encoding. The result depends on
/// the text alone.
pub uninterp spec fn b64_decode_of(text: Seq<char>) -> Option<Seq<u8>>;

/// Does `r` hold exactly the bytes that `text` decodes to?
pub open spec fn decode_yields(text: Seq<char>, r: Option<Vec<u8>>) -> bool {
    match b64_decode_of(text) {
        Some(b) => r matches Some(v) && v@ == b,
        None => r is None,
    }
}

/// Relies on `base64`'s `STANDARD_NO_PAD` engine: `encode` renders the bytes
/// as unpadded standard base64 text, a pure function of the bytes, and
/// `decode` restores exactly those bytes from it. The size bound keeps the
/// engine's internal output-size computation from overflowing.
#[verifier::external_body]
pub(crate) fn b64_encode(bytes: &Vec<u8>) -> (r: String)
    requires
        bytes@.len() <= 0x4000000000000000,
    ensures
        r@ == b64_of(bytes@),
        b64_decode_of(r@) == Some(bytes@),
{
    base64::engine::general_purpose::STANDARD_NO_PAD.encode(bytes.as_slice())
}

/// Relies on `base64`'s `STANDARD_NO_PAD` engine: `decode` accepts exactly
/// valid unpadded standard base64 with zeroed trailing bits, and yields the
/// encoded bytes, a pure function of the text.
#[verifier::external_body]
pub(crate) fn b64_decode(text: &String) -> (r: Option<Vec<u8>>)
    ensures
        decode_yields(text@, r),
{
    match base64::engine::general_purpose::STANDARD_NO_PAD.decode(text.as_bytes()) {
        Ok(v) => Some(v),
        Err(_) => None,
    }
}

} // verus!
