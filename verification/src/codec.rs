//! Byte encodings done by outside crates: standard base64 and UTF-8
//! validation.
use vstd::prelude::*;
use vstd::utf8::{decode_utf8, valid_utf8};
use base64::Engine;

verus! {

/// Standard base64 (RFC 4648 alphabet, with `=` padding) of the bytes, as the
/// `base64` crate's `STANDARD` engine encodes them.
pub uninterp spec fn base64_standard(bytes: Seq<u8>) -> Seq<char>;

/// What the `STANDARD` engine decodes from a text: the bytes, or the
/// decoder's error message.
pub uninterp spec fn base64_standard_decode(text: Seq<char>) -> Result<Seq<u8>, Seq<char>>;

/// A character of the standard base64 alphabet (RFC 4648 table 1), or the
/// padding `=`.
pub open spec fn is_base64_char(c: char) -> bool {
    ('A' <= c && c <= 'Z') || ('a' <= c && c <= 'z') || ('0' <= c && c <= '9') || c == '+' || c == '/'
        || c == '='
}

/// Decoding `text` gives `bytes`.
pub open spec fn decodes_to(text: Seq<char>, bytes: Seq<u8>) -> bool {
    base64_standard_decode(text) matches Ok(b) && b == bytes
}

/// `base64::engine::general_purpose::STANDARD.encode`. The contract names the
/// result, gives its padded length (four characters per started group of
/// three bytes, the crate's `encoded_len` with padding), that it is written
/// in the standard alphabet with `=` padding, and that decoding it gives the
/// bytes back.
#[verifier::external_body]
pub(crate) fn base64_encode(bytes: &[u8]) -> (r: String)
    ensures
        r@ == base64_standard(bytes@),
        r@.len() == 4 * ((bytes@.len() + 2) / 3),
        (forall|i: int| 0 <= i < r@.len() ==> is_base64_char(#[trigger] r@[i])),
        decodes_to(r@, bytes@),
{
    base64::engine::general_purpose::STANDARD.encode(bytes)
}

/// `base64::engine::general_purpose::STANDARD.decode`. The contract names the
/// result; the error is the decoder's message.
#[verifier::external_body]
pub(crate) fn base64_decode(text: &str) -> (r: Result<Vec<u8>, String>)
    ensures
        match r {
            Ok(b) => base64_standard_decode(text@) matches Ok(d) && d == b@,
            Err(e) => base64_standard_decode(text@) matches Err(d) && d == e@,
        },
{
    match base64::engine::general_purpose::STANDARD.decode(text) {
        Ok(b) => Ok(b),
        Err(e) => Err(e.to_string()),
    }
}

/// The message of the error `String::from_utf8` gives for invalid UTF-8
/// (where the first invalid sequence starts, and how long it is).
pub uninterp spec fn utf8_error_message(bytes: Seq<u8>) -> Seq<char>;

/// `String::from_utf8`: the text when the bytes are valid UTF-8, else the
/// error's message (its `Display`), which the contract names.
#[verifier::external_body]
pub(crate) fn utf8_string(bytes: Vec<u8>) -> (r: Result<String, String>)
    ensures
        r is Ok <==> valid_utf8(bytes@),
        r matches Ok(s) ==> s@ == decode_utf8(bytes@),
        r matches Err(e) ==> e@ == utf8_error_message(bytes@),
{
    String::from_utf8(bytes).map_err(|e| e.to_string())
}

} // verus!
