//! Codes and signatures, as the `base64`, `hmac`, `sha2` and `subtle` crates compute them.

use base64::engine::general_purpose;
use base64::Engine as _;
use hmac::{Hmac, Mac};
use sha2::Sha256;
use subtle::ConstantTimeEq;
use vstd::prelude::*;

verus! {

/// The HMAC of the message with SHA-256, as the `hmac` and `sha2` crates compute it.
pub uninterp spec fn hmac_sha256(key: Seq<u8>, message: Seq<u8>) -> Seq<u8>;

/// The bytes in base64, with the standard alphabet and padding.
pub uninterp spec fn base64_standard(bytes: Seq<u8>) -> Seq<char>;

/// The bytes that base64 text of the standard alphabet with padding stands for.
pub uninterp spec fn from_standard(text: Seq<char>) -> Option<Seq<u8>>;

/// The bytes that base64 text of the standard alphabet without padding stands for.
pub uninterp spec fn from_standard_no_pad(text: Seq<char>) -> Option<Seq<u8>>;

/// The bytes that base64 text of the alphabet for URLs with padding stands for.
pub uninterp spec fn from_url_safe(text: Seq<char>) -> Option<Seq<u8>>;

/// The bytes that base64 text of the alphabet for URLs without padding stands for.
pub uninterp spec fn from_url_safe_no_pad(text: Seq<char>) -> Option<Seq<u8>>;

/// What an optional list of bytes holds.
pub open spec fn bytes_option(bytes: Option<Vec<u8>>) -> Option<Seq<u8>> {
    match bytes {
        Some(bytes) => Some(bytes@),
        None => None,
    }
}

/// Computes an HMAC with `Hmac::<Sha256>`, which takes keys of any length: 32 bytes that depend
/// on the key and the message alone.
#[verifier::external_body]
pub(crate) fn hmac_digest(key: &[u8], message: &[u8]) -> (r: Vec<u8>)
    ensures
        r@ == hmac_sha256(key@, message@),
        r@.len() == 32,
{
    let mut mac = Hmac::<Sha256>::new_from_slice(key).expect("HMAC takes keys of any length");
    mac.update(message);
    mac.finalize().into_bytes().to_vec()
}

/// Whether the character is one of the standard alphabet of base64, or the mark that fills it up.
pub open spec fn is_code_char(c: char) -> bool {
    ||| 'a' <= c <= 'z'
    ||| 'A' <= c <= 'Z'
    ||| '0' <= c <= '9'
    ||| c == '+'
    ||| c == '/'
    ||| c == '='
}

/// Encodes with `base64::engine::general_purpose::STANDARD`: four characters of its alphabet for
/// every three bytes begun, filled up with `=`. Its `decode` gives the bytes back. So many bytes that their code does not fit in memory are left out.
#[verifier::external_body]
pub(crate) fn encode_standard(bytes: &[u8]) -> (r: String)
    requires
        bytes@.len() <= usize::MAX / 8,
    ensures
        r@ == base64_standard(bytes@),
        from_standard(r@) == Some(bytes@),
        r@.len() == 4 * ((bytes@.len() + 2) / 3),
        forall|i: int| 0 <= i < r@.len() ==> is_code_char(#[trigger] r@[i]),
{
    general_purpose::STANDARD.encode(bytes)
}

/// Decodes with `base64::engine::general_purpose::STANDARD`. Only that the result depends on the
/// text alone is claimed.
#[verifier::external_body]
fn decode_standard(text: &str) -> (r: Option<Vec<u8>>)
    ensures
        bytes_option(r) == from_standard(text@),
{
    general_purpose::STANDARD.decode(text).ok()
}

/// Decodes with `base64::engine::general_purpose::STANDARD_NO_PAD`. Only that the result depends
/// on the text alone is claimed.
#[verifier::external_body]
fn decode_standard_no_pad(text: &str) -> (r: Option<Vec<u8>>)
    ensures
        bytes_option(r) == from_standard_no_pad(text@),
{
    general_purpose::STANDARD_NO_PAD.decode(text).ok()
}

/// Decodes with `base64::engine::general_purpose::URL_SAFE`. Only that the result depends on the
/// text alone is claimed.
#[verifier::external_body]
fn decode_url_safe(text: &str) -> (r: Option<Vec<u8>>)
    ensures
        bytes_option(r) == from_url_safe(text@),
{
    general_purpose::URL_SAFE.decode(text).ok()
}

/// Decodes with `base64::engine::general_purpose::URL_SAFE_NO_PAD`. Only that the result depends
/// on the text alone is claimed.
#[verifier::external_body]
fn decode_url_safe_no_pad(text: &str) -> (r: Option<Vec<u8>>)
    ensures
        bytes_option(r) == from_url_safe_no_pad(text@),
{
    general_purpose::URL_SAFE_NO_PAD.decode(text).ok()
}

/// Compares with `subtle::ConstantTimeEq::ct_eq` for slices of bytes: whether they are equal.
#[verifier::external_body]
pub(crate) fn equal_bytes(a: &[u8], b: &[u8]) -> (r: bool)
    ensures
        r == (a@ == b@),
{
    a.ct_eq(b).into()
}

/// The bytes that base64 text stands for: read with the standard alphabet or the one for URLs,
/// with padding or without, whichever comes first.
pub open spec fn from_base64(text: Seq<char>) -> Option<Seq<u8>> {
    if from_standard(text) is Some {
        from_standard(text)
    } else if from_standard_no_pad(text) is Some {
        from_standard_no_pad(text)
    } else if from_url_safe(text) is Some {
        from_url_safe(text)
    } else {
        from_url_safe_no_pad(text)
    }
}

/// Reads base64 text of any of the four common kinds.
pub fn decode_base64(input: &str) -> (r: Option<Vec<u8>>)
    ensures
        bytes_option(r) == from_base64(input@),
{
    match decode_standard(input) {
        Some(bytes) => return Some(bytes),
        None => {},
    }
    match decode_standard_no_pad(input) {
        Some(bytes) => return Some(bytes),
        None => {},
    }
    match decode_url_safe(input) {
        Some(bytes) => return Some(bytes),
        None => {},
    }
    decode_url_safe_no_pad(input)
}

} // verus!
