//! Trusted wrappers around the MIME codecs of the mail crates: base64
//! decoding of PEM bodies, MIME base64 encoding of the CMS blob, and the
//! multipart boundary generator.

use vstd::prelude::*;

verus! {

/// What mail-parser's base64 decoder returns for a byte sequence.
pub uninterp spec fn base64_decode_of(s: Seq<u8>) -> Option<Seq<u8>>;

/// Relies on mail_parser::decoders::base64::base64_decode: decoding is a
/// pure function of the input bytes.
#[verifier::external_body]
pub(crate) fn base64_decode(bytes: &[u8]) -> (r: Option<Vec<u8>>)
    ensures
        match r {
            Some(v) => base64_decode_of(bytes@) == Some(v@),
            None => base64_decode_of(bytes@) == None::<Seq<u8>>,
        },
{
    mail_parser::decoders::base64::base64_decode(bytes)
}

/// What mail-builder's MIME base64 encoder (with line folding) emits.
pub uninterp spec fn base64_mime_of(s: Seq<u8>) -> Seq<u8>;

/// Relies on mail_builder::encoders::base64::base64_encode_mime with
/// `is_inline = false`: encoding is a pure function of the input bytes,
/// and writing to a `Vec` never fails, so the call succeeds.
#[verifier::external_body]
pub(crate) fn base64_encode_mime(input: &[u8]) -> (r: Result<Vec<u8>, String>)
    ensures
        r is Ok,
        r matches Ok(v) ==> v@ == base64_mime_of(input@),
{
    let mut out: Vec<u8> = Vec::new();
    match mail_builder::encoders::base64::base64_encode_mime(input, &mut out, false) {
        Ok(_) => Ok(out),
        Err(err) => Err(format!("Failed to base64 encode PKCS7: {}", err)),
    }
}

/// Whether a byte may appear in a generated boundary: a lower-case hex
/// digit or the `_` separator.
pub open spec fn is_boundary_byte(c: u8) -> bool {
    (48 <= c && c <= 57) || (97 <= c && c <= 102) || c == 95
}

/// Relies on mail_builder::mime::make_boundary with separator `_`: the
/// boundary is formatted from three numbers in lower-case hex joined by
/// the separator, so it is non-empty and holds only hex digits and `_`.
#[verifier::external_body]
pub(crate) fn make_boundary() -> (r: Vec<u8>)
    ensures
        r@.len() > 0,
        forall|i: int| 0 <= i < r@.len() ==> is_boundary_byte(#[trigger] r@[i]),
{
    mail_builder::mime::make_boundary("_").into_bytes()
}

} // verus!
