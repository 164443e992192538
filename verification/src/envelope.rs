//! Envelope construction and the encrypt orchestrator: OpenPGP/MIME
//! (multipart/encrypted) and S/MIME (application/pkcs7-mime
//! enveloped-data), dispatched on the stored method.

use vstd::prelude::*;

use crate::bytes_util::push_bytes;
use crate::bytes_util::push_str;
use crate::cms_ops::aes128_cbc_encrypt;
use crate::cms_ops::cms_content_info_of;
use crate::cms_ops::aes256_cbc_encrypt;
use crate::cms_ops::decode_x509;
use crate::cms_ops::der_encode_content_info;
use crate::cms_ops::der_encode_enveloped_data;
use crate::cms_ops::der_encode_octet_string;
use crate::cms_ops::insert_recipient;
use crate::cms_ops::is_x509_cert;
use crate::cms_ops::new_recipient_set;
use crate::cms_ops::oid_aes128_cbc;
use crate::cms_ops::oid_aes256_cbc;
use crate::cms_ops::recipient_info_for;
use crate::cms_ops::rsa_encrypt;
use crate::cms_ops::rsa_from_pkcs1_der;
use crate::cms_ops::spki_key_bits;
use crate::message::spec_is_encrypted;
use crate::message::spec_outer;
use crate::message::split_message;
use crate::message::ParsedMessage;
use crate::mime_ops::base64_encode_mime;
use crate::mime_ops::base64_mime_of;
use crate::mime_ops::is_boundary_byte;
use crate::mime_ops::make_boundary;
use crate::pgp_ops::is_pgp_public_key;
use crate::pgp_ops::parse_pgp_key;
use crate::pgp_ops::pgp_armor;
use crate::pgp_ops::pgp_encrypt_to_keys;
use crate::pgp_ops::pgp_literal_message;
use crate::pgp_ops::sym_alg_aes128;
use crate::pgp_ops::sym_alg_aes256;
use crate::rng_ops::fill_random;
use crate::rng_ops::new_rng;
use crate::types::Algorithm;
use crate::types::EncryptMessageError;
use crate::types::EncryptionMethod;
use crate::types::EncryptionParams;

verus! {

use vstd::string::StringSliceAdditionalSpecFns;

/// A usable multipart boundary: non-empty, hex digits and `_` only (so
/// it holds no CR, LF or quote).
pub open spec fn spec_boundary_ok(b: Seq<u8>) -> bool {
    b.len() > 0 && forall|i: int| 0 <= i < b.len() ==> is_boundary_byte(#[trigger] b[i])
}

/// The OpenPGP/MIME envelope appended after the outer headers: the
/// multipart/encrypted content type, a preamble, a Version: 1 part and
/// the armored ciphertext part, all under one boundary.
pub open spec fn spec_pgp_envelope(b: Seq<u8>, armored: Seq<u8>) -> Seq<u8> {
    "Content-Type: multipart/encrypted;\r\n\tprotocol=\"application/pgp-encrypted\";\r\n\tboundary=\"".spec_bytes()
        + b
        + "\"\r\n\r\nOpenPGP/MIME message (Automatically encrypted by mail_crypto)\r\n\r\n--".spec_bytes()
        + b + "\r\nContent-Type: application/pgp-encrypted\r\nVersion: 1\r\n\r\n--".spec_bytes() + b
        + "\r\nContent-Type: application/octet-stream; name=\"encrypted.asc\"\r\nContent-Disposition: inline; filename=\"encrypted.asc\"\r\n\r\n".spec_bytes()
        + armored + "\r\n--".spec_bytes() + b + "--\r\n".spec_bytes()
}

/// The S/MIME envelope appended after the outer headers: the
/// application/pkcs7-mime headers and the base64 of the CMS DER.
pub open spec fn spec_smime_envelope(der: Seq<u8>) -> Seq<u8> {
    "Content-Type: application/pkcs7-mime;\r\n\tname=\"smime.p7m\";\r\n\tsmime-type=enveloped-data\r\nContent-Disposition: attachment;\r\n\tfilename=\"smime.p7m\"\r\nContent-Transfer-Encoding: base64\r\n\r\n".spec_bytes()
        + base64_mime_of(der)
}

/// Appends the OpenPGP/MIME envelope for the given boundary and armored
/// ciphertext.
fn build_pgp_envelope(out: &mut Vec<u8>, boundary: &[u8], armored: &[u8])
    ensures
        final(out)@ == old(out)@ + spec_pgp_envelope(boundary@, armored@),
{
    push_str(
        out,
        "Content-Type: multipart/encrypted;\r\n\tprotocol=\"application/pgp-encrypted\";\r\n\tboundary=\"",
    );
    push_bytes(out, boundary);
    push_str(
        out,
        "\"\r\n\r\nOpenPGP/MIME message (Automatically encrypted by mail_crypto)\r\n\r\n--",
    );
    push_bytes(out, boundary);
    push_str(out, "\r\nContent-Type: application/pgp-encrypted\r\nVersion: 1\r\n\r\n--");
    push_bytes(out, boundary);
    push_str(
        out,
        "\r\nContent-Type: application/octet-stream; name=\"encrypted.asc\"\r\nContent-Disposition: inline; filename=\"encrypted.asc\"\r\n\r\n",
    );
    push_bytes(out, armored);
    push_str(out, "\r\n--");
    push_bytes(out, boundary);
    push_str(out, "--\r\n");
    proof {
        assert(out@ =~= old(out)@ + spec_pgp_envelope(boundary@, armored@));
    }
}

/// Parses every recipient key as an OpenPGP public key; succeeds exactly
/// when all of them parse.
fn parse_pgp_keys(certs: &Vec<Vec<u8>>) -> (r: Result<Vec<pgp::SignedPublicKey>, String>)
    ensures
        r is Ok <==> forall|k: int|
            0 <= k < certs.deep_view().len() ==> is_pgp_public_key(#[trigger] certs.deep_view()[k]),
{
    let mut keys: Vec<pgp::SignedPublicKey> = Vec::new();
    let n = certs.len();
    let mut i: usize = 0;
    while i < n
        invariant
            i <= n,
            n == certs@.len(),
            forall|k: int| 0 <= k < i ==> is_pgp_public_key(#[trigger] certs.deep_view()[k]),
        decreases n - i,
    {
        proof {
            assert(certs.deep_view()[i as int] =~= certs@[i as int]@);
        }
        match parse_pgp_key(certs[i].as_slice(), "Failed to parse PGP public key") {
            Ok(key) => {
                keys.push(key);
            },
            Err(e) => {
                proof {
                    assert(!is_pgp_public_key(certs.deep_view()[i as int]));
                }
                return Err(e);
            },
        }
        i += 1;
    }
    Ok(keys)
}

/// Builds the OpenPGP/MIME envelope onto the outer headers: parses the
/// keys, encrypts the inner payload to all of them with a fresh session
/// key, armors the result and lays out the two body parts.
fn encrypt_pgp(out: &mut Vec<u8>, inner: Vec<u8>, algo: Algorithm, certs: &Vec<Vec<u8>>) -> (r:
    Result<(), String>)
    ensures
        r is Ok ==> (forall|k: int|
            0 <= k < certs.deep_view().len() ==> is_pgp_public_key(#[trigger] certs.deep_view()[k]))
            && exists|b: Seq<u8>, a: Seq<u8>|
            spec_boundary_ok(b) && final(out)@ == old(out)@ + spec_pgp_envelope(b, a),
        r is Err ==> final(out)@ == old(out)@,
        (exists|k: int|
            0 <= k < certs.deep_view().len() && !is_pgp_public_key(
                #[trigger] certs.deep_view()[k],
            )) ==> r is Err,
{
    let keys = match parse_pgp_keys(certs) {
        Ok(keys) => keys,
        Err(e) => {
            return Err(e);
        },
    };
    let boundary = make_boundary();
    let literal = pgp_literal_message(inner.as_slice());
    let mut rng = new_rng();
    let alg = match algo {
        Algorithm::Aes128 => sym_alg_aes128(),
        Algorithm::Aes256 => sym_alg_aes256(),
    };
    let encrypted = match pgp_encrypt_to_keys(&literal, &mut rng, alg, &keys) {
        Ok(m) => m,
        Err(e) => {
            return Err(e);
        },
    };
    let armored = match pgp_armor(&encrypted) {
        Ok(a) => a,
        Err(e) => {
            return Err(e);
        },
    };
    build_pgp_envelope(out, boundary.as_slice(), armored.as_slice());
    proof {
        assert(spec_boundary_ok(boundary@));
    }
    Ok(())
}

/// Builds the S/MIME envelope onto the outer headers: a fresh IV and
/// symmetric key, AES-CBC over the inner payload, the key RSA-wrapped to
/// every recipient certificate, the CMS structure DER-encoded and
/// base64-laid out. Succeeds only if every certificate decodes as X.509.
fn encrypt_smime(out: &mut Vec<u8>, inner: Vec<u8>, algo: Algorithm, certs: &Vec<Vec<u8>>) -> (r:
    Result<(), String>)
    ensures
        r is Ok ==> (forall|k: int|
            0 <= k < certs.deep_view().len() ==> is_x509_cert(#[trigger] certs.deep_view()[k]))
            && exists|env: Seq<u8>|
            final(out)@ == old(out)@ + spec_smime_envelope(cms_content_info_of(env)),
        r is Err ==> final(out)@ == old(out)@,
        (exists|k: int|
            0 <= k < certs.deep_view().len() && !is_x509_cert(#[trigger] certs.deep_view()[k]))
            ==> r is Err,
{
    let mut rng = new_rng();
    let mut iv: Vec<u8> = vec![0u8; 16];
    fill_random(&mut rng, &mut iv);
    let mut key: Vec<u8> = vec![0u8; algo.key_size()];
    fill_random(&mut rng, &mut key);
    let ciphertext = match algo {
        Algorithm::Aes128 => aes128_cbc_encrypt(key.as_slice(), iv.as_slice(), inner.as_slice()),
        Algorithm::Aes256 => aes256_cbc_encrypt(key.as_slice(), iv.as_slice(), inner.as_slice()),
    };
    let mut recipients = new_recipient_set();
    let n = certs.len();
    let mut i: usize = 0;
    while i < n
        invariant
            i <= n,
            n == certs@.len(),
            forall|k: int| 0 <= k < i ==> is_x509_cert(#[trigger] certs.deep_view()[k]),
        decreases n - i,
    {
        proof {
            assert(certs.deep_view()[i as int] =~= certs@[i as int]@);
        }
        let cert = match decode_x509(certs[i].as_slice(), "Failed to parse certificate") {
            Ok(c) => c,
            Err(e) => {
                proof {
                    assert(!is_x509_cert(certs.deep_view()[i as int]));
                }
                return Err(e);
            },
        };
        let key_bits = spki_key_bits(&cert);
        let public_key = match rsa_from_pkcs1_der(key_bits.as_slice()) {
            Ok(k) => k,
            Err(e) => {
                return Err(e);
            },
        };
        let encrypted_key = match rsa_encrypt(&mut rng, &public_key, key.as_slice()) {
            Ok(ek) => ek,
            Err(e) => {
                return Err(e);
            },
        };
        // DER NULL, the parameters of the rsaEncryption AlgorithmIdentifier
        let der_null: Vec<u8> = vec![5u8, 0u8];
        let info = recipient_info_for(&cert, der_null, encrypted_key);
        insert_recipient(&mut recipients, info);
        i += 1;
    }
    let alg_oid = match algo {
        Algorithm::Aes128 => oid_aes128_cbc(),
        Algorithm::Aes256 => oid_aes256_cbc(),
    };
    let iv_der = match der_encode_octet_string(iv.as_slice()) {
        Ok(v) => v,
        Err(e) => {
            return Err(e);
        },
    };
    let enveloped = match der_encode_enveloped_data(recipients, alg_oid, iv_der, ciphertext) {
        Ok(v) => v,
        Err(e) => {
            return Err(e);
        },
    };
    let ghost enveloped_view = enveloped@;
    let pkcs7 = match der_encode_content_info(enveloped) {
        Ok(v) => v,
        Err(e) => {
            return Err(e);
        },
    };
    let encoded = match base64_encode_mime(pkcs7.as_slice()) {
        Ok(v) => v,
        Err(e) => {
            return Err(e);
        },
    };
    push_str(
        out,
        "Content-Type: application/pkcs7-mime;\r\n\tname=\"smime.p7m\";\r\n\tsmime-type=enveloped-data\r\nContent-Disposition: attachment;\r\n\tfilename=\"smime.p7m\"\r\nContent-Transfer-Encoding: base64\r\n\r\n",
    );
    push_bytes(out, encoded.as_slice());
    proof {
        assert(out@ =~= old(out)@ + spec_smime_envelope(cms_content_info_of(enveloped_view)));
    }
    Ok(())
}

/// Encrypts a message to the stored parameters. An already-encrypted
/// message fails with `AlreadyEncrypted` (and only such a message does);
/// on success the output is the message's non-MIME headers followed by
/// the envelope of the stored method, built over the message's MIME
/// headers and body; a recipient key that does not parse under the
/// method forces failure.
pub fn encrypt(msg: &ParsedMessage, params: &EncryptionParams) -> (r: Result<
    Vec<u8>,
    EncryptMessageError,
>)
    requires
        msg.wf(),
        params.wf(),
    ensures
        (r matches Err(e) && e is AlreadyEncrypted) <==> spec_is_encrypted(*msg),
        !spec_is_encrypted(*msg) && params.spec_method() == EncryptionMethod::PGP && (exists|k: int|
            0 <= k < params.spec_certs().len() && !is_pgp_public_key(
                #[trigger] params.spec_certs()[k],
            )) ==> r is Err,
        !spec_is_encrypted(*msg) && params.spec_method() == EncryptionMethod::SMIME && (exists|
            k: int,
        |
            0 <= k < params.spec_certs().len() && !is_x509_cert(
                #[trigger] params.spec_certs()[k],
            )) ==> r is Err,
        r matches Ok(out) ==> match params.spec_method() {
            EncryptionMethod::PGP => (forall|k: int|
                0 <= k < params.spec_certs().len() ==> is_pgp_public_key(
                    #[trigger] params.spec_certs()[k],
                )) && exists|b: Seq<u8>, a: Seq<u8>|
                spec_boundary_ok(b) && out@ == spec_outer(*msg) + spec_pgp_envelope(b, a),
            EncryptionMethod::SMIME => (forall|k: int|
                0 <= k < params.spec_certs().len() ==> is_x509_cert(
                    #[trigger] params.spec_certs()[k],
                )) && exists|env: Seq<u8>|
                out@ == spec_outer(*msg) + spec_smime_envelope(cms_content_info_of(env)),
        },
{
    if crate::message::is_encrypted(msg) {
        return Err(EncryptMessageError::AlreadyEncrypted);
    }
    let (mut outer, inner) = split_message(msg);
    let result = match params.method() {
        EncryptionMethod::PGP => encrypt_pgp(&mut outer, inner, params.algo(), params.certs()),
        EncryptionMethod::SMIME => encrypt_smime(&mut outer, inner, params.algo(), params.certs()),
    };
    match result {
        Ok(()) => Ok(outer),
        Err(e) => Err(EncryptMessageError::Error(e)),
    }
}

/// The OpenPGP/MIME envelope announces `multipart/encrypted` in its very
/// first bytes, whatever the boundary and ciphertext.
pub proof fn lemma_pgp_envelope_prefix(b: Seq<u8>, a: Seq<u8>)
    ensures
        spec_pgp_envelope(b, a).subrange(0, 34) == "Content-Type: multipart/encrypted;".spec_bytes(),
{
    reveal_strlit(
        "Content-Type: multipart/encrypted;\r\n\tprotocol=\"application/pgp-encrypted\";\r\n\tboundary=\"",
    );
    reveal_strlit("Content-Type: multipart/encrypted;");
    vstd::string::is_ascii_spec_bytes(
        "Content-Type: multipart/encrypted;\r\n\tprotocol=\"application/pgp-encrypted\";\r\n\tboundary=\"",
    );
    vstd::string::is_ascii_spec_bytes("Content-Type: multipart/encrypted;");
    assert(spec_pgp_envelope(b, a).subrange(0, 34)
        =~= "Content-Type: multipart/encrypted;".spec_bytes());
}

/// The S/MIME envelope announces `application/pkcs7-mime` in its very
/// first bytes, whatever the CMS payload.
pub proof fn lemma_smime_envelope_prefix(der: Seq<u8>)
    ensures
        spec_smime_envelope(der).subrange(0, 37)
            == "Content-Type: application/pkcs7-mime;".spec_bytes(),
{
    reveal_strlit(
        "Content-Type: application/pkcs7-mime;\r\n\tname=\"smime.p7m\";\r\n\tsmime-type=enveloped-data\r\nContent-Disposition: attachment;\r\n\tfilename=\"smime.p7m\"\r\nContent-Transfer-Encoding: base64\r\n\r\n",
    );
    reveal_strlit("Content-Type: application/pkcs7-mime;");
    vstd::string::is_ascii_spec_bytes(
        "Content-Type: application/pkcs7-mime;\r\n\tname=\"smime.p7m\";\r\n\tsmime-type=enveloped-data\r\nContent-Disposition: attachment;\r\n\tfilename=\"smime.p7m\"\r\nContent-Transfer-Encoding: base64\r\n\r\n",
    );
    vstd::string::is_ascii_spec_bytes("Content-Type: application/pkcs7-mime;");
    assert(spec_smime_envelope(der).subrange(0, 37)
        =~= "Content-Type: application/pkcs7-mime;".spec_bytes());
}

/// A message whose parsed top-level content type is what the builders
/// announce — `multipart/encrypted` or `application/pkcs7-mime` — is
/// detected as already encrypted: once an encrypted output is parsed
/// back, a second encryption fails with `AlreadyEncrypted`.
pub proof fn lemma_output_detected(msg: ParsedMessage)
    requires
        msg.content_type matches Some(ct) && ct.sub_type matches Some(st) && ((
        crate::bytes_util::lower(ct.main_type@) == "multipart".spec_bytes()
            && crate::bytes_util::lower(st@) == "encrypted".spec_bytes()) || (
        crate::bytes_util::lower(ct.main_type@) == "application".spec_bytes()
            && crate::bytes_util::lower(st@) == "pkcs7-mime".spec_bytes())),
    ensures
        spec_is_encrypted(msg),
{
}

/// What a parsed message must offer: the already-encrypted predicate and
/// the encrypt operation.
pub trait EncryptMessage {
    /// Well-formedness of the message value.
    spec fn em_wf(&self) -> bool;

    /// Whether the value is detected as already encrypted.
    spec fn em_encrypted(&self) -> bool;

    /// The header block that stays visible in the outer envelope.
    spec fn em_outer(&self) -> Seq<u8>;

    fn encrypt(&self, params: &EncryptionParams) -> (r: Result<Vec<u8>, EncryptMessageError>)
        requires
            self.em_wf(),
            params.wf(),
        ensures
            (r matches Err(e) && e is AlreadyEncrypted) <==> self.em_encrypted(),
            r matches Ok(out) ==> match params.spec_method() {
                EncryptionMethod::PGP => (forall|k: int|
                    0 <= k < params.spec_certs().len() ==> is_pgp_public_key(
                        #[trigger] params.spec_certs()[k],
                    )) && exists|b: Seq<u8>, a: Seq<u8>|
                    spec_boundary_ok(b) && out@ == self.em_outer() + spec_pgp_envelope(b, a),
                EncryptionMethod::SMIME => (forall|k: int|
                    0 <= k < params.spec_certs().len() ==> is_x509_cert(
                        #[trigger] params.spec_certs()[k],
                    )) && exists|env: Seq<u8>|
                    out@ == self.em_outer() + spec_smime_envelope(cms_content_info_of(env)),
            },
    ;

    fn is_encrypted(&self) -> (r: bool)
        requires
            self.em_wf(),
        ensures
            r == self.em_encrypted(),
    ;
}

impl EncryptMessage for ParsedMessage {
    open spec fn em_wf(&self) -> bool {
        self.wf()
    }

    open spec fn em_encrypted(&self) -> bool {
        spec_is_encrypted(*self)
    }

    open spec fn em_outer(&self) -> Seq<u8> {
        spec_outer(*self)
    }

    fn encrypt(&self, params: &EncryptionParams) -> (r: Result<Vec<u8>, EncryptMessageError>) {
        crate::envelope::encrypt(self, params)
    }

    fn is_encrypted(&self) -> (r: bool) {
        crate::message::is_encrypted(self)
    }
}

} // verus!
