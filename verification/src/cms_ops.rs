//! Trusted wrappers around the S/MIME primitives: X.509 decoding, RSA
//! key wrapping, AES-CBC bulk encryption and the CMS DER encoders.

use aes::cipher::BlockEncryptMut;
use aes::cipher::KeyIvInit;
use rsa::pkcs1::DecodeRsaPublicKey;

use vstd::prelude::*;

verus! {

#[verifier::external_type_specification]
#[verifier::external_body]
pub struct ExCertificate(rasn_pkix::Certificate);

#[verifier::external_type_specification]
#[verifier::external_body]
pub struct ExRecipientInfo(rasn_cms::RecipientInfo);

#[verifier::external_type_specification]
#[verifier::external_body]
pub struct ExRsaPublicKey(rsa::RsaPublicKey);

#[verifier::external_type_specification]
#[verifier::external_body]
pub struct ExObjectIdentifier(rasn::types::ObjectIdentifier);

/// Whether the bytes decode as a DER X.509 certificate.
pub uninterp spec fn is_x509_cert(s: Seq<u8>) -> bool;

/// Relies on rasn::der::decode::<rasn_pkix::Certificate>: DER decoding is
/// a pure function of the input bytes. The error message is the given
/// prefix followed by the crate's error.
#[verifier::external_body]
pub(crate) fn decode_x509(bytes: &[u8], err_prefix: &str) -> (r: Result<
    rasn_pkix::Certificate,
    String,
>)
    ensures
        r is Ok <==> is_x509_cert(bytes@),
{
    rasn::der::decode::<rasn_pkix::Certificate>(bytes).map_err(
        |err| format!("{}: {}", err_prefix, err),
    )
}

/// Picks the raw `subjectPublicKey` bits out of the certificate's
/// subjectPublicKeyInfo.
#[verifier::external_body]
pub(crate) fn spki_key_bits(cert: &rasn_pkix::Certificate) -> Vec<u8> {
    cert.tbs_certificate.subject_public_key_info.subject_public_key.as_raw_slice().to_vec()
}

/// Relies on rsa::RsaPublicKey::from_pkcs1_der: parses a PKCS#1 RSA
/// public key.
#[verifier::external_body]
pub(crate) fn rsa_from_pkcs1_der(bytes: &[u8]) -> Result<rsa::RsaPublicKey, String> {
    rsa::RsaPublicKey::from_pkcs1_der(bytes).map_err(
        |err| format!("Failed to parse public key: {}", err),
    )
}

/// Relies on rsa::RsaPublicKey::encrypt with RSAES-PKCS1-v1_5: wraps the
/// symmetric key; the result depends on the RNG, so nothing is promised
/// of it.
#[verifier::external_body]
pub(crate) fn rsa_encrypt(
    rng: &mut rand::rngs::StdRng,
    key: &rsa::RsaPublicKey,
    data: &[u8],
) -> Result<Vec<u8>, String> {
    key.encrypt(rng, rsa::Pkcs1v15Encrypt, data).map_err(
        |err| format!("Failed to encrypt key: {}", err),
    )
}

/// What AES-128-CBC with PKCS#7 padding produces.
pub uninterp spec fn aes128_cbc_of(key: Seq<u8>, iv: Seq<u8>, data: Seq<u8>) -> Seq<u8>;

/// What AES-256-CBC with PKCS#7 padding produces.
pub uninterp spec fn aes256_cbc_of(key: Seq<u8>, iv: Seq<u8>, data: Seq<u8>) -> Seq<u8>;

/// Relies on cbc::Encryptor::<aes::Aes128>: AES-128-CBC with PKCS#7
/// padding, deterministic in key, IV and plaintext; the output is padded
/// to the next whole block. The constructor panics on wrong key or IV
/// sizes, hence the requires.
#[verifier::external_body]
pub(crate) fn aes128_cbc_encrypt(key: &[u8], iv: &[u8], data: &[u8]) -> (r: Vec<u8>)
    requires
        key@.len() == 16,
        iv@.len() == 16,
    ensures
        r@ == aes128_cbc_of(key@, iv@, data@),
        r@.len() == (data@.len() / 16 + 1) * 16,
{
    cbc::Encryptor::<aes::Aes128>::new(key.into(), iv.into()).encrypt_padded_vec_mut::<
        aes::cipher::block_padding::Pkcs7,
    >(data)
}

/// Relies on cbc::Encryptor::<aes::Aes256>: AES-256-CBC with PKCS#7
/// padding, deterministic in key, IV and plaintext; the output is padded
/// to the next whole block. The constructor panics on wrong key or IV
/// sizes, hence the requires.
#[verifier::external_body]
pub(crate) fn aes256_cbc_encrypt(key: &[u8], iv: &[u8], data: &[u8]) -> (r: Vec<u8>)
    requires
        key@.len() == 32,
        iv@.len() == 16,
    ensures
        r@ == aes256_cbc_of(key@, iv@, data@),
        r@.len() == (data@.len() / 16 + 1) * 16,
{
    cbc::Encryptor::<aes::Aes256>::new(key.into(), iv.into()).encrypt_padded_vec_mut::<
        aes::cipher::block_padding::Pkcs7,
    >(data)
}

/// Relies on rasn_cms::algorithms::AES128_CBC: the aes128-CBC OID.
#[verifier::external_body]
pub(crate) fn oid_aes128_cbc() -> rasn::types::ObjectIdentifier {
    rasn_cms::algorithms::AES128_CBC.into()
}

/// Relies on rasn_cms::algorithms::AES256_CBC: the aes256-CBC OID.
#[verifier::external_body]
pub(crate) fn oid_aes256_cbc() -> rasn::types::ObjectIdentifier {
    rasn_cms::algorithms::AES256_CBC.into()
}

/// Builds the per-recipient CMS KeyTransRecipientInfo: version 0, the
/// issuer and serial number copied from the certificate, rsaEncryption
/// with NULL parameters (the DER NULL bytes are passed in), and the
/// RSA-wrapped key.
#[verifier::external_body]
pub(crate) fn recipient_info_for(
    cert: &rasn_pkix::Certificate,
    der_null: Vec<u8>,
    encrypted_key: Vec<u8>,
) -> rasn_cms::RecipientInfo {
    let tbs = &cert.tbs_certificate;
    let rid = rasn_cms::RecipientIdentifier::IssuerAndSerialNumber(
        rasn_cms::IssuerAndSerialNumber { issuer: tbs.issuer.clone(), serial_number: tbs.serial_number.clone() },
    );
    let alg = rasn_cms::AlgorithmIdentifier {
        algorithm: rasn_cms::algorithms::RSA.into(),
        parameters: Some(rasn::types::Any::new(der_null)),
    };
    rasn_cms::RecipientInfo::KeyTransRecipientInfo(rasn_cms::KeyTransRecipientInfo {
        version: 0.into(), rid, key_encryption_algorithm: alg,
        encrypted_key: rasn_cms::EncryptedKey::from(encrypted_key),
    })
}

/// The recipient-info set of the CMS EnvelopedData (a DER SET OF, backed
/// by rasn's ordered set), held behind an opaque struct.
#[verifier::external_body]
pub struct RecipientInfoSet {
    inner: rasn_cms::RecipientInfos,
}

/// How many recipient records the set holds.
pub uninterp spec fn recipient_count(s: RecipientInfoSet) -> nat;

/// Relies on the ordered set's constructor: a fresh empty set.
#[verifier::external_body]
pub(crate) fn new_recipient_set() -> (r: RecipientInfoSet)
    ensures
        recipient_count(r) == 0,
{
    RecipientInfoSet { inner: rasn_cms::RecipientInfos::new() }
}

/// Relies on the ordered set's insert: adds the record unless an equal
/// one is already present.
#[verifier::external_body]
pub(crate) fn insert_recipient(set: &mut RecipientInfoSet, info: rasn_cms::RecipientInfo)
    ensures
        recipient_count(*final(set)) == recipient_count(*old(set)) + 1 || recipient_count(
            *final(set),
        ) == recipient_count(*old(set)),
{
    set.inner.insert(info);
}

/// DER-encodes the CMS EnvelopedData: version 0, no originator info, the
/// recipient set, and the encrypted content under id-data with the given
/// content-encryption OID and DER-encoded IV as parameters; no
/// unprotected attributes.
#[verifier::external_body]
pub(crate) fn der_encode_enveloped_data(
    recipients: RecipientInfoSet,
    alg: rasn::types::ObjectIdentifier,
    iv_der: Vec<u8>,
    ciphertext: Vec<u8>,
) -> Result<Vec<u8>, String> {
    let eci = rasn_cms::EncryptedContentInfo {
        content_type: rasn_cms::CONTENT_DATA.into(),
        content_encryption_algorithm: rasn_cms::AlgorithmIdentifier {
            algorithm: alg, parameters: Some(rasn::types::Any::new(iv_der)),
        },
        encrypted_content: Some(rasn_cms::EncryptedContent::from(ciphertext)),
    };
    rasn::der::encode(&rasn_cms::EnvelopedData {
        version: 0.into(), originator_info: None, recipient_infos: recipients.inner,
        encrypted_content_info: eci, unprotected_attrs: None,
    }).map_err(|err| format!("Failed to encode EnvelopedData: {}", err))
}

/// DER-encodes the IV as an OCTET STRING (tag 0x04, short-form length).
#[verifier::external_body]
pub(crate) fn der_encode_octet_string(iv: &[u8]) -> (r: Result<Vec<u8>, String>)
    ensures
        iv@.len() < 128 ==> (r matches Ok(v) ==> v@ == seq![4u8, iv@.len() as u8] + iv@),
{
    rasn::der::encode(&rasn::types::OctetString::from(iv.to_vec())).map_err(
        |err| format!("Failed to encode IV: {}", err),
    )
}

/// What DER-encoding a ContentInfo with contentType = id-envelopedData
/// around the given content yields.
pub uninterp spec fn cms_content_info_of(content: Seq<u8>) -> Seq<u8>;

/// Wraps the EnvelopedData DER in a ContentInfo with contentType =
/// id-envelopedData and DER-encodes the whole; encoding is a pure
/// function of the content bytes.
#[verifier::external_body]
pub(crate) fn der_encode_content_info(content: Vec<u8>) -> (r: Result<Vec<u8>, String>)
    ensures
        r matches Ok(v) ==> v@ == cms_content_info_of(content@),
{
    rasn::der::encode(
        &rasn_cms::pkcs7_compat::EncapsulatedContentInfo {
            content_type: rasn_cms::CONTENT_ENVELOPED_DATA.into(),
            content: Some(rasn::types::Any::new(content)),
        },
    ).map_err(|err| format!("Failed to encode ContentInfo: {}", err))
}

} // verus!
