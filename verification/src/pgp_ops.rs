//! Trusted wrappers around the OpenPGP crate: key parsing, the
//! literal-data packet, encryption to a key set and ASCII armoring.

use pgp::Deserializable;

use vstd::prelude::*;

verus! {

#[verifier::external_type_specification]
#[verifier::external_body]
pub struct ExSignedPublicKey(pgp::SignedPublicKey);

#[verifier::external_type_specification]
#[verifier::external_body]
pub struct ExPgpMessage(pgp::composed::message::Message);

#[verifier::external_type_specification]
#[verifier::external_body]
pub struct ExSymmetricKeyAlgorithm(pgp::crypto::sym::SymmetricKeyAlgorithm);

/// Whether the bytes parse as an OpenPGP transferable public key.
pub uninterp spec fn is_pgp_public_key(s: Seq<u8>) -> bool;

/// Relies on pgp::SignedPublicKey::from_bytes (Deserializable): parsing
/// is a pure function of the input bytes. The error message is the
/// given prefix followed by the crate's error.
#[verifier::external_body]
pub(crate) fn parse_pgp_key(bytes: &[u8], err_prefix: &str) -> (r: Result<
    pgp::SignedPublicKey,
    String,
>)
    ensures
        r is Ok <==> is_pgp_public_key(bytes@),
{
    pgp::SignedPublicKey::from_bytes(bytes).map_err(|err| format!("{}: {}", err_prefix, err))
}

/// Relies on pgp::composed::message::Message::new_literal_bytes: wraps
/// the plaintext in a literal-data packet (file name `none`).
#[verifier::external_body]
pub(crate) fn pgp_literal_message(data: &[u8]) -> pgp::composed::message::Message {
    pgp::composed::message::Message::new_literal_bytes("none", data)
}

/// Relies on pgp::crypto::sym::SymmetricKeyAlgorithm::AES128.
#[verifier::external_body]
pub(crate) fn sym_alg_aes128() -> pgp::crypto::sym::SymmetricKeyAlgorithm {
    pgp::crypto::sym::SymmetricKeyAlgorithm::AES128
}

/// Relies on pgp::crypto::sym::SymmetricKeyAlgorithm::AES256.
#[verifier::external_body]
pub(crate) fn sym_alg_aes256() -> pgp::crypto::sym::SymmetricKeyAlgorithm {
    pgp::crypto::sym::SymmetricKeyAlgorithm::AES256
}

/// Relies on pgp::composed::message::Message::encrypt_to_keys: encrypts
/// the literal data once with a fresh session key and wraps the session
/// key to every given public key; the result depends on the RNG, so
/// nothing is promised of it.
#[verifier::external_body]
pub(crate) fn pgp_encrypt_to_keys(
    msg: &pgp::composed::message::Message,
    rng: &mut rand::rngs::StdRng,
    alg: pgp::crypto::sym::SymmetricKeyAlgorithm,
    keys: &Vec<pgp::SignedPublicKey>,
) -> Result<pgp::composed::message::Message, String> {
    msg.encrypt_to_keys(rng, alg, &keys.iter().collect::<Vec<_>>()).map_err(
        |err| format!("Failed to encrypt message: {}", err),
    )
}

/// Relies on pgp::composed::message::Message::to_armored_string with no
/// extra headers; the armored text is returned as bytes.
#[verifier::external_body]
pub(crate) fn pgp_armor(msg: &pgp::composed::message::Message) -> Result<Vec<u8>, String> {
    msg.to_armored_string(None).map(|s| s.into_bytes()).map_err(
        |err| format!("Failed to convert to armored string: {}", err),
    )
}

} // verus!
