//! Tests of certificate-bundle ingestion and of the two envelope
//! builders, with real keys: encrypt, then decrypt with the matching
//! private key and compare against the expected inner MIME payload.

use chrono::TimeZone;
use mail_crypto::envelope::encrypt;
use mail_crypto::message::ParsedMessage;
use mail_crypto::message::RawHeader;
use mail_crypto::message::TopContentType;
use mail_crypto::try_parse_certs;
use mail_crypto::Algorithm;
use mail_crypto::CryptoError;
use mail_crypto::EncryptMessageError;
use mail_crypto::EncryptionMethod;
use mail_crypto::EncryptionParams;
use pgp::Deserializable;
use rsa::traits::PrivateKeyParts;
use rsa::traits::PublicKeyParts;
use mail_parser::MimeHeaders;
use aes::cipher::{block_padding::Pkcs7, BlockDecryptMut, KeyIvInit};
use mail_crypto::form::validate_certificate_bundle;

fn to_parsed(raw: &[u8]) -> ParsedMessage {
    let m = mail_parser::MessageParser::default().parse(raw).unwrap();
    let root = m.root_part();
    let mut headers = Vec::new();
    for h in root.headers() {
        headers.push(RawHeader {
            name: h.name.as_str().as_bytes().to_vec(),
            offset_field: h.offset_field(),
            offset_end: h.offset_end(),
        });
    }
    let content_type = m.content_type().map(|ct| TopContentType {
        main_type: ct.c_type.as_bytes().to_vec(),
        sub_type: ct.c_subtype.as_ref().map(|s| s.as_bytes().to_vec()),
    });
    let attachment_name = m.attachment_name().map(|s| s.as_bytes().to_vec());
    ParsedMessage {
        raw: raw.to_vec(),
        headers,
        raw_body_offset: root.raw_body_offset(),
        content_type,
        attachment_name,
    }
}

/// A structurally valid self-signed RSA certificate (the signature bits
/// are not checked by the DER decoder) and its private key.
fn make_rsa_cert() -> (Vec<u8>, rsa::RsaPrivateKey) {
    let mut rng = rand::thread_rng();
    let private = rsa::RsaPrivateKey::new(&mut rng, 1024).unwrap();
    let public = private.to_public_key();
    let pk_der = rsa::pkcs1::EncodeRsaPublicKey::to_pkcs1_der(&public)
        .unwrap()
        .as_bytes()
        .to_vec();
    let alg_rsa = rasn_pkix::AlgorithmIdentifier {
        algorithm: rasn_cms::algorithms::RSA.into(),
        parameters: Some(rasn::types::Any::new(vec![5, 0])),
    };
    let name = rasn_pkix::Name::RdnSequence(Vec::new());
    let when = |y: i32| {
        rasn_pkix::Time::Utc(chrono::Utc.with_ymd_and_hms(y, 1, 1, 0, 0, 0).unwrap())
    };
    let tbs = rasn_pkix::TbsCertificate {
        version: rasn_pkix::Version::V3,
        serial_number: 12345.into(),
        signature: alg_rsa.clone(),
        issuer: name.clone(),
        validity: rasn_pkix::Validity {
            not_before: when(2020),
            not_after: when(2040),
        },
        subject: name,
        subject_public_key_info: rasn_pkix::SubjectPublicKeyInfo {
            algorithm: alg_rsa.clone(),
            subject_public_key: rasn::types::BitString::from_vec(pk_der),
        },
        issuer_unique_id: None,
        subject_unique_id: None,
        extensions: None,
    };
    let cert = rasn_pkix::Certificate {
        tbs_certificate: tbs,
        signature_algorithm: alg_rsa,
        signature_value: rasn::types::BitString::from_vec(vec![0u8; 16]),
    };
    (rasn::der::encode(&cert).unwrap(), private)
}

/// Appends an OpenPGP MPI: 2-byte big-endian bit count, then the bytes.
fn push_mpi(x: &rsa::BigUint, out: &mut Vec<u8>) {
    let bits = x.bits() as u16;
    out.extend_from_slice(&bits.to_be_bytes());
    out.extend_from_slice(&x.to_bytes_be());
}

/// An RSA OpenPGP key pair: the armored public key and the signed secret
/// key. The RSA key comes from the rsa crate (1024 bits, quick in an
/// unoptimized build) and is wrapped as a v4 plaintext secret-key packet.
fn make_pgp_key(user: &str, seed: u64) -> (String, pgp::SignedSecretKey) {
    let mut rng: rand::rngs::StdRng = rand::SeedableRng::seed_from_u64(seed);
    let key = rsa::RsaPrivateKey::new(&mut rng, 1024).unwrap();
    let p = &key.primes()[0];
    let q = &key.primes()[1];
    let two: rsa::BigUint = 2u32.into();
    // q is prime, so p^(q-2) = p^-1 (mod q)
    let u = p.modpow(&(q - &two), q);
    let mut body = vec![4u8];
    body.extend_from_slice(&1700000000u32.to_be_bytes());
    body.push(1); // RSA
    push_mpi(key.n(), &mut body);
    push_mpi(key.e(), &mut body);
    body.push(0); // plaintext secret params
    let mut secret = Vec::new();
    push_mpi(key.d(), &mut secret);
    push_mpi(p, &mut secret);
    push_mpi(q, &mut secret);
    push_mpi(&u, &mut secret);
    let sum: u32 = secret.iter().map(|&b| b as u32).sum::<u32>() % 65536;
    body.extend_from_slice(&secret);
    body.extend_from_slice(&(sum as u16).to_be_bytes());
    let primary = pgp::packet::SecretKey::from_slice(Default::default(), &body).unwrap();
    let mut keyflags = pgp::packet::KeyFlags::default();
    keyflags.set_certify(true);
    keyflags.set_sign(true);
    keyflags.set_encrypt_comms(true);
    keyflags.set_encrypt_storage(true);
    let details = pgp::composed::KeyDetails::new(
        pgp::packet::UserId::from_str(Default::default(), user),
        vec![],
        vec![],
        keyflags,
        Default::default(),
        Default::default(),
        Default::default(),
        None,
    );
    let secret_key = pgp::composed::SecretKey::new(primary, details, vec![], vec![]);
    let signed_secret = secret_key.sign(|| String::new()).unwrap();
    let public = pgp::types::SecretKeyTrait::public_key(&signed_secret);
    let signed_public = public.sign(&signed_secret, || String::new()).unwrap();
    (signed_public.to_armored_string(None).unwrap(), signed_secret)
}

fn cert_pem(der: &[u8]) -> String {
    let b64 = mail_builder::encoders::base64::base64_encode(der).unwrap();
    format!(
        "-----BEGIN CERTIFICATE-----\n{}\n-----END CERTIFICATE-----\n",
        String::from_utf8(b64).unwrap()
    )
}

#[test]
fn mixed_pem_bundle_is_rejected() {
    let (der, _) = make_rsa_cert();
    let (armored, _) = make_pgp_key("Mixed <mixed@example.com>", 11);
    let blob = format!("{}{}", cert_pem(&der), armored);
    match try_parse_certs(blob.into_bytes()) {
        Err(CryptoError::MixedMethods) => {},
        other => panic!("expected MixedMethods, got {:?}", other.map(|_| ())),
    }
}

#[test]
fn unknown_pem_tags_are_skipped() {
    let (der, _) = make_rsa_cert();
    let blob = format!(
        " \n-----BEGIN FOO BAR-----\nAAAA\n-----END FOO BAR-----\n{}-----BEGIN MYSTERY-----\nBBBB\n-----END MYSTERY-----\n",
        cert_pem(&der)
    );
    let (method, certs) = try_parse_certs(blob.into_bytes()).unwrap();
    assert_eq!(method, EncryptionMethod::SMIME);
    assert_eq!(certs.len(), 1);
    assert_eq!(certs[0], der);
}

#[test]
fn two_certificates_keep_input_order() {
    let (der1, _) = make_rsa_cert();
    let (der2, _) = make_rsa_cert();
    let blob = format!("{}{}", cert_pem(&der1), cert_pem(&der2));
    let (method, certs) = try_parse_certs(blob.into_bytes()).unwrap();
    assert_eq!(method, EncryptionMethod::SMIME);
    assert_eq!(certs, vec![der1, der2]);
}

#[test]
fn raw_der_certificate_is_accepted() {
    let (der, _) = make_rsa_cert();
    let (method, certs) = try_parse_certs(der.clone()).unwrap();
    assert_eq!(method, EncryptionMethod::SMIME);
    assert_eq!(certs, vec![der]);
}

#[test]
fn armored_pgp_key_is_accepted() {
    let (armored, _) = make_pgp_key("One <one@example.com>", 12);
    let (method, certs) = try_parse_certs(armored.into_bytes()).unwrap();
    assert_eq!(method, EncryptionMethod::PGP);
    assert_eq!(certs.len(), 1);
    assert!(pgp::SignedPublicKey::from_bytes(&certs[0][..]).is_ok());
}

#[test]
fn garbage_yields_no_certificates() {
    match try_parse_certs(b"not a certificate at all".to_vec()) {
        Err(CryptoError::NoCertificates) => {},
        other => panic!("expected NoCertificates, got {:?}", other.map(|_| ())),
    }
}

#[test]
fn bad_base64_in_certificate_block_fails() {
    let blob = b"-----BEGIN CERTIFICATE-----\n!!!!\n-----END CERTIFICATE-----\n".to_vec();
    match try_parse_certs(blob) {
        Err(CryptoError::InvalidCertificate(_)) => {},
        other => panic!("expected InvalidCertificate, got {:?}", other.map(|_| ())),
    }
}

fn decrypt_smime(out: &[u8], private: &rsa::RsaPrivateKey, expect_recipients: usize) -> Vec<u8> {
    let parsed = mail_parser::MessageParser::default().parse(out).unwrap();
    let der = parsed.root_part().contents();
    let info: rasn_cms::pkcs7_compat::EncapsulatedContentInfo = rasn::der::decode(der).unwrap();
    let enveloped_oid: rasn::types::ObjectIdentifier = rasn_cms::CONTENT_ENVELOPED_DATA.into();
    assert_eq!(info.content_type, enveloped_oid);
    let enveloped: rasn_cms::EnvelopedData =
        rasn::der::decode(info.content.as_ref().unwrap().as_bytes()).unwrap();
    assert_eq!(enveloped.recipient_infos.len(), expect_recipients);
    let data_oid: rasn::types::ObjectIdentifier = rasn_cms::CONTENT_DATA.into();
    assert_eq!(enveloped.encrypted_content_info.content_type, data_oid);
    let rasn_cms::RecipientInfo::KeyTransRecipientInfo(kt) =
        enveloped.recipient_infos.iter().next().unwrap()
    else {
        panic!("expected a key-transport recipient");
    };
    assert_eq!(kt.version, 0.into());
    let sym_key = private
        .decrypt(rsa::Pkcs1v15Encrypt, kt.encrypted_key.as_ref())
        .unwrap();
    let iv_der = enveloped
        .encrypted_content_info
        .content_encryption_algorithm
        .parameters
        .as_ref()
        .unwrap()
        .as_bytes();
    assert_eq!(iv_der[0], 0x04);
    assert_eq!(iv_der[1] as usize, iv_der.len() - 2);
    let iv = &iv_der[2..];
    let ciphertext = enveloped
        .encrypted_content_info
        .encrypted_content
        .as_ref()
        .unwrap()
        .to_vec();
    match sym_key.len() {
        16 => cbc::Decryptor::<aes::Aes128>::new(sym_key[..].into(), iv.into())
            .decrypt_padded_vec_mut::<Pkcs7>(&ciphertext)
            .unwrap(),
        32 => cbc::Decryptor::<aes::Aes256>::new(sym_key[..].into(), iv.into())
            .decrypt_padded_vec_mut::<Pkcs7>(&ciphertext)
            .unwrap(),
        n => panic!("unexpected key size {}", n),
    }
}

#[test]
fn smime_single_recipient_roundtrip() {
    let (der, private) = make_rsa_cert();
    let params = EncryptionParams::new(EncryptionMethod::SMIME, Algorithm::Aes256, vec![der]);
    let msg = to_parsed(b"Subject: hi\r\n\r\nBody\r\n");
    let out = encrypt(&msg, &params).unwrap();
    assert!(out.starts_with(b"Subject: hi\r\nContent-Type: application/pkcs7-mime;"));
    let plain = decrypt_smime(&out, &private, 1);
    assert_eq!(plain, b"\r\nBody\r\n".to_vec());
}

#[test]
fn smime_recipient_count_matches_certificates() {
    let (der1, private1) = make_rsa_cert();
    let (der2, _) = make_rsa_cert();
    let params = EncryptionParams::new(
        EncryptionMethod::SMIME,
        Algorithm::Aes128,
        vec![der1, der2],
    );
    let msg = to_parsed(b"Subject: two\r\n\r\nBody\r\n");
    let out = encrypt(&msg, &params).unwrap();
    // one of the two recipient records decrypts under the first key
    let parsed = mail_parser::MessageParser::default().parse(&out[..]).unwrap();
    let der = parsed.root_part().contents();
    let info: rasn_cms::pkcs7_compat::EncapsulatedContentInfo = rasn::der::decode(der).unwrap();
    let enveloped: rasn_cms::EnvelopedData =
        rasn::der::decode(info.content.as_ref().unwrap().as_bytes()).unwrap();
    assert_eq!(enveloped.recipient_infos.len(), 2);
    let mut decrypted = 0;
    for ri in enveloped.recipient_infos.iter() {
        let rasn_cms::RecipientInfo::KeyTransRecipientInfo(kt) = ri else {
            panic!("expected a key-transport recipient");
        };
        if private1
            .decrypt(rsa::Pkcs1v15Encrypt, kt.encrypted_key.as_ref())
            .is_ok()
        {
            decrypted += 1;
        }
    }
    assert_eq!(decrypted, 1);
}

fn extract_between<'a>(hay: &'a str, start: &str, end: &str) -> &'a str {
    let s = hay.find(start).unwrap();
    let rest = &hay[s..];
    let e = rest.find(end).unwrap();
    &rest[..e + end.len()]
}

#[test]
fn pgp_two_recipients_roundtrip() {
    let (armored1, secret1) = make_pgp_key("A <a@example.com>", 13);
    let (armored2, secret2) = make_pgp_key("B <b@example.com>", 14);
    let blob = format!("{}{}", armored1, armored2);
    let (method, certs) = try_parse_certs(blob.into_bytes()).unwrap();
    assert_eq!(method, EncryptionMethod::PGP);
    assert_eq!(certs.len(), 2);
    let params = EncryptionParams::new(EncryptionMethod::PGP, Algorithm::Aes128, certs);
    let msg = to_parsed(b"Subject: hi\r\n\r\nBody\r\n");
    let out = encrypt(&msg, &params).unwrap();
    let text = String::from_utf8(out.clone()).unwrap();
    assert!(text.contains("multipart/encrypted"));
    assert!(text.contains("protocol=\"application/pgp-encrypted\""));
    assert!(text.contains("Version: 1"));
    assert!(text.contains("encrypted.asc"));
    // exactly two body parts under a single boundary
    let bstart = text.find("boundary=\"").unwrap() + "boundary=\"".len();
    let bend = bstart + text[bstart..].find('"').unwrap();
    let boundary = &text[bstart..bend];
    let opener = format!("\r\n--{}\r\n", boundary);
    let closer = format!("\r\n--{}--\r\n", boundary);
    assert_eq!(text.matches(&opener).count(), 2);
    assert_eq!(text.matches(&closer).count(), 1);
    let armored_msg = extract_between(&text, "-----BEGIN PGP MESSAGE-----", "-----END PGP MESSAGE-----");
    let (pgp_msg, _) = pgp::composed::message::Message::from_string(armored_msg).unwrap();
    for secret in [&secret1, &secret2] {
        let (mut decrypter, _) = pgp_msg.decrypt(|| String::new(), &[secret]).unwrap();
        let decrypted = decrypter.next().unwrap().unwrap();
        let content = decrypted.get_content().unwrap().unwrap();
        assert_eq!(content, b"\r\nBody\r\n".to_vec());
    }
}

#[test]
fn already_encrypted_input_is_passed_through() {
    let (der, _) = make_rsa_cert();
    let params = EncryptionParams::new(EncryptionMethod::SMIME, Algorithm::Aes256, vec![der]);
    let msg = to_parsed(b"Content-Type: multipart/encrypted; boundary=x\r\n\r\nbody\r\n");
    match encrypt(&msg, &params) {
        Err(EncryptMessageError::AlreadyEncrypted) => {},
        other => panic!("expected AlreadyEncrypted, got {:?}", other.map(|_| ())),
    }
}

#[test]
fn encrypting_twice_fails_with_already_encrypted() {
    let (der, _) = make_rsa_cert();
    let params = EncryptionParams::new(EncryptionMethod::SMIME, Algorithm::Aes256, vec![der]);
    let msg = to_parsed(b"Subject: hi\r\n\r\nBody\r\n");
    let out = encrypt(&msg, &params).unwrap();
    let reparsed = to_parsed(&out);
    assert!(mail_crypto::EncryptMessage::is_encrypted(&reparsed));
    match mail_crypto::EncryptMessage::encrypt(&reparsed, &params) {
        Err(EncryptMessageError::AlreadyEncrypted) => {},
        other => panic!("expected AlreadyEncrypted, got {:?}", other.map(|_| ())),
    }
}

#[test]
fn self_test_encryption_succeeds_for_every_valid_params() {
    let raw = b"Subject: test\r\ntest\r\n";
    let msg = to_parsed(raw);
    let (der, _) = make_rsa_cert();
    let (armored, _) = make_pgp_key("Self <self@example.com>", 15);
    let (_, pgp_certs) = try_parse_certs(armored.into_bytes()).unwrap();
    for algo in [Algorithm::Aes128, Algorithm::Aes256] {
        let p = EncryptionParams::new(EncryptionMethod::SMIME, algo, vec![der.clone()]);
        assert!(encrypt(&msg, &p).is_ok());
        let p = EncryptionParams::new(EncryptionMethod::PGP, algo, pgp_certs.clone());
        assert!(encrypt(&msg, &p).is_ok());
    }
}

#[test]
fn invalid_key_for_method_fails_encryption() {
    let (der, _) = make_rsa_cert();
    // an X.509 DER blob is no PGP key
    let params = EncryptionParams::new(EncryptionMethod::PGP, Algorithm::Aes256, vec![der]);
    let msg = to_parsed(b"Subject: hi\r\n\r\nBody\r\n");
    match encrypt(&msg, &params) {
        Err(EncryptMessageError::Error(e)) => {
            assert!(e.contains("Failed to parse PGP public key"));
        },
        other => panic!("expected Error, got {:?}", other.map(|_| ())),
    }
}

#[test]
fn validate_certificate_bundle_builds_params() {
    let (der, _) = make_rsa_cert();
    let params = validate_certificate_bundle(b"smime-256", der.clone()).unwrap();
    assert_eq!(params.method(), EncryptionMethod::SMIME);
    assert!(matches!(params.algo(), Algorithm::Aes256));
    assert_eq!(params.certs(), &vec![der.clone()]);
    match validate_certificate_bundle(b"pgp-256", der) {
        Err(CryptoError::MethodMismatch) => {},
        other => panic!("expected MethodMismatch, got {:?}", other.map(|_| ())),
    }
}
