//! Tests of the parameter codec, the method/algorithm selection, the
//! ALPN challenge detector, the already-encrypted detector and the
//! message splitter.

use mail_crypto::message::split_message;
use mail_crypto::message::ParsedMessage;
use mail_crypto::message::RawHeader;
use mail_crypto::message::TopContentType;
use mail_crypto::Algorithm;
use mail_crypto::CryptoError;
use mail_crypto::EncryptionMethod;
use mail_crypto::EncryptionParams;
use mail_parser::MimeHeaders;
use mail_crypto::form::select_algorithm;
use mail_crypto::alpn::is_acme_tls_alpn;
use mail_crypto::message::is_encrypted;

fn to_parsed(raw: &[u8]) -> ParsedMessage {
    let m = mail_parser::MessageParser::default().parse(raw).unwrap();
    let root = m.root_part();
    let mut headers = Vec::new();
    for h in root.headers() {
        headers.push(RawHeader {
            name: h.name.as_str().as_bytes().to_vec(),
            offset_field: h.offset_field(),
            offset_end: h.offset_end(),
        });
    }
    let content_type = m.content_type().map(|ct| TopContentType {
        main_type: ct.c_type.as_bytes().to_vec(),
        sub_type: ct.c_subtype.as_ref().map(|s| s.as_bytes().to_vec()),
    });
    let attachment_name = m.attachment_name().map(|s| s.as_bytes().to_vec());
    ParsedMessage {
        raw: raw.to_vec(),
        headers,
        raw_body_offset: root.raw_body_offset(),
        content_type,
        attachment_name,
    }
}

#[test]
fn serialize_starts_with_version_byte() {
    let params = EncryptionParams::new(
        EncryptionMethod::PGP,
        Algorithm::Aes256,
        vec![b"key_a".to_vec()],
    );
    let bytes = params.serialize();
    assert_eq!(bytes[0], 0x01);
}

#[test]
fn serialize_deserialize_roundtrip() {
    let certs = vec![b"first-cert".to_vec(), b"second".to_vec(), vec![]];
    let params = EncryptionParams::new(EncryptionMethod::SMIME, Algorithm::Aes128, certs.clone());
    let bytes = params.serialize();
    let back = EncryptionParams::deserialize(&bytes).unwrap();
    assert!(matches!(back.method(), EncryptionMethod::SMIME));
    assert!(matches!(back.algo(), Algorithm::Aes128));
    assert_eq!(back.certs(), &certs);
}

#[test]
fn roundtrip_every_method_and_algorithm() {
    for (m, a) in [
        (EncryptionMethod::PGP, Algorithm::Aes128),
        (EncryptionMethod::PGP, Algorithm::Aes256),
        (EncryptionMethod::SMIME, Algorithm::Aes128),
        (EncryptionMethod::SMIME, Algorithm::Aes256),
    ] {
        let params = EncryptionParams::new(m, a, vec![vec![1, 2, 3]]);
        let back = EncryptionParams::deserialize(&params.serialize()).unwrap();
        assert_eq!(back.method(), m);
        assert!(matches!(
            (back.algo(), a),
            (Algorithm::Aes128, Algorithm::Aes128) | (Algorithm::Aes256, Algorithm::Aes256)
        ));
        assert_eq!(back.certs(), params.certs());
    }
}

#[test]
fn unknown_version_byte_is_rejected() {
    let params = EncryptionParams::new(
        EncryptionMethod::PGP,
        Algorithm::Aes256,
        vec![b"key_a".to_vec()],
    );
    let mut bytes = params.serialize();
    assert_eq!(bytes[0], 0x01);
    bytes[0] = 0x02;
    match EncryptionParams::deserialize(&bytes) {
        Err(CryptoError::UnknownVersion) => {},
        other => panic!("expected UnknownVersion, got {:?}", other.map(|_| ())),
    }
}

#[test]
fn empty_and_truncated_payloads_are_rejected() {
    assert!(matches!(
        EncryptionParams::deserialize(&[]),
        Err(CryptoError::InvalidParams)
    ));
    assert!(matches!(
        EncryptionParams::deserialize(&[0x01]),
        Err(CryptoError::UnknownVersion)
    ));
    assert!(matches!(
        EncryptionParams::deserialize(&[0x01, 0, 0, 0]),
        Err(CryptoError::InvalidParams)
    ));
    let params = EncryptionParams::new(
        EncryptionMethod::SMIME,
        Algorithm::Aes128,
        vec![b"abcdef".to_vec()],
    );
    let bytes = params.serialize();
    assert!(matches!(
        EncryptionParams::deserialize(&bytes[..bytes.len() - 1]),
        Err(CryptoError::InvalidParams)
    ));
    let mut extended = bytes.clone();
    extended.push(0);
    assert!(matches!(
        EncryptionParams::deserialize(&extended),
        Err(CryptoError::InvalidParams)
    ));
}

#[test]
fn select_algorithm_matches_method() {
    assert!(matches!(
        select_algorithm(b"pgp-256", EncryptionMethod::PGP),
        Ok(Algorithm::Aes256)
    ));
    assert!(matches!(
        select_algorithm(b"pgp-128", EncryptionMethod::PGP),
        Ok(Algorithm::Aes128)
    ));
    assert!(matches!(
        select_algorithm(b"smime-256", EncryptionMethod::SMIME),
        Ok(Algorithm::Aes256)
    ));
    assert!(matches!(
        select_algorithm(b"smime-128", EncryptionMethod::SMIME),
        Ok(Algorithm::Aes128)
    ));
    assert!(matches!(
        select_algorithm(b"pgp-256", EncryptionMethod::SMIME),
        Err(CryptoError::MethodMismatch)
    ));
    assert!(matches!(
        select_algorithm(b"smime-128", EncryptionMethod::PGP),
        Err(CryptoError::MethodMismatch)
    ));
    assert!(matches!(
        select_algorithm(b"disable", EncryptionMethod::PGP),
        Err(CryptoError::MethodMismatch)
    ));
}

#[test]
fn error_messages_match() {
    assert_eq!(
        CryptoError::MixedMethods.message(),
        "Cannot mix PGP and S/MIME certificates"
    );
    assert_eq!(
        CryptoError::NoCertificates.message(),
        "Could not find any valid certificates"
    );
    assert_eq!(
        CryptoError::InvalidCertificate("boom".to_string()).message(),
        "boom"
    );
}

#[test]
fn alpn_challenge_detection() {
    assert!(is_acme_tls_alpn(&vec![b"acme-tls/1".to_vec()]));
    assert!(!is_acme_tls_alpn(&vec![b"h2".to_vec()]));
    assert!(!is_acme_tls_alpn(&vec![
        b"acme-tls/1".to_vec(),
        b"h2".to_vec()
    ]));
    assert!(!is_acme_tls_alpn(&vec![]));
    assert_eq!(mail_crypto::alpn::acme_alpn_protocol(), b"acme-tls/1");
}

#[test]
fn detector_true_cases() {
    let m1 = to_parsed(b"Content-Type: multipart/encrypted; boundary=x\r\n\r\nbody\r\n");
    assert!(is_encrypted(&m1));
    let m2 = to_parsed(b"Content-Type: application/pkcs7-mime\r\n\r\nbody\r\n");
    assert!(is_encrypted(&m2));
    let m3 = to_parsed(
        b"Content-Type: application/octet-stream; name=\"foo.P7M\"\r\n\r\nbody\r\n",
    );
    assert!(is_encrypted(&m3));
    let m4 = to_parsed(b"Content-Type: Application/PKCS7-Signature\r\n\r\nbody\r\n");
    assert!(is_encrypted(&m4));
}

#[test]
fn detector_false_cases() {
    let m1 = to_parsed(b"Content-Type: text/plain\r\n\r\nbody\r\n");
    assert!(!is_encrypted(&m1));
    let m2 = to_parsed(
        b"Content-Type: application/octet-stream; name=\"foo.bin\"\r\n\r\nbody\r\n",
    );
    assert!(!is_encrypted(&m2));
    let m3 = to_parsed(b"Subject: hello\r\n\r\nbody\r\n");
    assert!(!is_encrypted(&m3));
}

#[test]
fn splitter_partitions_headers() {
    let raw: &[u8] = b"From: a@x\r\nTo: b@y\r\nSubject: s\r\nContent-Type: text/plain\r\nMIME-Version: 1.0\r\n\r\nBody\r\n";
    let msg = to_parsed(raw);
    let (outer, inner) = split_message(&msg);
    assert_eq!(
        outer,
        b"From: a@x\r\nTo: b@y\r\nSubject: s\r\n".to_vec()
    );
    assert_eq!(
        inner,
        b"Content-Type: text/plain\r\nMIME-Version: 1.0\r\n\r\nBody\r\n".to_vec()
    );
}

#[test]
fn splitter_keeps_body_without_mime_headers() {
    let raw: &[u8] = b"Subject: hi\r\n\r\nBody\r\n";
    let msg = to_parsed(raw);
    let (outer, inner) = split_message(&msg);
    assert_eq!(outer, b"Subject: hi\r\n".to_vec());
    assert_eq!(inner, b"\r\nBody\r\n".to_vec());
}
