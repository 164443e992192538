//! Core data model: encryption method, symmetric algorithm, the persisted
//! per-account parameter record, and the error kinds the core surfaces.

use vstd::prelude::*;

verus! {

/// Wire format of the produced envelope: OpenPGP/MIME or S/MIME
/// enveloped-data.
#[derive(Debug, Clone, Copy, PartialEq, Eq, Structural)]
pub enum EncryptionMethod {
    PGP,
    SMIME,
}

/// Symmetric bulk-encryption algorithm: AES in CBC mode with a 16- or
/// 32-byte key (for PGP the matching OpenPGP symmetric-key algorithm).
#[derive(Debug, Clone, Copy, PartialEq, Eq, Structural)]
pub enum Algorithm {
    Aes128,
    Aes256,
}

impl Algorithm {
    /// Length in bytes of the symmetric key this algorithm uses.
    pub open spec fn spec_key_size(self) -> usize {
        match self {
            Algorithm::Aes128 => 16,
            Algorithm::Aes256 => 32,
        }
    }

    pub fn key_size(&self) -> (r: usize)
        ensures
            r == self.spec_key_size(),
    {
        match self {
            Algorithm::Aes128 => 16,
            Algorithm::Aes256 => 32,
        }
    }
}

/// Failure of the message-encryption operation. `AlreadyEncrypted` means
/// the caller must forward the message unchanged.
#[derive(Debug)]
pub enum EncryptMessageError {
    AlreadyEncrypted,
    Error(String),
}

/// Error kinds surfaced by certificate ingestion, parameter persistence
/// and method selection.
#[derive(Debug)]
pub enum CryptoError {
    /// A PEM block or raw blob failed to parse or validate; the payload
    /// is a human-readable reason.
    InvalidCertificate(String),
    /// The PEM bundle contained both PGP and S/MIME markers.
    MixedMethods,
    /// The bundle parsed to zero keys.
    NoCertificates,
    /// The form-selected method disagrees with the detected method.
    MethodMismatch,
    /// The persisted record's version prefix is not a known version.
    UnknownVersion,
    /// The persisted record's payload is truncated or malformed.
    InvalidParams,
}

impl CryptoError {
    /// The human-readable message of this error.
    pub fn message(self) -> (r: String)
        ensures
            self matches CryptoError::InvalidCertificate(s) ==> r@ == s@,
            self is MixedMethods ==> r@ == "Cannot mix PGP and S/MIME certificates"@,
            self is NoCertificates ==> r@ == "Could not find any valid certificates"@,
            self is MethodMismatch ==> r@ == "No valid certificates found for the selected encryption"@,
            self is UnknownVersion ==> r@ == "Unknown encryption params version"@,
            self is InvalidParams ==> r@ == "Failed to deserialize encryption params"@,
    {
        match self {
            CryptoError::InvalidCertificate(s) => s,
            CryptoError::MixedMethods => "Cannot mix PGP and S/MIME certificates".to_owned(),
            CryptoError::NoCertificates => "Could not find any valid certificates".to_owned(),
            CryptoError::MethodMismatch => "No valid certificates found for the selected encryption".to_owned(),
            CryptoError::UnknownVersion => "Unknown encryption params version".to_owned(),
            CryptoError::InvalidParams => "Failed to deserialize encryption params".to_owned(),
        }
    }
}

/// The persisted per-account record: wire method, symmetric algorithm and
/// the ordered recipient-key set. Invariant: `certs` is non-empty.
#[derive(Clone, Debug)]
pub struct EncryptionParams {
    method: EncryptionMethod,
    algo: Algorithm,
    certs: Vec<Vec<u8>>,
}

impl EncryptionParams {
    pub closed spec fn spec_method(self) -> EncryptionMethod {
        self.method
    }

    pub closed spec fn spec_algo(self) -> Algorithm {
        self.algo
    }

    /// The recipient keys, as byte sequences.
    pub closed spec fn spec_certs(self) -> Seq<Seq<u8>> {
        self.certs.deep_view()
    }

    /// Well-formedness: at least one recipient key.
    pub closed spec fn wf(self) -> bool {
        self.spec_certs().len() > 0
    }

    pub fn new(method: EncryptionMethod, algo: Algorithm, certs: Vec<Vec<u8>>) -> (r: Self)
        requires
            certs@.len() > 0,
        ensures
            r.spec_method() == method,
            r.spec_algo() == algo,
            r.spec_certs() == certs.deep_view(),
            r.wf(),
    {
        EncryptionParams { method, algo, certs }
    }

    pub fn method(&self) -> (r: EncryptionMethod)
        ensures
            r == self.spec_method(),
    {
        self.method
    }

    pub fn algo(&self) -> (r: Algorithm)
        ensures
            r == self.spec_algo(),
    {
        self.algo
    }

    pub fn certs(&self) -> (r: &Vec<Vec<u8>>)
        ensures
            r.deep_view() == self.spec_certs(),
    {
        &self.certs
    }
}

} // verus!
