//! The decision core of the parameter-upload flow: matching the
//! form-selected encryption kind against the detected certificate method
//! and building the validated parameter record.

use vstd::prelude::*;

use crate::bytes_util::eq_bytes;
use crate::pem::spec_parse_certs;
use crate::pem::try_parse_certs;
use crate::pem::BundleOutcome;
use crate::pem::valid_under;
use crate::types::Algorithm;
use crate::types::CryptoError;
use crate::types::EncryptionMethod;
use crate::types::EncryptionParams;

verus! {

use vstd::string::StringSliceAdditionalSpecFns;

/// The algorithm selected by a form value, provided it agrees with the
/// detected method; anything else is a mismatch.
pub open spec fn spec_select_algorithm(encryption: Seq<u8>, method: EncryptionMethod) -> Option<
    Algorithm,
> {
    if encryption == "pgp-256".spec_bytes() && method is PGP {
        Some(Algorithm::Aes256)
    } else if encryption == "pgp-128".spec_bytes() && method is PGP {
        Some(Algorithm::Aes128)
    } else if encryption == "smime-256".spec_bytes() && method is SMIME {
        Some(Algorithm::Aes256)
    } else if encryption == "smime-128".spec_bytes() && method is SMIME {
        Some(Algorithm::Aes128)
    } else {
        None
    }
}

/// Maps the form's encryption selection and the detected method to the
/// algorithm, or `MethodMismatch` when they disagree.
pub fn select_algorithm(encryption: &[u8], method: EncryptionMethod) -> (r: Result<
    Algorithm,
    CryptoError,
>)
    ensures
        match r {
            Ok(a) => spec_select_algorithm(encryption@, method) == Some(a),
            Err(e) => e is MethodMismatch && spec_select_algorithm(encryption@, method) is None,
        },
{
    let is_pgp = matches!(method, EncryptionMethod::PGP);
    if eq_bytes(encryption, "pgp-256".as_bytes()) && is_pgp {
        Ok(Algorithm::Aes256)
    } else if eq_bytes(encryption, "pgp-128".as_bytes()) && is_pgp {
        Ok(Algorithm::Aes128)
    } else if eq_bytes(encryption, "smime-256".as_bytes()) && !is_pgp {
        Ok(Algorithm::Aes256)
    } else if eq_bytes(encryption, "smime-128".as_bytes()) && !is_pgp {
        Ok(Algorithm::Aes128)
    } else {
        Err(CryptoError::MethodMismatch)
    }
}

/// Ingests an uploaded certificate blob against the form's encryption
/// selection: parses and classifies the bundle, checks the selection
/// agrees with the detected method, and builds the parameter record.
/// The record holds exactly the parsed keys; each failure mirrors what
/// the parse or the selection decided.
pub fn validate_certificate_bundle(encryption: &[u8], certificate: Vec<u8>) -> (r: Result<
    EncryptionParams,
    CryptoError,
>)
    ensures
        match r {
            Ok(p) => {
                &&& spec_parse_certs(certificate@) == BundleOutcome::Keys(
                    p.spec_method(),
                    p.spec_certs(),
                )
                &&& spec_select_algorithm(encryption@, p.spec_method()) == Some(p.spec_algo())
                &&& p.wf()
                &&& forall|k: int|
                    0 <= k < p.spec_certs().len() ==> valid_under(
                        p.spec_method(),
                        #[trigger] p.spec_certs()[k],
                    )
            },
            Err(e) => match e {
                CryptoError::MethodMismatch => spec_parse_certs(certificate@) matches
                    BundleOutcome::Keys(m, _) && spec_select_algorithm(encryption@, m) is None,
                CryptoError::MixedMethods => spec_parse_certs(certificate@) is Mixed,
                CryptoError::InvalidCertificate(_) => spec_parse_certs(certificate@) is Invalid,
                CryptoError::NoCertificates => spec_parse_certs(certificate@) is Nothing,
                _ => false,
            },
        },
{
    let (method, certs) = match try_parse_certs(certificate) {
        Ok(mc) => mc,
        Err(e) => {
            return Err(e);
        },
    };
    let algo = match select_algorithm(encryption, method) {
        Ok(a) => a,
        Err(e) => {
            return Err(e);
        },
    };
    proof {
        assert(certs@.len() == certs.deep_view().len());
    }
    Ok(EncryptionParams::new(method, algo, certs))
}

} // verus!
