//! The TLS-ALPN-01 challenge detector: whether a TLS client hello's ALPN
//! list asks for the ACME validation protocol.

use vstd::prelude::*;

use crate::bytes_util::eq_bytes;

verus! {

use vstd::string::StringSliceAdditionalSpecFns;

/// The ALPN protocol name of the TLS-ALPN-01 ACME challenge.
pub open spec fn spec_acme_alpn() -> Seq<u8> {
    "acme-tls/1".spec_bytes()
}

/// The ACME challenge ALPN protocol name, as bytes.
pub fn acme_alpn_protocol() -> (r: Vec<u8>)
    ensures
        r@ == spec_acme_alpn(),
{
    let mut v: Vec<u8> = Vec::new();
    crate::bytes_util::push_str(&mut v, "acme-tls/1");
    proof {
        assert(v@ =~= spec_acme_alpn());
    }
    v
}

/// A client hello asks for the challenge exactly when its ALPN list is
/// the one ACME protocol name and nothing else.
pub open spec fn spec_is_tls_alpn_challenge(protocols: Seq<Seq<u8>>) -> bool {
    protocols.len() == 1 && protocols[0] == spec_acme_alpn()
}

/// Decides the challenge predicate over the hello's ALPN protocol list.
pub fn is_acme_tls_alpn(protocols: &Vec<Vec<u8>>) -> (r: bool)
    ensures
        r == spec_is_tls_alpn_challenge(protocols.deep_view()),
{
    if protocols.len() != 1 {
        return false;
    }
    proof {
        assert(protocols.deep_view()[0] =~= protocols@[0]@);
    }
    eq_bytes(protocols[0].as_slice(), "acme-tls/1".as_bytes())
}

/// What a TLS client-hello value must offer: the ACME TLS-ALPN-01
/// challenge predicate.
pub trait IsTlsAlpnChallenge {
    fn is_tls_alpn_challenge(&self) -> bool;
}

} // verus!
