//! Trusted wrappers around the process CSPRNG: each encryption call uses
//! its own `StdRng` instance.

use vstd::prelude::*;

verus! {

#[verifier::external_type_specification]
#[verifier::external_body]
pub struct ExStdRng(rand::rngs::StdRng);

/// Relies on rand::rngs::StdRng::from_entropy: a fresh CSPRNG seeded from
/// the operating system.
#[verifier::external_body]
pub(crate) fn new_rng() -> rand::rngs::StdRng {
    rand::SeedableRng::from_entropy()
}

/// Relies on rand::RngCore::fill_bytes: fills the whole buffer in place,
/// keeping its length; the contents are random.
#[verifier::external_body]
pub(crate) fn fill_random(rng: &mut rand::rngs::StdRng, buf: &mut Vec<u8>)
    ensures
        final(buf)@.len() == old(buf)@.len(),
{
    rand::RngCore::fill_bytes(rng, buf.as_mut_slice());
}

} // verus!
