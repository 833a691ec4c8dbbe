//! Sources of randomness: the thread-local CSPRNG and the OS CSPRNG.

use vstd::prelude::*;

verus! {

/// Twelve bytes from the thread-local CSPRNG (`rand::thread_rng().fill_bytes`).
/// Nothing is stated of the bytes: they are random.
#[verifier::external_body]
pub(crate) fn random_12() -> [u8; 12] {
    let mut out = [0u8; 12];
    rand::RngCore::fill_bytes(&mut rand::thread_rng(), &mut out);
    out
}

/// Thirty-two bytes from the thread-local CSPRNG (`rand::thread_rng().fill_bytes`).
/// Nothing is stated of the bytes: they are random.
#[verifier::external_body]
pub(crate) fn random_32() -> [u8; 32] {
    let mut out = [0u8; 32];
    rand::RngCore::fill_bytes(&mut rand::thread_rng(), &mut out);
    out
}

/// Thirty-two bytes from the operating system's CSPRNG
/// (`rand::rngs::OsRng.fill_bytes`). Nothing is stated of the bytes.
#[verifier::external_body]
pub(crate) fn os_random_32() -> [u8; 32] {
    let mut out = [0u8; 32];
    rand::RngCore::fill_bytes(&mut rand::rngs::OsRng, &mut out);
    out
}

} // verus!
