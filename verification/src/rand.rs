//! Random bytes, from the system's source by way of `ring`.

use vstd::prelude::*;

verus! {

/// Calls `ring::rand::SecureRandom::fill` of a `ring::rand::SystemRandom` on
/// a fresh buffer of `len` bytes.
///
/// Trusted: the buffer that comes back has `len` bytes. Nothing is said of
/// what they are. A failure of the system's source is fatal.
#[verifier::external_body]
pub(crate) fn random_bytes(len: usize) -> (r: Vec<u8>)
    ensures
        r@.len() == len,
{
    let mut bytes = vec![0u8; len];
    ring::rand::SecureRandom::fill(&ring::rand::SystemRandom::new(), &mut bytes).unwrap();
    bytes
}

} // verus!
