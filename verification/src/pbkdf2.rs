//! Key derivation from a passphrase, by the PBKDF2 of `ring`.

use crate::errors::Error;
use crate::metadata::HashFunction;
use vstd::prelude::*;

verus! {

/// The length of the salt that is generated for a new derivation.
pub const SALT_SIZE: usize = 32;

/// The number of iterations of a new derivation.
pub const DEFAULT_ITERATIONS: u64 = 100_000;

/// The floor of strength: the least number of iterations that is accepted.
/// A matter of policy; raise it to refuse weaker headers.
pub const MIN_ITERATIONS: u64 = 1;

/// The floor of strength: the shortest salt that is accepted, eight bytes. A
/// matter of policy; raise it to refuse weaker headers.
pub const MIN_SALT_SIZE: usize = 8;

/// The most iterations that the primitive can be asked for.
pub const MAX_ITERATIONS: u64 = 0xffff_ffff;

/// The longest key that can be derived.
pub const MAX_DERIVED_KEY_SIZE: usize = 0xffff_ffff;

/// What PBKDF2 with HMAC over the hash of `hash_bits` bits derives: `len`
/// bytes.
pub uninterp spec fn spec_pbkdf2(hash_bits: int, iterations: u32, salt: Seq<u8>, secret: Seq<u8>, len: nat) -> Seq<u8>;

/// Calls `ring::pbkdf2::derive` with the algorithm of the hash function.
///
/// Trusted: `out` is filled with bytes that depend on the hash function, the
/// iterations, the salt, the secret and the length of `out` alone.
#[verifier::external_body]
pub(crate) fn ring_derive(
    hash_fn: HashFunction,
    iterations: u32,
    salt: &[u8],
    secret: &[u8],
    out: &mut [u8],
)
    requires
        iterations >= 1,
        old(out)@.len() <= MAX_DERIVED_KEY_SIZE,
    ensures
        final(out)@.len() == old(out)@.len(),
        final(out)@ == spec_pbkdf2(
            hash_fn.spec_bits(),
            iterations,
            salt@,
            secret@,
            old(out)@.len(),
        ),
{
    let algorithm = match hash_fn {
        HashFunction::SHA256 => ring::pbkdf2::PBKDF2_HMAC_SHA256,
        HashFunction::SHA384 => ring::pbkdf2::PBKDF2_HMAC_SHA384,
        HashFunction::SHA512 => ring::pbkdf2::PBKDF2_HMAC_SHA512,
    };
    let iterations = std::num::NonZeroU32::new(iterations).unwrap();
    ring::pbkdf2::derive(algorithm, iterations, salt, secret, out);
}

/// The key of `len` bytes that is derived from a passphrase, or the error
/// that the derivation gives.
pub open spec fn spec_derive_key(
    hash_fn: HashFunction,
    iterations: u64,
    salt: Seq<u8>,
    secret: Seq<u8>,
    len: nat,
) -> Result<Seq<u8>, Error> {
    if secret.len() == 0 {
        Err(Error::PassphraseTooSmall)
    } else if iterations < MIN_ITERATIONS || salt.len() < MIN_SALT_SIZE {
        Err(Error::CryptoParamsWeak)
    } else if iterations > MAX_ITERATIONS {
        Err(Error::MetadataInvalid)
    } else {
        Ok(spec_pbkdf2(hash_fn.spec_bits(), iterations as u32, salt, secret, len))
    }
}

/// Fills `key` with the key that PBKDF2 derives from the secret.
///
/// An empty secret is refused with `PassphraseTooSmall`; then a number of
/// iterations below `MIN_ITERATIONS`, or a salt shorter than `MIN_SALT_SIZE`,
/// with `CryptoParamsWeak`; then a number of iterations above
/// `MAX_ITERATIONS`, which the primitive cannot take, with `MetadataInvalid`.
/// `key` is then left as it was. The same arguments always give the same
/// key.
pub fn derive_key(
    hash_fn: HashFunction,
    iterations: u64,
    salt: &[u8],
    secret: &[u8],
    key: &mut [u8],
) -> (r: Result<(), Error>)
    requires
        old(key)@.len() <= MAX_DERIVED_KEY_SIZE,
    ensures
        final(key)@.len() == old(key)@.len(),
        match spec_derive_key(hash_fn, iterations, salt@, secret@, old(key)@.len()) {
            Ok(derived) => r is Ok && final(key)@ == derived && derived.len() == old(key)@.len(),
            Err(e) => r == Err::<(), Error>(e) && final(key)@ == old(key)@,
        },
{
    if secret.len() == 0 {
        return Err(Error::PassphraseTooSmall);
    }
    if iterations < MIN_ITERATIONS || salt.len() < MIN_SALT_SIZE {
        return Err(Error::CryptoParamsWeak);
    }
    if iterations > MAX_ITERATIONS {
        return Err(Error::MetadataInvalid);
    }
    ring_derive(hash_fn, iterations as u32, salt, secret, key);
    Ok(())
}

} // verus!
