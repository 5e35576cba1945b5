//! The errors that the library returns.

use vstd::prelude::*;

verus! {

/// The closed set of failures that any operation of the library reports.
#[derive(Copy, Clone, Debug, PartialEq, Eq, Structural)]
pub enum Error {
    /// The data buffer cannot hold the ciphertext and its tag (when sealing),
    /// or is shorter than a tag (when opening).
    BufferTooSmall,
    /// An empty passphrase was handed to a key derivation.
    PassphraseTooSmall,
    /// The key has not the length of the cipher's keys: the secret, where no
    /// key is derived from it, or the key that is handed to a cipher.
    KeySizeMismatch,
    /// The parameters would make the cryptography weak: a key derivation
    /// with fewer iterations or a shorter salt than the floor allows, or a
    /// plaintext longer than the cipher can seal under one nonce.
    CryptoParamsWeak,
    /// The buffer is shorter than the smallest possible header.
    MetadataMissing,
    /// The header is malformed, or the parameters hold a value that cannot
    /// be used: more iterations than the key derivation can be asked for.
    MetadataInvalid,
    /// The authentication of the ciphertext failed, for whatever reason.
    DecryptionError,
}

} // verus!
