//! Envelope encryption: a secret and a plaintext go in, and one buffer comes
//! out that holds all that is needed to open it again with the secret.
//!
//! ```text
//! [ length of the header's message ][ the message ][ ciphertext ][ tag ]
//! ```
//!
//! The header says how the key is made from the secret (it is the key, or
//! PBKDF2 derives the key from it) and which cipher seals the data
//! (AES-256-GCM or ChaCha20-Poly1305), with the salt and the nonce of this
//! one sealing. The primitives are those of `ring`; the header is a message
//! of protocol buffers.
//!
//! ```text
//! let cryptor = RingCryptor::new();
//! let envelope = cryptor.seal_with_passphrase(b"My secret passphrase", b"The cake is a lie")?;
//! assert_eq!(cryptor.open(b"My secret passphrase", &envelope)?, b"The cake is a lie");
//! ```
//!
//! - [`cryptors`]: sealing and opening.
//! - [`metadata`]: the parameters of a sealing, and their header.
//! - [`aead`], [`pbkdf2`]: the ciphers and the key derivation.
//! - [`proto`], [`wire`]: the header's messages, and what they are made of.
//! - [`errors`]: what can go wrong.

pub mod aead;
pub mod cryptors;
pub mod errors;
pub mod metadata;
pub mod pbkdf2;
pub mod proto;
mod rand;
pub mod wire;
