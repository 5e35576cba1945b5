//! The parameters of one sealing, and the header that carries them.
//!
//! A header is the length of a message, as a varint, and the message: the
//! parameters in the schema of [`crate::proto::metadata`]. Behind it stand
//! the ciphertext and its tag, which the header does not look at.

use crate::aead::{Algorithm, NONCE_SIZE};
use crate::errors::Error;
use crate::pbkdf2::{DEFAULT_ITERATIONS, SALT_SIZE};
use crate::proto::metadata as pmeta;
use crate::rand::random_bytes;
use crate::wire::{
    lemma_read_bytes_of_bytes, lemma_varint_len, read_delimited, spec_bytes, spec_read_delimited,
    write_raw_varint64,
};
use vstd::prelude::*;
use vstd::slice::slice_subrange;

verus! {

/// The hash functions of a key derivation.
#[derive(Copy, Clone, Debug, PartialEq, Eq, Structural)]
pub enum HashFunction {
    SHA256,
    SHA384,
    SHA512,
}

impl HashFunction {
    /// The number of bits of the hash.
    pub open spec fn spec_bits(self) -> int {
        match self {
            HashFunction::SHA256 => 256,
            HashFunction::SHA384 => 384,
            HashFunction::SHA512 => 512,
        }
    }

    /// The hash function as it stands in a header.
    pub open spec fn spec_to_proto(self) -> pmeta::HashFunction {
        match self {
            HashFunction::SHA256 => pmeta::HashFunction::HASH_FUNCTION_SHA256,
            HashFunction::SHA384 => pmeta::HashFunction::HASH_FUNCTION_SHA384,
            HashFunction::SHA512 => pmeta::HashFunction::HASH_FUNCTION_SHA512,
        }
    }

    /// The hash function that stands in a header, if it is one.
    pub open spec fn spec_from_proto(hash_fn: pmeta::HashFunction) -> Result<HashFunction, Error> {
        match hash_fn {
            pmeta::HashFunction::HASH_FUNCTION_INVALID => Err(Error::MetadataInvalid),
            pmeta::HashFunction::HASH_FUNCTION_SHA256 => Ok(HashFunction::SHA256),
            pmeta::HashFunction::HASH_FUNCTION_SHA384 => Ok(HashFunction::SHA384),
            pmeta::HashFunction::HASH_FUNCTION_SHA512 => Ok(HashFunction::SHA512),
        }
    }

    /// The hash function as it stands in a header.
    pub fn to_proto(&self) -> (r: pmeta::HashFunction)
        ensures
            r == self.spec_to_proto(),
            HashFunction::spec_from_proto(r) == Ok::<HashFunction, Error>(*self),
    {
        match self {
            HashFunction::SHA256 => pmeta::HashFunction::HASH_FUNCTION_SHA256,
            HashFunction::SHA384 => pmeta::HashFunction::HASH_FUNCTION_SHA384,
            HashFunction::SHA512 => pmeta::HashFunction::HASH_FUNCTION_SHA512,
        }
    }

    /// The hash function that stands in a header; `MetadataInvalid` where
    /// the header names none.
    pub fn from_proto(hash_fn: pmeta::HashFunction) -> (r: Result<HashFunction, Error>)
        ensures
            r == HashFunction::spec_from_proto(hash_fn),
    {
        match hash_fn {
            pmeta::HashFunction::HASH_FUNCTION_INVALID => Err(Error::MetadataInvalid),
            pmeta::HashFunction::HASH_FUNCTION_SHA256 => Ok(HashFunction::SHA256),
            pmeta::HashFunction::HASH_FUNCTION_SHA384 => Ok(HashFunction::SHA384),
            pmeta::HashFunction::HASH_FUNCTION_SHA512 => Ok(HashFunction::SHA512),
        }
    }
}

/// The parameters of a key derivation.
#[derive(Debug, PartialEq)]
pub struct KeyDerivationMetadata {
    pub hash_fn: HashFunction,
    pub iterations: u64,
    pub salt: Vec<u8>,
}

/// What a `KeyDerivationMetadata` holds.
pub struct KeyDerivationMetadataView {
    pub hash_fn: HashFunction,
    pub iterations: u64,
    pub salt: Seq<u8>,
}

impl View for KeyDerivationMetadata {
    type V = KeyDerivationMetadataView;

    open spec fn view(&self) -> KeyDerivationMetadataView {
        KeyDerivationMetadataView {
            hash_fn: self.hash_fn,
            iterations: self.iterations,
            salt: self.salt@,
        }
    }
}

impl Clone for KeyDerivationMetadata {
    fn clone(&self) -> (r: Self)
        ensures
            r@ == self@,
    {
        KeyDerivationMetadata {
            hash_fn: self.hash_fn,
            iterations: self.iterations,
            salt: vstd::slice::slice_to_vec(self.salt.as_slice()),
        }
    }
}

impl KeyDerivationMetadata {
    /// The parameters as given.
    pub fn new(hash_fn: HashFunction, iterations: u64, salt: Vec<u8>) -> (r: Self)
        ensures
            r@ == (KeyDerivationMetadataView { hash_fn, iterations, salt: salt@ }),
    {
        KeyDerivationMetadata { hash_fn, iterations, salt }
    }

    /// Parameters for a new derivation: SHA-256, `DEFAULT_ITERATIONS`
    /// iterations, and a fresh random salt of `SALT_SIZE` bytes.
    pub fn generate() -> (r: Self)
        ensures
            r@.hash_fn == HashFunction::SHA256,
            r@.iterations == DEFAULT_ITERATIONS,
            r@.salt.len() == SALT_SIZE,
    {
        KeyDerivationMetadata::new(HashFunction::SHA256, DEFAULT_ITERATIONS, random_bytes(SALT_SIZE))
    }
}

/// How the key is made from the secret.
#[derive(Debug, PartialEq)]
pub enum KeyDerivationAlgorithm {
    /// The secret is the key.
    NoDerivation,
    /// The key is derived from the secret by PBKDF2.
    PBKDF2(KeyDerivationMetadata),
}

/// What a `KeyDerivationAlgorithm` holds.
pub enum KeyDerivationAlgorithmView {
    NoDerivation,
    PBKDF2(KeyDerivationMetadataView),
}

impl View for KeyDerivationAlgorithm {
    type V = KeyDerivationAlgorithmView;

    open spec fn view(&self) -> KeyDerivationAlgorithmView {
        match self {
            KeyDerivationAlgorithm::NoDerivation => KeyDerivationAlgorithmView::NoDerivation,
            KeyDerivationAlgorithm::PBKDF2(meta) => KeyDerivationAlgorithmView::PBKDF2(meta@),
        }
    }
}

impl Clone for KeyDerivationAlgorithm {
    fn clone(&self) -> (r: Self)
        ensures
            r@ == self@,
    {
        match self {
            KeyDerivationAlgorithm::NoDerivation => KeyDerivationAlgorithm::NoDerivation,
            KeyDerivationAlgorithm::PBKDF2(meta) => KeyDerivationAlgorithm::PBKDF2(meta.clone()),
        }
    }
}

impl KeyDerivationAlgorithmView {
    /// The key derivation as it stands in a header.
    pub open spec fn spec_to_proto(self) -> pmeta::KeyDerivationMetadataView {
        match self {
            KeyDerivationAlgorithmView::NoDerivation => pmeta::KeyDerivationMetadataView {
                algo: pmeta::KeyDerivationAlgorithm::KEY_DERIVATION_ALGORITHM_NONE,
                ..pmeta::KeyDerivationMetadataView::spec_default()
            },
            KeyDerivationAlgorithmView::PBKDF2(meta) => pmeta::KeyDerivationMetadataView {
                algo: pmeta::KeyDerivationAlgorithm::KEY_DERIVATION_ALGORITHM_PBKDF2,
                hash_fn: meta.hash_fn.spec_to_proto(),
                iterations: meta.iterations,
                salt: meta.salt,
            },
        }
    }

    /// The key derivation that a header's message stands for. Without an
    /// algorithm, or with PBKDF2 and no hash function, it stands for none. Of
    /// a message without key derivation nothing else is read.
    pub open spec fn spec_from_proto(message: pmeta::KeyDerivationMetadataView) -> Result<
        KeyDerivationAlgorithmView,
        Error,
    > {
        match message.algo {
            pmeta::KeyDerivationAlgorithm::KEY_DERIVATION_ALGORITHM_INVALID => Err(
                Error::MetadataInvalid,
            ),
            pmeta::KeyDerivationAlgorithm::KEY_DERIVATION_ALGORITHM_NONE => Ok(
                KeyDerivationAlgorithmView::NoDerivation,
            ),
            pmeta::KeyDerivationAlgorithm::KEY_DERIVATION_ALGORITHM_PBKDF2 => match HashFunction::spec_from_proto(
            message.hash_fn) {
                Err(e) => Err(e),
                Ok(hash_fn) => Ok(
                    KeyDerivationAlgorithmView::PBKDF2(
                        KeyDerivationMetadataView {
                            hash_fn,
                            iterations: message.iterations,
                            salt: message.salt,
                        },
                    ),
                ),
            },
        }
    }
}

impl KeyDerivationAlgorithm {
    /// The key derivation as it stands in a header.
    pub fn to_proto(&self) -> (r: pmeta::KeyDerivationMetadata)
        ensures
            r@ == self@.spec_to_proto(),
    {
        let mut message = pmeta::KeyDerivationMetadata::new();
        match self {
            KeyDerivationAlgorithm::NoDerivation => {
                message.set_algo(pmeta::KeyDerivationAlgorithm::KEY_DERIVATION_ALGORITHM_NONE);
            },
            KeyDerivationAlgorithm::PBKDF2(meta) => {
                message.set_algo(pmeta::KeyDerivationAlgorithm::KEY_DERIVATION_ALGORITHM_PBKDF2);
                message.set_hash_fn(meta.hash_fn.to_proto());
                message.set_iterations(meta.iterations);
                message.set_salt(vstd::slice::slice_to_vec(meta.salt.as_slice()));
            },
        }
        message
    }

    /// The key derivation that a header's message stands for, or
    /// `MetadataInvalid`.
    pub fn from_proto(message: &pmeta::KeyDerivationMetadata) -> (r: Result<
        KeyDerivationAlgorithm,
        Error,
    >)
        ensures
            match KeyDerivationAlgorithmView::spec_from_proto(message@) {
                Ok(algo) => r matches Ok(a) && a@ == algo,
                Err(e) => r matches Err(f) && f == e,
            },
    {
        match message.get_algo() {
            pmeta::KeyDerivationAlgorithm::KEY_DERIVATION_ALGORITHM_INVALID => Err(
                Error::MetadataInvalid,
            ),
            pmeta::KeyDerivationAlgorithm::KEY_DERIVATION_ALGORITHM_NONE => Ok(
                KeyDerivationAlgorithm::NoDerivation,
            ),
            pmeta::KeyDerivationAlgorithm::KEY_DERIVATION_ALGORITHM_PBKDF2 => {
                match HashFunction::from_proto(message.get_hash_fn()) {
                    Err(e) => Err(e),
                    Ok(hash_fn) => Ok(
                        KeyDerivationAlgorithm::PBKDF2(
                            KeyDerivationMetadata::new(
                                hash_fn,
                                message.get_iterations(),
                                vstd::slice::slice_to_vec(message.get_salt()),
                            ),
                        ),
                    ),
                }
            },
        }
    }
}

/// The parameters of an encryption.
#[derive(Copy, Clone, Debug, PartialEq)]
pub struct EncryptionMetadata {
    pub nonce: [u8; NONCE_SIZE],
}

/// What an `EncryptionMetadata` holds.
pub struct EncryptionMetadataView {
    pub nonce: Seq<u8>,
}

impl View for EncryptionMetadata {
    type V = EncryptionMetadataView;

    open spec fn view(&self) -> EncryptionMetadataView {
        EncryptionMetadataView { nonce: self.nonce@ }
    }
}

impl EncryptionMetadata {
    /// The parameters as given.
    pub fn new(nonce: [u8; NONCE_SIZE]) -> (r: Self)
        ensures
            r@.nonce == nonce@,
            r.nonce == nonce,
    {
        EncryptionMetadata { nonce }
    }

    /// The nonce that stands in `bytes`, if they are `NONCE_SIZE` bytes.
    pub fn from_bytes(bytes: &[u8]) -> (r: Option<Self>)
        ensures
            match r {
                Some(meta) => meta@.nonce == bytes@,
                None => bytes@.len() != NONCE_SIZE,
            },
    {
        if bytes.len() != NONCE_SIZE {
            return None;
        }
        let mut nonce = [0u8; NONCE_SIZE];
        let mut i: usize = 0;
        while i < NONCE_SIZE
            invariant
                i <= NONCE_SIZE,
                bytes@.len() == NONCE_SIZE,
                forall|j: int| 0 <= j < i ==> nonce@[j] == bytes@[j],
            decreases NONCE_SIZE - i,
        {
            nonce[i] = bytes[i];
            i += 1;
        }
        assert(nonce@ =~= bytes@);
        Some(EncryptionMetadata { nonce })
    }

    /// Parameters for a new encryption: a fresh random nonce.
    pub fn generate() -> (r: Self)
        ensures
            r@.nonce.len() == NONCE_SIZE,
    {
        let bytes = random_bytes(NONCE_SIZE);
        match EncryptionMetadata::from_bytes(bytes.as_slice()) {
            Some(meta) => meta,
            None => vstd::pervasive::unreached(),
        }
    }
}

/// The cipher that seals the data, with its parameters.
#[derive(Copy, Clone, Debug, PartialEq)]
pub enum EncryptionAlgorithm {
    AES256GCM(EncryptionMetadata),
    ChaCha20Poly1305(EncryptionMetadata),
}

/// What an `EncryptionAlgorithm` holds.
pub enum EncryptionAlgorithmView {
    AES256GCM(EncryptionMetadataView),
    ChaCha20Poly1305(EncryptionMetadataView),
}

impl View for EncryptionAlgorithm {
    type V = EncryptionAlgorithmView;

    open spec fn view(&self) -> EncryptionAlgorithmView {
        match self {
            EncryptionAlgorithm::AES256GCM(meta) => EncryptionAlgorithmView::AES256GCM(meta@),
            EncryptionAlgorithm::ChaCha20Poly1305(meta) => EncryptionAlgorithmView::ChaCha20Poly1305(
                meta@,
            ),
        }
    }
}

impl EncryptionAlgorithmView {
    /// The cipher.
    pub open spec fn spec_algorithm(self) -> Algorithm {
        match self {
            EncryptionAlgorithmView::AES256GCM(_) => Algorithm::AES256GCM,
            EncryptionAlgorithmView::ChaCha20Poly1305(_) => Algorithm::ChaCha20Poly1305,
        }
    }

    /// The nonce.
    pub open spec fn spec_nonce(self) -> Seq<u8> {
        match self {
            EncryptionAlgorithmView::AES256GCM(meta) => meta.nonce,
            EncryptionAlgorithmView::ChaCha20Poly1305(meta) => meta.nonce,
        }
    }

    /// The encryption as it stands in a header.
    pub open spec fn spec_to_proto(self) -> pmeta::EncryptionMetadataView {
        match self {
            EncryptionAlgorithmView::AES256GCM(meta) => pmeta::EncryptionMetadataView {
                algo: pmeta::EncryptionAlgorithm::ENCRYPTION_ALGORITHM_AES256GCM,
                nonce: meta.nonce,
            },
            EncryptionAlgorithmView::ChaCha20Poly1305(meta) => pmeta::EncryptionMetadataView {
                algo: pmeta::EncryptionAlgorithm::ENCRYPTION_ALGORITHM_CHACHA20_POLY1305,
                nonce: meta.nonce,
            },
        }
    }

    /// The encryption that a header's message stands for. Without an
    /// algorithm, or with a nonce that is not `NONCE_SIZE` bytes long, it
    /// stands for none.
    pub open spec fn spec_from_proto(message: pmeta::EncryptionMetadataView) -> Result<
        EncryptionAlgorithmView,
        Error,
    > {
        if message.nonce.len() != NONCE_SIZE {
            Err(Error::MetadataInvalid)
        } else {
            match message.algo {
                pmeta::EncryptionAlgorithm::ENCRYPTION_ALGORITHM_INVALID => Err(
                    Error::MetadataInvalid,
                ),
                pmeta::EncryptionAlgorithm::ENCRYPTION_ALGORITHM_AES256GCM => Ok(
                    EncryptionAlgorithmView::AES256GCM(
                        EncryptionMetadataView { nonce: message.nonce },
                    ),
                ),
                pmeta::EncryptionAlgorithm::ENCRYPTION_ALGORITHM_CHACHA20_POLY1305 => Ok(
                    EncryptionAlgorithmView::ChaCha20Poly1305(
                        EncryptionMetadataView { nonce: message.nonce },
                    ),
                ),
            }
        }
    }
}

impl EncryptionAlgorithm {
    /// The cipher.
    pub fn algorithm(&self) -> (r: Algorithm)
        ensures
            r == self@.spec_algorithm(),
    {
        match self {
            EncryptionAlgorithm::AES256GCM(_) => Algorithm::AES256GCM,
            EncryptionAlgorithm::ChaCha20Poly1305(_) => Algorithm::ChaCha20Poly1305,
        }
    }

    /// The nonce.
    pub fn nonce(&self) -> (r: [u8; NONCE_SIZE])
        ensures
            r@ == self@.spec_nonce(),
    {
        match self {
            EncryptionAlgorithm::AES256GCM(meta) => meta.nonce,
            EncryptionAlgorithm::ChaCha20Poly1305(meta) => meta.nonce,
        }
    }

    /// The encryption as it stands in a header.
    pub fn to_proto(&self) -> (r: pmeta::EncryptionMetadata)
        ensures
            r@ == self@.spec_to_proto(),
    {
        let mut message = pmeta::EncryptionMetadata::new();
        match self {
            EncryptionAlgorithm::AES256GCM(meta) => {
                message.set_algo(pmeta::EncryptionAlgorithm::ENCRYPTION_ALGORITHM_AES256GCM);
                message.set_nonce(vstd::slice::slice_to_vec(meta.nonce.as_slice()));
            },
            EncryptionAlgorithm::ChaCha20Poly1305(meta) => {
                message.set_algo(
                    pmeta::EncryptionAlgorithm::ENCRYPTION_ALGORITHM_CHACHA20_POLY1305,
                );
                message.set_nonce(vstd::slice::slice_to_vec(meta.nonce.as_slice()));
            },
        }
        message
    }

    /// The encryption that a header's message stands for, or
    /// `MetadataInvalid`.
    pub fn from_proto(message: &pmeta::EncryptionMetadata) -> (r: Result<
        EncryptionAlgorithm,
        Error,
    >)
        ensures
            match EncryptionAlgorithmView::spec_from_proto(message@) {
                Ok(algo) => r matches Ok(a) && a@ == algo,
                Err(e) => r matches Err(f) && f == e,
            },
    {
        let meta = match EncryptionMetadata::from_bytes(message.get_nonce()) {
            None => { return Err(Error::MetadataInvalid); },
            Some(meta) => meta,
        };
        match message.get_algo() {
            pmeta::EncryptionAlgorithm::ENCRYPTION_ALGORITHM_INVALID => Err(Error::MetadataInvalid),
            pmeta::EncryptionAlgorithm::ENCRYPTION_ALGORITHM_AES256GCM => Ok(
                EncryptionAlgorithm::AES256GCM(meta),
            ),
            pmeta::EncryptionAlgorithm::ENCRYPTION_ALGORITHM_CHACHA20_POLY1305 => Ok(
                EncryptionAlgorithm::ChaCha20Poly1305(meta),
            ),
        }
    }
}

/// The length of the shortest header: no key derivation, and a plaintext of
/// no bytes.
pub const MIN_HEADER_SIZE: usize = 23;

/// No header of parameters that were generated is longer than this.
pub const MAX_GENERATED_HEADER_SIZE: usize = 256;

/// `len` bytes that are zero.
pub open spec fn spec_zeros(len: nat) -> Seq<u8> {
    Seq::new(len, |i: int| 0u8)
}

/// The parameters of one sealing.
#[derive(Debug, PartialEq)]
pub struct Metadata {
    pub key_deriv_algo: KeyDerivationAlgorithm,
    pub enc_algo: EncryptionAlgorithm,
    /// The length of the plaintext.
    pub ciphertext_size: u64,
}

/// What a `Metadata` holds.
pub struct MetadataView {
    pub key_deriv_algo: KeyDerivationAlgorithmView,
    pub enc_algo: EncryptionAlgorithmView,
    pub ciphertext_size: u64,
}

impl View for Metadata {
    type V = MetadataView;

    open spec fn view(&self) -> MetadataView {
        MetadataView {
            key_deriv_algo: self.key_deriv_algo@,
            enc_algo: self.enc_algo@,
            ciphertext_size: self.ciphertext_size,
        }
    }
}

impl Clone for Metadata {
    fn clone(&self) -> (r: Self)
        ensures
            r@ == self@,
    {
        Metadata {
            key_deriv_algo: self.key_deriv_algo.clone(),
            enc_algo: self.enc_algo,
            ciphertext_size: self.ciphertext_size,
        }
    }
}

impl MetadataView {
    /// Whether the nonce has the length that every value of the type has.
    pub open spec fn spec_wf(self) -> bool {
        self.enc_algo.spec_nonce().len() == NONCE_SIZE
    }

    /// Whether these are parameters as they are generated for sealing a
    /// plaintext of `plaintext_size` bytes with a key: no key derivation, and
    /// AES-256-GCM with some nonce.
    pub open spec fn spec_generated_for_key(self, plaintext_size: nat) -> bool {
        &&& self.spec_wf()
        &&& self.ciphertext_size == plaintext_size
        &&& self.enc_algo is AES256GCM
        &&& self.key_deriv_algo is NoDerivation
    }

    /// Whether these are parameters as they are generated for sealing a
    /// plaintext of `plaintext_size` bytes with a passphrase: PBKDF2 over
    /// SHA-256 with `DEFAULT_ITERATIONS` iterations and some salt of
    /// `SALT_SIZE` bytes, and AES-256-GCM with some nonce.
    pub open spec fn spec_generated_for_passphrase(self, plaintext_size: nat) -> bool {
        &&& self.spec_wf()
        &&& self.ciphertext_size == plaintext_size
        &&& self.enc_algo is AES256GCM
        &&& self.key_deriv_algo matches KeyDerivationAlgorithmView::PBKDF2(meta)
        &&& meta.hash_fn == HashFunction::SHA256
        &&& meta.iterations == DEFAULT_ITERATIONS
        &&& meta.salt.len() == SALT_SIZE
    }

    /// The parameters as the message of a header.
    pub open spec fn spec_to_proto(self) -> pmeta::MetadataView {
        pmeta::MetadataView {
            key_deriv_meta: Some(self.key_deriv_algo.spec_to_proto()),
            enc_meta: Some(self.enc_algo.spec_to_proto()),
            ciphertext_size: self.ciphertext_size,
        }
    }

    /// The parameters that the message of a header stands for, or
    /// `MetadataInvalid`. An embedded message that is not there counts as
    /// one with every field at its default.
    pub open spec fn spec_from_proto(message: pmeta::MetadataView) -> Result<MetadataView, Error> {
        match KeyDerivationAlgorithmView::spec_from_proto(message.spec_get_key_deriv_meta()) {
            Err(e) => Err(e),
            Ok(key_deriv_algo) => match EncryptionAlgorithmView::spec_from_proto(
                message.spec_get_enc_meta(),
            ) {
                Err(e) => Err(e),
                Ok(enc_algo) => Ok(
                    MetadataView {
                        key_deriv_algo,
                        enc_algo,
                        ciphertext_size: message.ciphertext_size,
                    },
                ),
            },
        }
    }

    /// A message stands for no parameters where it names no key derivation
    /// or no cipher, where it names PBKDF2 and no hash function, or where its
    /// nonce has not the length of a nonce. It is the same error each time.
    pub proof fn lemma_invalid_message(message: pmeta::MetadataView)
        requires
            ({
                let key = message.spec_get_key_deriv_meta();
                let enc = message.spec_get_enc_meta();
                ||| key.algo == pmeta::KeyDerivationAlgorithm::KEY_DERIVATION_ALGORITHM_INVALID
                ||| key.algo == pmeta::KeyDerivationAlgorithm::KEY_DERIVATION_ALGORITHM_PBKDF2
                    && key.hash_fn == pmeta::HashFunction::HASH_FUNCTION_INVALID
                ||| enc.algo == pmeta::EncryptionAlgorithm::ENCRYPTION_ALGORITHM_INVALID
                ||| enc.nonce.len() != NONCE_SIZE
            }),
        ensures
            MetadataView::spec_from_proto(message) == Err::<MetadataView, Error>(
                Error::MetadataInvalid,
            ),
    {
    }

    /// The message of the header.
    pub open spec fn spec_message(self) -> Seq<u8> {
        self.spec_to_proto().encoding()
    }

    /// The header: the length of the message, and the message.
    pub open spec fn spec_header(self) -> Seq<u8> {
        spec_bytes(self.spec_message())
    }

    /// The length of the buffer that holds the header, the ciphertext and
    /// the tag.
    pub open spec fn spec_buf_len(self) -> nat {
        self.spec_header().len() + self.ciphertext_size as nat
            + self.enc_algo.spec_algorithm().spec_tag_len()
    }

    /// Whether a buffer for the header, the ciphertext and the tag can be
    /// made: the message's length has to fit in the 32 bits of a length on the
    /// wire, the buffer's length in a `usize`.
    pub open spec fn spec_fits(self) -> bool {
        self.spec_message().len() <= u32::MAX && self.spec_buf_len() <= usize::MAX
    }

    /// The buffer that is made for a sealing: the header, and zeros where
    /// the ciphertext and the tag will stand.
    pub open spec fn spec_buf(self) -> Seq<u8> {
        self.spec_header() + spec_zeros((self.spec_buf_len() - self.spec_header().len()) as nat)
    }

    /// The parameters that stand at the front of `buf` and the length of
    /// their header, or the error that reading them gives: `MetadataMissing`
    /// where `buf` is shorter than any header, `MetadataInvalid` where the
    /// length at the front is no varint or exceeds what follows it, where the
    /// message is malformed, or where it stands for no parameters.
    pub open spec fn spec_from_buf(buf: Seq<u8>) -> Result<(MetadataView, nat), Error> {
        if buf.len() < MIN_HEADER_SIZE {
            Err(Error::MetadataMissing)
        } else {
            match spec_read_delimited(buf) {
                None => Err(Error::MetadataInvalid),
                Some((content, n)) => match pmeta::MetadataView::spec_default().merged(content) {
                    None => Err(Error::MetadataInvalid),
                    Some(message) => match MetadataView::spec_from_proto(message) {
                        Err(e) => Err(e),
                        Ok(meta) => Ok((meta, n)),
                    },
                },
            }
        }
    }

    /// The parameters that a message stands for are those it was made from.
    pub proof fn lemma_from_proto_to_proto(self)
        requires
            self.spec_wf(),
        ensures
            MetadataView::spec_from_proto(self.spec_to_proto()) == Ok::<MetadataView, Error>(self),
    {
    }

    /// The lengths of the parts of a message: a tag or a varint takes from
    /// one to ten bytes, and a field of bytes at least the bytes.
    proof fn lemma_part_lens(self)
        requires
            self.spec_wf(),
        ensures
            ({
                let message = self.spec_to_proto();
                let k = message.key_deriv_meta->0;
                let e = message.enc_meta->0;
                &&& 2 <= k.algo_bytes().len() <= 20
                &&& k.hash_fn_bytes().len() <= 20
                &&& k.iterations_bytes().len() <= 20
                &&& k.salt.len() <= k.salt_bytes().len() <= 20 + k.salt.len()
                &&& 4 + NONCE_SIZE <= e.encoding().len() <= 40 + NONCE_SIZE
                &&& 2 + k.encoding().len() <= message.key_deriv_meta_bytes().len() <= 20
                    + k.encoding().len()
                &&& 2 + e.encoding().len() <= message.enc_meta_bytes().len() <= 20
                    + e.encoding().len()
                &&& message.ciphertext_size_bytes().len() <= 20
                &&& 1 <= self.spec_header().len() - self.spec_message().len() <= 10
            }),
    {
        let message = self.spec_to_proto();
        let k = message.key_deriv_meta->0;
        let e = message.enc_meta->0;
        lemma_varint_len(crate::wire::spec_int32_as_u64(k.algo.spec_value()));
        lemma_varint_len(crate::wire::spec_int32_as_u64(k.hash_fn.spec_value()));
        lemma_varint_len(crate::wire::spec_int32_as_u64(e.algo.spec_value()));
        lemma_varint_len(k.iterations);
        lemma_varint_len(self.ciphertext_size);
        lemma_varint_len(k.encoding().len() as u64);
        lemma_varint_len(e.encoding().len() as u64);
        lemma_varint_len(k.salt.len() as u64);
        lemma_varint_len(e.nonce.len() as u64);
        lemma_varint_len(self.spec_message().len() as u64);
        lemma_varint_len(((1u32 * 8) + 0) as u64);
        lemma_varint_len(((2u32 * 8) + 0) as u64);
        lemma_varint_len(((3u32 * 8) + 0) as u64);
        lemma_varint_len(((1u32 * 8) + 2) as u64);
        lemma_varint_len(((2u32 * 8) + 2) as u64);
        lemma_varint_len(((4u32 * 8) + 2) as u64);
    }

    /// Bounds on the length of a message: at least 22 bytes, and no less
    /// than any part of it.
    pub proof fn lemma_message_len(self)
        requires
            self.spec_wf(),
        ensures
            self.spec_message().len() >= MIN_HEADER_SIZE - 1,
            self.spec_header().len() >= MIN_HEADER_SIZE,
            self.spec_message().len() <= u32::MAX ==> self.spec_to_proto().spec_fits(),
    {
        self.lemma_part_lens();
    }

    /// The length of the salt; zero without key derivation.
    pub open spec fn spec_salt_len(self) -> nat {
        match self.key_deriv_algo {
            KeyDerivationAlgorithmView::NoDerivation => 0,
            KeyDerivationAlgorithmView::PBKDF2(meta) => meta.salt.len(),
        }
    }

    /// A header is little longer than its salt: the rest of it takes less
    /// than `MAX_GENERATED_HEADER_SIZE - SALT_SIZE` bytes.
    pub proof fn lemma_header_len_upper(self)
        requires
            self.spec_wf(),
        ensures
            self.spec_header().len() + SALT_SIZE <= MAX_GENERATED_HEADER_SIZE
                + self.spec_salt_len(),
    {
        self.lemma_part_lens();
    }

    /// Generated parameters fit: their buffer can be made for every
    /// plaintext that leaves room for the header and the tag.
    pub proof fn lemma_generated_fits(self, plaintext_size: nat)
        requires
            self.spec_generated_for_key(plaintext_size) || self.spec_generated_for_passphrase(
                plaintext_size,
            ),
            plaintext_size + MAX_GENERATED_HEADER_SIZE + crate::aead::TAG_SIZE <= usize::MAX,
        ensures
            self.spec_fits(),
            self.spec_header().len() <= MAX_GENERATED_HEADER_SIZE,
    {
        self.lemma_header_len_upper();
        self.lemma_part_lens();
    }

    /// Reading the header that was written for the parameters gives them
    /// back, and the header's length, whatever follows the header.
    pub proof fn lemma_from_buf_of_header(self, rest: Seq<u8>)
        requires
            self.spec_wf(),
            self.spec_message().len() <= u32::MAX,
        ensures
            MetadataView::spec_from_buf(self.spec_header() + rest) == Ok::<
                (MetadataView, nat),
                Error,
            >((self, self.spec_header().len())),
    {
        self.lemma_message_len();
        self.spec_to_proto().lemma_merged_encoding();
        lemma_read_bytes_of_bytes(self.spec_message(), rest);
        self.lemma_from_proto_to_proto();
    }
}

impl Metadata {
    /// The parameters as given, for a plaintext of `plaintext_size` bytes.
    pub fn new(
        key_deriv_algo: KeyDerivationAlgorithm,
        enc_algo: EncryptionAlgorithm,
        plaintext_size: usize,
    ) -> (r: Self)
        ensures
            r@ == (MetadataView {
                key_deriv_algo: key_deriv_algo@,
                enc_algo: enc_algo@,
                ciphertext_size: plaintext_size as u64,
            }),
    {
        Metadata { key_deriv_algo, enc_algo, ciphertext_size: plaintext_size as u64 }
    }

    /// Parameters for sealing with a passphrase: a generated key derivation
    /// by PBKDF2, and AES-256-GCM with a generated nonce.
    pub fn generate_for_passphrase(plaintext_size: usize) -> (r: Self)
        ensures
            r@.spec_generated_for_passphrase(plaintext_size as nat),
    {
        let key_deriv_algo = KeyDerivationAlgorithm::PBKDF2(KeyDerivationMetadata::generate());
        let enc_algo = EncryptionAlgorithm::AES256GCM(EncryptionMetadata::generate());
        Metadata::new(key_deriv_algo, enc_algo, plaintext_size)
    }

    /// Parameters for sealing with a key: no key derivation, and
    /// AES-256-GCM with a generated nonce.
    pub fn generate_for_key(plaintext_size: usize) -> (r: Self)
        ensures
            r@.spec_generated_for_key(plaintext_size as nat),
    {
        let enc_algo = EncryptionAlgorithm::AES256GCM(EncryptionMetadata::generate());
        Metadata::new(KeyDerivationAlgorithm::NoDerivation, enc_algo, plaintext_size)
    }

    /// The parameters as the message of a header.
    pub fn to_proto(&self) -> (r: pmeta::Metadata)
        ensures
            r@ == self@.spec_to_proto(),
    {
        let mut message = pmeta::Metadata::new();
        message.set_key_deriv_meta(self.key_deriv_algo.to_proto());
        message.set_enc_meta(self.enc_algo.to_proto());
        message.set_ciphertext_size(self.ciphertext_size);
        message
    }

    /// The parameters that the message of a header stands for, or
    /// `MetadataInvalid`.
    pub fn from_proto(message: &pmeta::Metadata) -> (r: Result<Metadata, Error>)
        ensures
            match MetadataView::spec_from_proto(message@) {
                Ok(meta) => r matches Ok(m) && m@ == meta,
                Err(e) => r matches Err(f) && f == e,
            },
    {
        let key_deriv_algo = match KeyDerivationAlgorithm::from_proto(
            &message.get_key_deriv_meta(),
        ) {
            Err(e) => { return Err(e); },
            Ok(algo) => algo,
        };
        let enc_algo = match EncryptionAlgorithm::from_proto(&message.get_enc_meta()) {
            Err(e) => { return Err(e); },
            Ok(algo) => algo,
        };
        Ok(Metadata { key_deriv_algo, enc_algo, ciphertext_size: message.get_ciphertext_size() })
    }

    /// Makes the buffer for a sealing: the header, and behind it as many
    /// zeros as the ciphertext and the tag will take. Returns the buffer and
    /// the length of the header.
    pub fn to_buf(&self) -> (r: (Vec<u8>, usize))
        requires
            self@.spec_fits(),
        ensures
            r.0@ == self@.spec_buf(),
            r.1 == self@.spec_header().len(),
            r.0@.len() == self@.spec_buf_len(),
    {
        let message = self.to_proto();
        proof {
            self@.lemma_message_len();
        }
        let size = message.compute_size();
        let mut buf: Vec<u8> = Vec::new();
        write_raw_varint64(&mut buf, size as u64);
        message.write_to(&mut buf);
        assert(buf@ =~= self@.spec_header());
        let meta_size = buf.len();
        let tag_size = crate::aead::tag_len(self.enc_algo.algorithm());
        let total: usize = meta_size + self.ciphertext_size as usize + tag_size;
        buf.resize(total, 0u8);
        assert(buf@ =~= self@.spec_buf());
        (buf, meta_size)
    }

    /// Reads the header at the front of `buf`: the parameters, and the
    /// header's length, which is where the ciphertext starts. What stands
    /// behind the header is not looked at.
    ///
    /// A buffer that is shorter than `MIN_HEADER_SIZE` gives
    /// `MetadataMissing`; a header that is malformed in any way gives
    /// `MetadataInvalid`.
    pub fn from_buf(buf: &[u8]) -> (r: Result<(Metadata, usize), Error>)
        ensures
            match MetadataView::spec_from_buf(buf@) {
                Ok((meta, n)) => r matches Ok((m, len)) && m@ == meta && len == n && len
                    <= buf@.len(),
                Err(e) => r matches Err(f) && f == e,
            },
    {
        if buf.len() < MIN_HEADER_SIZE {
            return Err(Error::MetadataMissing);
        }
        let (from, to) = match read_delimited(buf) {
            None => { return Err(Error::MetadataInvalid); },
            Some(range) => range,
        };
        let mut message = pmeta::Metadata::new();
        match message.merge_from(slice_subrange(buf, from, to)) {
            Err(e) => { return Err(e); },
            Ok(()) => {},
        }
        match Metadata::from_proto(&message) {
            Err(e) => Err(e),
            Ok(meta) => Ok((meta, to)),
        }
    }
}

} // verus!
