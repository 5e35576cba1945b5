//! Authenticated encryption in place, by the ciphers of `ring`.
//!
//! A buffer that is sealed holds the plaintext and room for the tag behind
//! it; a buffer that is opened holds the ciphertext and the tag behind it.

use crate::errors::Error;
use vstd::prelude::*;

verus! {

/// The length of a nonce, for every cipher.
pub const NONCE_SIZE: usize = 12;

/// The length of an authentication tag, for every cipher.
pub const TAG_SIZE: usize = 16;

/// The length of a key, for every cipher.
pub const KEY_SIZE: usize = 32;

/// The ciphers.
#[derive(Copy, Clone, Debug, PartialEq, Eq, Structural)]
pub enum Algorithm {
    AES256GCM,
    ChaCha20Poly1305,
}

impl Algorithm {
    /// The number by which the cipher is told from the others.
    pub open spec fn spec_id(self) -> int {
        match self {
            Algorithm::AES256GCM => 1,
            Algorithm::ChaCha20Poly1305 => 2,
        }
    }

    /// The length of the cipher's keys.
    pub open spec fn spec_key_len(self) -> nat {
        KEY_SIZE as nat
    }

    /// The length of the cipher's tags.
    pub open spec fn spec_tag_len(self) -> nat {
        TAG_SIZE as nat
    }

    /// The most bytes that the cipher seals or opens under one nonce: the
    /// blocks that its 32-bit counter can number, less those it keeps for
    /// itself.
    pub open spec fn spec_max_input_len(self) -> nat {
        match self {
            Algorithm::AES256GCM => 0xffff_fffe * 16,
            Algorithm::ChaCha20Poly1305 => 0xffff_ffff * 64,
        }
    }
}

/// What `ring` makes of a plaintext: the ciphertext, of the same length, and
/// the tag behind it.
pub uninterp spec fn spec_sealed(algo: int, key: Seq<u8>, nonce: Seq<u8>, aad: Seq<u8>, plaintext: Seq<u8>) -> Seq<u8>;

/// What `ring` makes of a ciphertext and its tag: the plaintext, or nothing
/// where it does not accept them.
pub uninterp spec fn spec_opened(algo: int, key: Seq<u8>, nonce: Seq<u8>, aad: Seq<u8>, sealed: Seq<u8>) -> Option<Seq<u8>>;

/// Calls `ring::aead::Algorithm::key_len` on the cipher's algorithm.
///
/// Trusted: both algorithms have keys of 32 bytes.
#[verifier::external_body]
pub(crate) fn key_len(algo: Algorithm) -> (r: usize)
    ensures
        r == algo.spec_key_len(),
{
    match algo {
        Algorithm::AES256GCM => ring::aead::AES_256_GCM.key_len(),
        Algorithm::ChaCha20Poly1305 => ring::aead::CHACHA20_POLY1305.key_len(),
    }
}

/// Calls `ring::aead::Algorithm::tag_len` on the cipher's algorithm.
///
/// Trusted: both algorithms have tags of 16 bytes.
#[verifier::external_body]
pub(crate) fn tag_len(algo: Algorithm) -> (r: usize)
    ensures
        r == algo.spec_tag_len(),
{
    match algo {
        Algorithm::AES256GCM => ring::aead::AES_256_GCM.tag_len(),
        Algorithm::ChaCha20Poly1305 => ring::aead::CHACHA20_POLY1305.tag_len(),
    }
}

/// Calls `ring::aead::LessSafeKey::seal_in_place_separate_tag` with a key
/// made by `ring::aead::UnboundKey::new`, and returns the tag.
///
/// Trusted: `ring` refuses a plaintext that is longer than the cipher allows
/// under one nonce, and then leaves it untouched; else it puts the ciphertext
/// in its place. Ciphertext and tag depend on the arguments alone, and
/// opening them with the same key, nonce and associated data gives the
/// plaintext back: that is what an AEAD is, and nothing here proves it of
/// `ring`.
#[verifier::external_body]
pub(crate) fn ring_seal(
    algo: Algorithm,
    key: &[u8],
    nonce: [u8; NONCE_SIZE],
    aad: &[u8],
    in_out: &mut [u8],
) -> (tag: Option<[u8; TAG_SIZE]>)
    requires
        key@.len() == algo.spec_key_len(),
    ensures
        final(in_out)@.len() == old(in_out)@.len(),
        tag is Some <==> old(in_out)@.len() <= algo.spec_max_input_len(),
        tag is None ==> final(in_out)@ == old(in_out)@,
        tag matches Some(t) ==> final(in_out)@ + t@ == spec_sealed(
            algo.spec_id(),
            key@,
            nonce@,
            aad@,
            old(in_out)@,
        ),
        tag matches Some(t) ==> spec_opened(
            algo.spec_id(),
            key@,
            nonce@,
            aad@,
            final(in_out)@ + t@,
        ) == Some(old(in_out)@),
{
    let algorithm = match algo {
        Algorithm::AES256GCM => &ring::aead::AES_256_GCM,
        Algorithm::ChaCha20Poly1305 => &ring::aead::CHACHA20_POLY1305,
    };
    let key = ring::aead::LessSafeKey::new(ring::aead::UnboundKey::new(algorithm, key).ok()?);
    let nonce = ring::aead::Nonce::assume_unique_for_key(nonce);
    let tag = key.seal_in_place_separate_tag(nonce, ring::aead::Aad::from(aad), in_out).ok()?;
    let mut out = [0u8; TAG_SIZE];
    out.copy_from_slice(tag.as_ref());
    Some(out)
}

/// Calls `ring::aead::LessSafeKey::open_in_place` with a key made by
/// `ring::aead::UnboundKey::new`, and says whether it succeeded.
///
/// Trusted: whether `ring` accepts the ciphertext and its tag, and the
/// plaintext that it then puts at the front of the buffer, depend on the
/// arguments alone; the plaintext is as long as the ciphertext. Where it
/// does not accept them, nothing is known of the buffer but its length.
#[verifier::external_body]
pub(crate) fn ring_open(
    algo: Algorithm,
    key: &[u8],
    nonce: [u8; NONCE_SIZE],
    aad: &[u8],
    in_out: &mut [u8],
) -> (ok: bool)
    requires
        key@.len() == algo.spec_key_len(),
    ensures
        final(in_out)@.len() == old(in_out)@.len(),
        match spec_opened(algo.spec_id(), key@, nonce@, aad@, old(in_out)@) {
            Some(plaintext) => ok && plaintext.len() + algo.spec_tag_len() == old(in_out)@.len()
                && final(in_out)@.take(plaintext.len() as int) == plaintext,
            None => !ok,
        },
{
    let algorithm = match algo {
        Algorithm::AES256GCM => &ring::aead::AES_256_GCM,
        Algorithm::ChaCha20Poly1305 => &ring::aead::CHACHA20_POLY1305,
    };
    match ring::aead::UnboundKey::new(algorithm, key) {
        Err(_) => false,
        Ok(key) => {
            let nonce = ring::aead::Nonce::assume_unique_for_key(nonce);
            ring::aead::LessSafeKey::new(key).open_in_place(nonce, ring::aead::Aad::from(aad), in_out).is_ok()
        },
    }
}

/// What sealing makes of a buffer that holds a plaintext and room for the
/// tag, or the error that it gives.
pub open spec fn spec_seal_in_place(
    algo: Algorithm,
    nonce: Seq<u8>,
    aad: Seq<u8>,
    key: Seq<u8>,
    buf: Seq<u8>,
) -> Result<Seq<u8>, Error> {
    if buf.len() < algo.spec_tag_len() {
        Err(Error::BufferTooSmall)
    } else if key.len() != algo.spec_key_len() {
        Err(Error::KeySizeMismatch)
    } else if buf.len() - algo.spec_tag_len() > algo.spec_max_input_len() {
        Err(Error::CryptoParamsWeak)
    } else {
        Ok(spec_sealed(algo.spec_id(), key, nonce, aad, buf.take(buf.len() - algo.spec_tag_len())))
    }
}

/// The plaintext that opening finds in a buffer that holds a ciphertext and
/// its tag, or the error that it gives.
pub open spec fn spec_open_in_place(
    algo: Algorithm,
    nonce: Seq<u8>,
    aad: Seq<u8>,
    key: Seq<u8>,
    buf: Seq<u8>,
) -> Result<Seq<u8>, Error> {
    if buf.len() < algo.spec_tag_len() {
        Err(Error::BufferTooSmall)
    } else if key.len() != algo.spec_key_len() {
        Err(Error::KeySizeMismatch)
    } else {
        match spec_opened(algo.spec_id(), key, nonce, aad, buf) {
            Some(plaintext) => Ok(plaintext),
            None => Err(Error::DecryptionError),
        }
    }
}

/// A buffer that is shorter than a tag is neither sealed nor opened: both
/// give `BufferTooSmall`, whatever the key, the nonce and the associated data.
pub proof fn lemma_buffer_too_small(
    algo: Algorithm,
    nonce: Seq<u8>,
    aad: Seq<u8>,
    key: Seq<u8>,
    buf: Seq<u8>,
)
    requires
        buf.len() < TAG_SIZE,
    ensures
        spec_seal_in_place(algo, nonce, aad, key, buf) == Err::<Seq<u8>, Error>(
            Error::BufferTooSmall,
        ),
        spec_open_in_place(algo, nonce, aad, key, buf) == Err::<Seq<u8>, Error>(
            Error::BufferTooSmall,
        ),
{
}

/// Seals the buffer in place: all of it but the last `TAG_SIZE` bytes is the
/// plaintext, which becomes the ciphertext, and the tag is written behind
/// it. Returns the number of bytes that ciphertext and tag take together.
///
/// The associated data is bound into the tag and not stored. A buffer that
/// cannot hold a tag is refused with `BufferTooSmall`, a key of the wrong
/// length with `KeySizeMismatch`, and a plaintext longer than the cipher
/// allows under one nonce with `CryptoParamsWeak`; the buffer is then left as
/// it was.
pub fn seal_in_place(
    algo: Algorithm,
    nonce: [u8; NONCE_SIZE],
    aad: &[u8],
    key: &[u8],
    buf: &mut [u8],
) -> (r: Result<usize, Error>)
    ensures
        match spec_seal_in_place(algo, nonce@, aad@, key@, old(buf)@) {
            Ok(sealed) => r == Ok::<usize, Error>(old(buf)@.len() as usize) && final(buf)@
                == sealed,
            Err(e) => r == Err::<usize, Error>(e) && final(buf)@ == old(buf)@,
        },
        final(buf)@.len() == old(buf)@.len(),
        r is Ok ==> spec_open_in_place(algo, nonce@, aad@, key@, final(buf)@) == Ok::<
            Seq<u8>,
            Error,
        >(old(buf)@.take(old(buf)@.len() - TAG_SIZE)),
{
    let tag_size = tag_len(algo);
    if buf.len() < tag_size {
        return Err(Error::BufferTooSmall);
    }
    if key.len() != key_len(algo) {
        return Err(Error::KeySizeMismatch);
    }
    let total = buf.len();
    let plaintext_size: usize = total - tag_size;
    let (in_out, tag_space) = buf.split_at_mut(plaintext_size);
    assert(in_out@ == old(buf)@.take(plaintext_size as int));
    match ring_seal(algo, key, nonce, aad, in_out) {
        None => {
            assert(buf@ =~= old(buf)@);
            Err(Error::CryptoParamsWeak)
        },
        Some(tag) => {
            let mut i: usize = 0;
            while i < tag_size
                invariant
                    i <= tag_size,
                    tag_size == TAG_SIZE,
                    tag_space@.len() == tag_size,
                    forall|j: int| 0 <= j < i ==> tag_space@[j] == tag@[j],
                decreases tag_size - i,
            {
                tag_space[i] = tag[i];
                i += 1;
            }
            assert(tag_space@ =~= tag@);
            assert(buf@ =~= in_out@ + tag@);
            Ok(total)
        },
    }
}

/// Opens the buffer in place: all of it but the last `TAG_SIZE` bytes is the
/// ciphertext, and the tag stands behind it. Where the tag fits the key, the
/// nonce, the associated data and the ciphertext, the plaintext takes the
/// place of the ciphertext and its length is returned.
///
/// A buffer that cannot hold a tag is refused with `BufferTooSmall` and a key
/// of the wrong length with `KeySizeMismatch`. Every other failure is a
/// `DecryptionError`, whatever its reason, and nothing is then known of what
/// the buffer holds.
pub fn open_in_place(
    algo: Algorithm,
    nonce: [u8; NONCE_SIZE],
    aad: &[u8],
    key: &[u8],
    buf: &mut [u8],
) -> (r: Result<usize, Error>)
    ensures
        match spec_open_in_place(algo, nonce@, aad@, key@, old(buf)@) {
            Ok(plaintext) => r == Ok::<usize, Error>(plaintext.len() as usize) && plaintext.len()
                + TAG_SIZE == old(buf)@.len() && final(buf)@.take(plaintext.len() as int)
                == plaintext,
            Err(e) => r == Err::<usize, Error>(e),
        },
        final(buf)@.len() == old(buf)@.len(),
        old(buf)@.len() < TAG_SIZE || key@.len() != KEY_SIZE ==> final(buf)@ == old(buf)@,
{
    let tag_size = tag_len(algo);
    if buf.len() < tag_size {
        return Err(Error::BufferTooSmall);
    }
    if key.len() != key_len(algo) {
        return Err(Error::KeySizeMismatch);
    }
    let total = buf.len();
    if ring_open(algo, key, nonce, aad, buf) {
        Ok(total - tag_size)
    } else {
        Err(Error::DecryptionError)
    }
}

} // verus!
