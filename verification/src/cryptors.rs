//! The cryptor: seals a plaintext into an envelope and opens an envelope.
//!
//! An envelope is a header with the parameters of the sealing, the
//! ciphertext, and the authentication tag. Sealing derives the key from the
//! secret as the parameters say, then encrypts in place; opening reads the
//! parameters from the header, derives the key in the same way, and decrypts
//! in place. Every call stands for itself: a cryptor holds nothing but the
//! associated data.

use crate::aead;
use crate::errors::Error;
use crate::metadata::{
    EncryptionAlgorithm, KeyDerivationAlgorithm, KeyDerivationAlgorithmView, Metadata,
    MetadataView, MAX_GENERATED_HEADER_SIZE, spec_zeros,
};
use crate::pbkdf2;
use vstd::prelude::*;
use vstd::slice::{slice_subrange, slice_to_vec};

verus! {

/// The length of the longest key of any cipher.
pub const MAX_KEY_SIZE: usize = 32;

/// The key that is made from the secret, or the error that making it gives:
/// without key derivation the secret itself, which must have the length of
/// the key; else what PBKDF2 derives.
pub open spec fn spec_derive_key(algo: KeyDerivationAlgorithmView, secret: Seq<u8>, len: nat) -> Result<
    Seq<u8>,
    Error,
> {
    match algo {
        KeyDerivationAlgorithmView::NoDerivation => if secret.len() != len {
            Err(Error::KeySizeMismatch)
        } else {
            Ok(secret)
        },
        KeyDerivationAlgorithmView::PBKDF2(meta) => pbkdf2::spec_derive_key(
            meta.hash_fn,
            meta.iterations,
            meta.salt,
            secret,
            len,
        ),
    }
}

/// Whether the key that is made from the secret, where one is made, has the
/// length of the keys of the parameters' cipher. Every call that makes the
/// key finds that it has.
pub open spec fn spec_key_fits(meta: MetadataView, secret: Seq<u8>) -> bool {
    spec_derive_key(
        meta.key_deriv_algo,
        secret,
        meta.enc_algo.spec_algorithm().spec_key_len(),
    ) matches Ok(key) ==> key.len() == meta.enc_algo.spec_algorithm().spec_key_len()
}

/// What sealing in place makes of a buffer, or the error that it gives: that
/// of the key derivation first, else that of the cipher.
pub open spec fn spec_seal_in_place(
    aad: Seq<u8>,
    meta: MetadataView,
    secret: Seq<u8>,
    buf: Seq<u8>,
) -> Result<Seq<u8>, Error> {
    let algo = meta.enc_algo.spec_algorithm();
    match spec_derive_key(meta.key_deriv_algo, secret, algo.spec_key_len()) {
        Err(e) => Err(e),
        Ok(key) => aead::spec_seal_in_place(algo, meta.enc_algo.spec_nonce(), aad, key, buf),
    }
}

/// The plaintext that opening in place finds in a buffer, or the error that
/// it gives: that of the key derivation first, else that of the cipher.
pub open spec fn spec_open_in_place(
    aad: Seq<u8>,
    meta: MetadataView,
    secret: Seq<u8>,
    buf: Seq<u8>,
) -> Result<Seq<u8>, Error> {
    let algo = meta.enc_algo.spec_algorithm();
    match spec_derive_key(meta.key_deriv_algo, secret, algo.spec_key_len()) {
        Err(e) => Err(e),
        Ok(key) => aead::spec_open_in_place(algo, meta.enc_algo.spec_nonce(), aad, key, buf),
    }
}

/// What is sealed for a plaintext: the plaintext, filled up with zeros to
/// the length that the parameters give for it, and room for the tag.
pub open spec fn spec_sealing_input(meta: MetadataView, plaintext: Seq<u8>) -> Seq<u8> {
    plaintext + spec_zeros(
        (meta.ciphertext_size + meta.enc_algo.spec_algorithm().spec_tag_len()
            - plaintext.len()) as nat,
    )
}

/// The envelope that is made for a plaintext, or the error that sealing
/// gives.
pub open spec fn spec_seal_with_meta(
    aad: Seq<u8>,
    meta: MetadataView,
    secret: Seq<u8>,
    plaintext: Seq<u8>,
) -> Result<Seq<u8>, Error> {
    match spec_seal_in_place(aad, meta, secret, spec_sealing_input(meta, plaintext)) {
        Err(e) => Err(e),
        Ok(sealed) => Ok(meta.spec_header() + sealed),
    }
}

/// The plaintext that is found in an envelope, or the error that opening
/// gives: that of reading the header first, else that of opening what stands
/// behind the header with the header's parameters.
pub open spec fn spec_open(aad: Seq<u8>, secret: Seq<u8>, buf: Seq<u8>) -> Result<Seq<u8>, Error> {
    match MetadataView::spec_from_buf(buf) {
        Err(e) => Err(e),
        Ok((meta, n)) => spec_open_in_place(aad, meta, secret, buf.skip(n as int)),
    }
}

/// Where the key can be made, a buffer that is shorter than a tag is neither
/// sealed nor opened: both give `BufferTooSmall`.
pub proof fn lemma_buffer_too_small(
    aad: Seq<u8>,
    meta: MetadataView,
    secret: Seq<u8>,
    buf: Seq<u8>,
)
    requires
        buf.len() < aead::TAG_SIZE,
        spec_derive_key(
            meta.key_deriv_algo,
            secret,
            meta.enc_algo.spec_algorithm().spec_key_len(),
        ) is Ok,
    ensures
        spec_seal_in_place(aad, meta, secret, buf) == Err::<Seq<u8>, Error>(Error::BufferTooSmall),
        spec_open_in_place(aad, meta, secret, buf) == Err::<Seq<u8>, Error>(Error::BufferTooSmall),
{
}

/// Without key derivation, a secret that has not the length of the cipher's
/// key is refused with `KeySizeMismatch`: by sealing in place, by sealing
/// into an envelope, and by opening.
pub proof fn lemma_key_size_mismatch(
    aad: Seq<u8>,
    meta: MetadataView,
    secret: Seq<u8>,
    data: Seq<u8>,
)
    requires
        meta.key_deriv_algo is NoDerivation,
        secret.len() != aead::KEY_SIZE,
    ensures
        spec_seal_in_place(aad, meta, secret, data) == Err::<Seq<u8>, Error>(
            Error::KeySizeMismatch,
        ),
        spec_seal_with_meta(aad, meta, secret, data) == Err::<Seq<u8>, Error>(
            Error::KeySizeMismatch,
        ),
        spec_open_in_place(aad, meta, secret, data) == Err::<Seq<u8>, Error>(
            Error::KeySizeMismatch,
        ),
{
}

/// With key derivation, an empty secret is refused with
/// `PassphraseTooSmall`: by sealing in place, by sealing into an envelope,
/// and by opening.
pub proof fn lemma_passphrase_too_small(
    aad: Seq<u8>,
    meta: MetadataView,
    data: Seq<u8>,
)
    requires
        meta.key_deriv_algo is PBKDF2,
    ensures
        spec_seal_in_place(aad, meta, Seq::empty(), data) == Err::<Seq<u8>, Error>(
            Error::PassphraseTooSmall,
        ),
        spec_seal_with_meta(aad, meta, Seq::empty(), data) == Err::<Seq<u8>, Error>(
            Error::PassphraseTooSmall,
        ),
        spec_open_in_place(aad, meta, Seq::empty(), data) == Err::<Seq<u8>, Error>(
            Error::PassphraseTooSmall,
        ),
{
}

/// A buffer that is shorter than the shortest header is no envelope:
/// opening it gives `MetadataMissing`, whatever it holds.
pub proof fn lemma_header_missing(aad: Seq<u8>, secret: Seq<u8>, buf: Seq<u8>)
    requires
        buf.len() < crate::metadata::MIN_HEADER_SIZE,
    ensures
        MetadataView::spec_from_buf(buf) == Err::<(MetadataView, nat), Error>(
            Error::MetadataMissing,
        ),
        spec_open(aad, secret, buf) == Err::<Seq<u8>, Error>(Error::MetadataMissing),
{
}

/// Opening is opening what stands behind the header, with the header's
/// parameters: what the bytes behind the header are does not change how the
/// header is read. So whether an envelope opens, once a byte of its
/// ciphertext or tag has changed, or with other associated data, is for the
/// cipher alone to say.
pub proof fn lemma_open_behind_header(
    aad: Seq<u8>,
    meta: MetadataView,
    secret: Seq<u8>,
    rest: Seq<u8>,
)
    requires
        meta.spec_wf(),
        meta.spec_message().len() <= u32::MAX,
    ensures
        spec_open(aad, secret, meta.spec_header() + rest) == spec_open_in_place(
            aad,
            meta,
            secret,
            rest,
        ),
{
    let header = meta.spec_header();
    meta.lemma_from_buf_of_header(rest);
    assert((header + rest).skip(header.len() as int) =~= rest);
}

/// An envelope opens to the plaintext that was sealed into it, where the
/// opening has the secret and the associated data of the sealing, and the
/// key that is made from the secret is one that opens what it sealed.
pub proof fn lemma_envelope_opens(
    aad: Seq<u8>,
    meta: MetadataView,
    secret: Seq<u8>,
    plaintext: Seq<u8>,
)
    requires
        meta.spec_wf(),
        meta.spec_message().len() <= u32::MAX,
        plaintext.len() == meta.ciphertext_size,
        spec_seal_in_place(aad, meta, secret, spec_sealing_input(meta, plaintext))
            matches Ok(sealed) && spec_open_in_place(aad, meta, secret, sealed) == Ok::<
            Seq<u8>,
            Error,
        >(plaintext),
    ensures
        spec_seal_with_meta(aad, meta, secret, plaintext) matches Ok(envelope) && spec_open(
            aad,
            secret,
            envelope,
        ) == Ok::<Seq<u8>, Error>(plaintext),
{
    let sealed = spec_seal_in_place(aad, meta, secret, spec_sealing_input(meta, plaintext))->Ok_0;
    lemma_open_behind_header(aad, meta, secret, sealed);
}

/// A cryptor on the primitives of `ring`.
#[derive(Copy, Clone, Debug, PartialEq)]
pub struct RingCryptor<'a> {
    aad: &'a [u8],
}

impl<'a> RingCryptor<'a> {
    /// The associated data that the cryptor binds to what it seals.
    pub closed spec fn spec_aad(&self) -> Seq<u8> {
        self.aad@
    }

    /// A cryptor without associated data.
    pub fn new() -> (r: Self)
        ensures
            r.spec_aad() == Seq::<u8>::empty(),
    {
        Self { aad: &[] }
    }

    /// The cryptor with the given associated data. They are bound to the
    /// ciphertext and not stored with it: opening needs the same.
    pub fn with_aad(self, aad: &'a [u8]) -> (r: Self)
        ensures
            r.spec_aad() == aad@,
    {
        Self { aad }
    }

    /// The length of the key of the parameters' cipher.
    fn _get_key_size(&self, meta: &Metadata) -> (r: usize)
        ensures
            r == meta@.enc_algo.spec_algorithm().spec_key_len(),
            r <= MAX_KEY_SIZE,
    {
        match meta.enc_algo {
            EncryptionAlgorithm::AES256GCM(_) => aead::key_len(aead::Algorithm::AES256GCM),
            EncryptionAlgorithm::ChaCha20Poly1305(_) => aead::key_len(
                aead::Algorithm::ChaCha20Poly1305,
            ),
        }
    }

    /// Seals the buffer in place with the cipher and the nonce of the
    /// parameters.
    fn _seal_in_place(&self, enc_algo: &EncryptionAlgorithm, key: &[u8], buf: &mut [u8]) -> (r:
        Result<usize, Error>)
        ensures
            match aead::spec_seal_in_place(
                enc_algo@.spec_algorithm(),
                enc_algo@.spec_nonce(),
                self.spec_aad(),
                key@,
                old(buf)@,
            ) {
                Ok(sealed) => r == Ok::<usize, Error>(old(buf)@.len() as usize) && final(buf)@
                    == sealed,
                Err(e) => r == Err::<usize, Error>(e) && final(buf)@ == old(buf)@,
            },
            final(buf)@.len() == old(buf)@.len(),
            r is Ok ==> aead::spec_open_in_place(
                enc_algo@.spec_algorithm(),
                enc_algo@.spec_nonce(),
                self.spec_aad(),
                key@,
                final(buf)@,
            ) == Ok::<Seq<u8>, Error>(old(buf)@.take(old(buf)@.len() - aead::TAG_SIZE)),
    {
        let algo: aead::Algorithm;
        let nonce: [u8; aead::NONCE_SIZE];
        match enc_algo {
            EncryptionAlgorithm::AES256GCM(meta) => {
                algo = aead::Algorithm::AES256GCM;
                nonce = meta.nonce;
            },
            EncryptionAlgorithm::ChaCha20Poly1305(meta) => {
                algo = aead::Algorithm::ChaCha20Poly1305;
                nonce = meta.nonce;
            },
        }
        aead::seal_in_place(algo, nonce, self.aad, key, buf)
    }

    /// Opens the buffer in place with the cipher and the nonce of the
    /// parameters.
    fn _open_in_place(&self, enc_algo: &EncryptionAlgorithm, key: &[u8], buf: &mut [u8]) -> (r:
        Result<usize, Error>)
        ensures
            match aead::spec_open_in_place(
                enc_algo@.spec_algorithm(),
                enc_algo@.spec_nonce(),
                self.spec_aad(),
                key@,
                old(buf)@,
            ) {
                Ok(plaintext) => r == Ok::<usize, Error>(plaintext.len() as usize)
                    && plaintext.len() + aead::TAG_SIZE == old(buf)@.len() && final(buf)@.take(
                    plaintext.len() as int,
                ) == plaintext,
                Err(e) => r == Err::<usize, Error>(e),
            },
            final(buf)@.len() == old(buf)@.len(),
    {
        let algo: aead::Algorithm;
        let nonce: [u8; aead::NONCE_SIZE];
        match enc_algo {
            EncryptionAlgorithm::AES256GCM(meta) => {
                algo = aead::Algorithm::AES256GCM;
                nonce = meta.nonce;
            },
            EncryptionAlgorithm::ChaCha20Poly1305(meta) => {
                algo = aead::Algorithm::ChaCha20Poly1305;
                nonce = meta.nonce;
            },
        }
        aead::open_in_place(algo, nonce, self.aad, key, buf)
    }

    /// Makes the key from the secret, as the parameters say.
    fn _derive_key(&self, key_deriv_algo: &KeyDerivationAlgorithm, secret: &[u8], key: &mut [
        u8
    ]) -> (r: Result<(), Error>)
        requires
            old(key)@.len() <= pbkdf2::MAX_DERIVED_KEY_SIZE,
        ensures
            final(key)@.len() == old(key)@.len(),
            match spec_derive_key(key_deriv_algo@, secret@, old(key)@.len()) {
                Ok(derived) => r is Ok && final(key)@ == derived && derived.len() == old(
                    key,
                )@.len(),
                Err(e) => r == Err::<(), Error>(e) && final(key)@ == old(key)@,
            },
    {
        match key_deriv_algo {
            KeyDerivationAlgorithm::NoDerivation => {
                if key.len() != secret.len() {
                    return Err(Error::KeySizeMismatch);
                }
                let mut i: usize = 0;
                while i < key.len()
                    invariant
                        i <= key@.len(),
                        key@.len() == secret@.len(),
                        forall|j: int| 0 <= j < i ==> key@[j] == secret@[j],
                    decreases key@.len() - i,
                {
                    key[i] = secret[i];
                    i += 1;
                }
                assert(key@ =~= secret@);
                Ok(())
            },
            KeyDerivationAlgorithm::PBKDF2(meta) => {
                pbkdf2::derive_key(meta.hash_fn, meta.iterations, meta.salt.as_slice(), secret, key)
            },
        }
    }

    /// Seals the buffer in place. The buffer holds the plaintext and, behind
    /// it, room for the tag; the ciphertext takes the place of the plaintext
    /// and the tag is written behind it. Returns the number of bytes that the
    /// two take together, which is the length of the buffer.
    ///
    /// The key is made from the secret as the parameters say. The first
    /// error ends the call, and the buffer is then as it was.
    pub fn seal_in_place(&self, meta: &Metadata, secret: &[u8], buf: &mut [u8]) -> (r: Result<
        usize,
        Error,
    >)
        ensures
            match spec_seal_in_place(self.spec_aad(), meta@, secret@, old(buf)@) {
                Ok(sealed) => r == Ok::<usize, Error>(old(buf)@.len() as usize) && final(buf)@
                    == sealed,
                Err(e) => r == Err::<usize, Error>(e) && final(buf)@ == old(buf)@,
            },
            final(buf)@.len() == old(buf)@.len(),
            spec_key_fits(meta@, secret@),
            r is Ok ==> spec_open_in_place(self.spec_aad(), meta@, secret@, final(buf)@) == Ok::<
                Seq<u8>,
                Error,
            >(old(buf)@.take(old(buf)@.len() - aead::TAG_SIZE)),
    {
        let mut key_buf = [0u8; MAX_KEY_SIZE];
        let key_size = self._get_key_size(meta);
        let whole: &mut [u8] = &mut key_buf;
        let (key, _) = whole.split_at_mut(key_size);
        match self._derive_key(&meta.key_deriv_algo, secret, key) {
            Err(e) => { return Err(e); },
            Ok(()) => {},
        }
        self._seal_in_place(&meta.enc_algo, key, buf)
    }

    /// Seals a plaintext into a new envelope: the header of the parameters,
    /// the ciphertext and the tag.
    ///
    /// The envelope has room for a plaintext of the length that the
    /// parameters give. A shorter plaintext is filled up with zeros to that
    /// length.
    pub fn seal_with_meta(&self, meta: &Metadata, secret: &[u8], plaintext: &[u8]) -> (r: Result<
        Vec<u8>,
        Error,
    >)
        requires
            meta@.spec_fits(),
            plaintext@.len() <= meta@.ciphertext_size + aead::TAG_SIZE,
        ensures
            match spec_seal_with_meta(self.spec_aad(), meta@, secret@, plaintext@) {
                Ok(envelope) => r matches Ok(buf) && buf@ == envelope,
                Err(e) => r matches Err(f) && f == e,
            },
            spec_key_fits(meta@, secret@),
            r matches Ok(buf) ==> MetadataView::spec_from_buf(buf@) == Ok::<
                (MetadataView, nat),
                Error,
            >((meta@, meta@.spec_header().len())),
            r matches Ok(buf) ==> buf@.len() == meta@.spec_buf_len() && spec_open(
                self.spec_aad(),
                secret@,
                buf@,
            ) == Ok::<Seq<u8>, Error>(
                spec_sealing_input(meta@, plaintext@).take(meta@.ciphertext_size as int),
            ),
            r is Ok && plaintext@.len() == meta@.ciphertext_size ==> spec_open(
                self.spec_aad(),
                secret@,
                r->Ok_0@,
            ) == Ok::<Seq<u8>, Error>(plaintext@),
    {
        let (mut buf, meta_size) = meta.to_buf();
        let ghost header = meta@.spec_header();
        let (head, ciphertext) = buf.as_mut_slice().split_at_mut(meta_size);
        let mut i: usize = 0;
        while i < plaintext.len()
            invariant
                i <= plaintext@.len(),
                plaintext@.len() <= ciphertext@.len(),
                ciphertext@.len() == meta@.ciphertext_size + aead::TAG_SIZE,
                forall|j: int| 0 <= j < i ==> ciphertext@[j] == plaintext@[j],
                forall|j: int| i <= j < ciphertext@.len() ==> ciphertext@[j] == 0,
            decreases plaintext@.len() - i,
        {
            ciphertext[i] = plaintext[i];
            i += 1;
        }
        let ghost input = ciphertext@;
        assert(input =~= spec_sealing_input(meta@, plaintext@));
        assert(head@ =~= header);
        match self.seal_in_place(meta, secret, ciphertext) {
            Err(e) => { return Err(e); },
            Ok(_) => {},
        }
        proof {
            let sealed = ciphertext@;
            assert(buf@ =~= header + sealed);
            meta@.lemma_from_buf_of_header(sealed);
            assert(buf@.skip(header.len() as int) =~= sealed);
            assert(input.take(input.len() - aead::TAG_SIZE) =~= input.take(
                meta@.ciphertext_size as int,
            ));
            if plaintext@.len() == meta@.ciphertext_size {
                assert(input.take(meta@.ciphertext_size as int) =~= plaintext@);
            }
        }
        Ok(buf)
    }

    /// Seals a plaintext with a key into a new envelope, with parameters
    /// that are generated for it: no key derivation, a fresh nonce.
    pub fn seal_with_key(&self, key: &[u8], plaintext: &[u8]) -> (r: Result<Vec<u8>, Error>)
        requires
            plaintext@.len() + MAX_GENERATED_HEADER_SIZE + aead::TAG_SIZE <= usize::MAX,
        ensures
            match r {
                Ok(buf) => key@.len() == aead::KEY_SIZE && plaintext@.len()
                    <= aead::Algorithm::AES256GCM.spec_max_input_len(),
                Err(e) => if key@.len() != aead::KEY_SIZE {
                    e == Error::KeySizeMismatch
                } else {
                    e == Error::CryptoParamsWeak && plaintext@.len()
                        > aead::Algorithm::AES256GCM.spec_max_input_len()
                },
            },
            r matches Ok(buf) ==> spec_open(self.spec_aad(), key@, buf@) == Ok::<Seq<u8>, Error>(
                plaintext@,
            ),
            r matches Ok(buf) ==> exists|meta: MetadataView|
                {
                    &&& meta.spec_generated_for_key(plaintext@.len())
                    &&& #[trigger] spec_seal_with_meta(self.spec_aad(), meta, key@, plaintext@)
                        == Ok::<Seq<u8>, Error>(buf@)
                    &&& MetadataView::spec_from_buf(buf@) == Ok::<(MetadataView, nat), Error>(
                        (meta, meta.spec_header().len()),
                    )
                    &&& buf@.len() == meta.spec_header().len() + plaintext@.len()
                        + aead::TAG_SIZE
                },
    {
        let meta = Metadata::generate_for_key(plaintext.len());
        proof {
            meta@.lemma_generated_fits(plaintext@.len());
        }
        self.seal_with_meta(&meta, key, plaintext)
    }

    /// Seals a plaintext with a passphrase into a new envelope, with
    /// parameters that are generated for it: a key derivation by PBKDF2 with
    /// a fresh salt, and a fresh nonce.
    pub fn seal_with_passphrase(&self, pass: &[u8], plaintext: &[u8]) -> (r: Result<Vec<u8>, Error>)
        requires
            plaintext@.len() + MAX_GENERATED_HEADER_SIZE + aead::TAG_SIZE <= usize::MAX,
        ensures
            match r {
                Ok(buf) => pass@.len() != 0 && plaintext@.len()
                    <= aead::Algorithm::AES256GCM.spec_max_input_len(),
                Err(e) => if pass@.len() == 0 {
                    e == Error::PassphraseTooSmall
                } else {
                    e == Error::CryptoParamsWeak && plaintext@.len()
                        > aead::Algorithm::AES256GCM.spec_max_input_len()
                },
            },
            r matches Ok(buf) ==> spec_open(self.spec_aad(), pass@, buf@) == Ok::<Seq<u8>, Error>(
                plaintext@,
            ),
            r matches Ok(buf) ==> exists|meta: MetadataView|
                {
                    &&& meta.spec_generated_for_passphrase(plaintext@.len())
                    &&& #[trigger] spec_seal_with_meta(self.spec_aad(), meta, pass@, plaintext@)
                        == Ok::<Seq<u8>, Error>(buf@)
                    &&& MetadataView::spec_from_buf(buf@) == Ok::<(MetadataView, nat), Error>(
                        (meta, meta.spec_header().len()),
                    )
                    &&& buf@.len() == meta.spec_header().len() + plaintext@.len()
                        + aead::TAG_SIZE
                },
    {
        let meta = Metadata::generate_for_passphrase(plaintext.len());
        proof {
            meta@.lemma_generated_fits(plaintext@.len());
        }
        self.seal_with_meta(&meta, pass, plaintext)
    }

    /// Opens the buffer in place. The buffer holds the ciphertext and,
    /// behind it, the tag; the plaintext takes the place of the ciphertext,
    /// and its length is returned.
    ///
    /// The key is made from the secret as the parameters say. The first
    /// error ends the call. After a `DecryptionError` nothing is known of
    /// what the buffer holds.
    pub fn open_in_place(&self, meta: &Metadata, secret: &[u8], buf: &mut [u8]) -> (r: Result<
        usize,
        Error,
    >)
        ensures
            match spec_open_in_place(self.spec_aad(), meta@, secret@, old(buf)@) {
                Ok(plaintext) => r == Ok::<usize, Error>(plaintext.len() as usize)
                    && plaintext.len() + aead::TAG_SIZE == old(buf)@.len() && final(buf)@.take(
                    plaintext.len() as int,
                ) == plaintext,
                Err(e) => r == Err::<usize, Error>(e),
            },
            final(buf)@.len() == old(buf)@.len(),
            spec_key_fits(meta@, secret@),
    {
        let mut key_buf = [0u8; MAX_KEY_SIZE];
        let key_size = self._get_key_size(meta);
        let whole: &mut [u8] = &mut key_buf;
        let (key, _) = whole.split_at_mut(key_size);
        match self._derive_key(&meta.key_deriv_algo, secret, key) {
            Err(e) => { return Err(e); },
            Ok(()) => {},
        }
        self._open_in_place(&meta.enc_algo, key, buf)
    }

    /// Opens a ciphertext with its tag, and returns the plaintext. The
    /// ciphertext is left as it is.
    pub fn open_with_meta(&self, meta: &Metadata, secret: &[u8], ciphertext: &[u8]) -> (r: Result<
        Vec<u8>,
        Error,
    >)
        ensures
            match spec_open_in_place(self.spec_aad(), meta@, secret@, ciphertext@) {
                Ok(plaintext) => r matches Ok(p) && p@ == plaintext,
                Err(e) => r matches Err(f) && f == e,
            },
            spec_key_fits(meta@, secret@),
    {
        let mut buf = slice_to_vec(ciphertext);
        let size = match self.open_in_place(meta, secret, buf.as_mut_slice()) {
            Err(e) => { return Err(e); },
            Ok(size) => size,
        };
        buf.truncate(size);
        assert(buf@ =~= buf@.take(size as int));
        Ok(buf)
    }

    /// Opens an envelope, and returns the plaintext. The envelope is left
    /// as it is.
    ///
    /// The header at the front says how the key is made and which cipher
    /// opens what stands behind it.
    pub fn open(&self, secret: &[u8], buf: &[u8]) -> (r: Result<Vec<u8>, Error>)
        ensures
            match spec_open(self.spec_aad(), secret@, buf@) {
                Ok(plaintext) => r matches Ok(p) && p@ == plaintext,
                Err(e) => r matches Err(f) && f == e,
            },
    {
        let (meta, meta_size) = match Metadata::from_buf(buf) {
            Err(e) => { return Err(e); },
            Ok(found) => found,
        };
        let ciphertext = slice_subrange(buf, meta_size, buf.len());
        self.open_with_meta(&meta, secret, ciphertext)
    }
}

} // verus!
