use tindercrypt::errors::Error;
use tindercrypt::metadata::{
    EncryptionAlgorithm, EncryptionMetadata, HashFunction, KeyDerivationAlgorithm,
    KeyDerivationMetadata, Metadata, MAX_GENERATED_HEADER_SIZE, MIN_HEADER_SIZE,
};
use tindercrypt::proto::metadata as pmeta;

const NONCE: [u8; 12] = [1, 2, 3, 4, 5, 6, 7, 8, 9, 10, 11, 12];

fn smallest() -> Metadata {
    Metadata::new(
        KeyDerivationAlgorithm::NoDerivation,
        EncryptionAlgorithm::AES256GCM(EncryptionMetadata::new(NONCE)),
        0,
    )
}

fn with_passphrase() -> Metadata {
    Metadata::new(
        KeyDerivationAlgorithm::PBKDF2(KeyDerivationMetadata::new(
            HashFunction::SHA512,
            300,
            vec![0xaa; 8],
        )),
        EncryptionAlgorithm::ChaCha20Poly1305(EncryptionMetadata::new(NONCE)),
        17,
    )
}

fn all_kinds() -> Vec<Metadata> {
    let mut all = vec![smallest(), with_passphrase()];
    for hash_fn in [HashFunction::SHA256, HashFunction::SHA384, HashFunction::SHA512] {
        for iterations in [0u64, 1, 100_000, u64::MAX] {
            for salt_len in [0usize, 8, 32, 200] {
                for size in [0usize, 1, 127, 128, 70_000] {
                    all.push(Metadata::new(
                        KeyDerivationAlgorithm::PBKDF2(KeyDerivationMetadata::new(
                            hash_fn,
                            iterations,
                            vec![0x5a; salt_len],
                        )),
                        EncryptionAlgorithm::AES256GCM(EncryptionMetadata::new([0xff; 12])),
                        size,
                    ));
                    all.push(Metadata::new(
                        KeyDerivationAlgorithm::NoDerivation,
                        EncryptionAlgorithm::ChaCha20Poly1305(EncryptionMetadata::new([0; 12])),
                        size,
                    ));
                }
            }
        }
    }
    all
}

#[test]
fn test_generated_parameters() {
    let first = KeyDerivationMetadata::generate();
    let second = KeyDerivationMetadata::generate();
    assert_eq!(first.hash_fn, HashFunction::SHA256);
    assert_eq!(first.iterations, 100_000);
    assert_eq!(first.salt.len(), 32);
    assert_ne!(first.salt, second.salt);
    assert_ne!(first.salt, vec![0u8; 32]);

    let first = EncryptionMetadata::generate();
    let second = EncryptionMetadata::generate();
    assert_ne!(first.nonce, second.nonce);
    assert_ne!(first.nonce, [0u8; 12]);

    let meta = Metadata::generate_for_passphrase(17);
    assert_eq!(meta.ciphertext_size, 17);
    assert!(matches!(meta.enc_algo, EncryptionAlgorithm::AES256GCM(_)));
    match &meta.key_deriv_algo {
        KeyDerivationAlgorithm::PBKDF2(m) => {
            assert_eq!(m.hash_fn, HashFunction::SHA256);
            assert_eq!(m.iterations, 100_000);
            assert_eq!(m.salt.len(), 32);
        }
        KeyDerivationAlgorithm::NoDerivation => panic!("a key derivation was expected"),
    }
    let (buf, header_len) = meta.to_buf();
    assert_eq!(header_len, 65);
    assert_eq!(buf.len(), 65 + 17 + 16);
    assert!(header_len <= MAX_GENERATED_HEADER_SIZE);

    let meta = Metadata::generate_for_key(usize::MAX / 2);
    assert_eq!(meta.ciphertext_size, (usize::MAX / 2) as u64);
    assert!(matches!(meta.enc_algo, EncryptionAlgorithm::AES256GCM(_)));
    assert_eq!(meta.key_deriv_algo, KeyDerivationAlgorithm::NoDerivation);
}

#[test]
fn test_constructors() {
    let meta = KeyDerivationMetadata::new(HashFunction::SHA384, 5, vec![1, 2, 3]);
    assert_eq!(meta.hash_fn, HashFunction::SHA384);
    assert_eq!(meta.iterations, 5);
    assert_eq!(meta.salt, vec![1, 2, 3]);
    assert_eq!(meta.clone(), meta);
    assert_eq!(EncryptionMetadata::new(NONCE).nonce, NONCE);
    assert_eq!(EncryptionMetadata::from_bytes(&NONCE), Some(EncryptionMetadata::new(NONCE)));
    assert_eq!(EncryptionMetadata::from_bytes(&NONCE[..11]), None);
    assert_eq!(EncryptionMetadata::from_bytes(&[0u8; 13]), None);
    let enc = EncryptionAlgorithm::ChaCha20Poly1305(EncryptionMetadata::new(NONCE));
    assert_eq!(enc.algorithm(), tindercrypt::aead::Algorithm::ChaCha20Poly1305);
    assert_eq!(enc.nonce(), NONCE);
    let enc = EncryptionAlgorithm::AES256GCM(EncryptionMetadata::new(NONCE));
    assert_eq!(enc.algorithm(), tindercrypt::aead::Algorithm::AES256GCM);
    let meta = Metadata::new(KeyDerivationAlgorithm::NoDerivation, enc, 42);
    assert_eq!(meta.ciphertext_size, 42);
    assert_eq!(meta.enc_algo, enc);
    assert_eq!(meta.clone(), meta);
    assert_eq!(with_passphrase().clone(), with_passphrase());
}

#[test]
fn test_smallest_header() {
    let (buf, header_len) = smallest().to_buf();
    assert_eq!(header_len, MIN_HEADER_SIZE);
    let mut expected: Vec<u8> = vec![22, 0x0a, 0x02, 0x08, 0x01, 0x12, 0x10, 0x08, 0x01, 0x12, 0x0c];
    expected.extend_from_slice(&NONCE);
    expected.extend_from_slice(&[0u8; 16]);
    assert_eq!(buf, expected);
    assert_eq!(Metadata::from_buf(&buf), Ok((smallest(), 23)));
    assert_eq!(Metadata::from_buf(&buf[..23]), Ok((smallest(), 23)));
    assert_eq!(Metadata::from_buf(&buf[..22]), Err(Error::MetadataMissing));
}

#[test]
fn test_header_with_key_derivation() {
    let (buf, header_len) = with_passphrase().to_buf();
    let mut expected: Vec<u8> = vec![
        39, 0x0a, 0x11, 0x08, 0x02, 0x10, 0x03, 0x18, 0xac, 0x02, 0x22, 0x08, 0xaa, 0xaa, 0xaa,
        0xaa, 0xaa, 0xaa, 0xaa, 0xaa, 0x12, 0x10, 0x08, 0x02, 0x12, 0x0c,
    ];
    expected.extend_from_slice(&NONCE);
    expected.extend_from_slice(&[0x18, 0x11]);
    assert_eq!(header_len, 40);
    assert_eq!(buf.len(), 40 + 17 + 16);
    assert_eq!(buf[..40], expected[..]);
    assert_eq!(buf[40..], [0u8; 33]);
    assert_eq!(Metadata::from_buf(&buf), Ok((with_passphrase(), 40)));
}

#[test]
fn test_header_round_trip() {
    for meta in all_kinds() {
        let (buf, header_len) = meta.to_buf();
        assert!(header_len >= MIN_HEADER_SIZE);
        assert_eq!(buf.len(), header_len + meta.ciphertext_size as usize + 16);
        assert!(buf[header_len..].iter().all(|b| *b == 0));
        assert_eq!(Metadata::from_buf(&buf), Ok((meta.clone(), header_len)));
        // What stands behind the header is not looked at.
        let mut other = buf[..header_len].to_vec();
        other.extend_from_slice(&[0xff; 3]);
        assert_eq!(Metadata::from_buf(&other), Ok((meta.clone(), header_len)));
        assert_eq!(Metadata::from_buf(&buf[..header_len]), Ok((meta.clone(), header_len)));
        // A header that is cut short is none.
        let cut = Metadata::from_buf(&buf[..header_len - 1]);
        if header_len - 1 < MIN_HEADER_SIZE {
            assert_eq!(cut, Err(Error::MetadataMissing));
        } else {
            assert_eq!(cut, Err(Error::MetadataInvalid));
        }
    }
}

#[test]
fn test_messages_of_the_parameters() {
    for meta in all_kinds() {
        let message = meta.to_proto();
        assert!(message.has_key_deriv_meta());
        assert!(message.has_enc_meta());
        assert_eq!(message.get_ciphertext_size(), meta.ciphertext_size);
        assert_eq!(Metadata::from_proto(&message), Ok(meta.clone()));
        assert_eq!(KeyDerivationAlgorithm::from_proto(&meta.key_deriv_algo.to_proto()).as_ref(), Ok(&meta.key_deriv_algo));
        assert_eq!(EncryptionAlgorithm::from_proto(&meta.enc_algo.to_proto()), Ok(meta.enc_algo));
    }
    let message = with_passphrase().to_proto();
    let key = message.get_key_deriv_meta();
    assert_eq!(key.get_algo(), pmeta::KeyDerivationAlgorithm::KEY_DERIVATION_ALGORITHM_PBKDF2);
    assert_eq!(key.get_hash_fn(), pmeta::HashFunction::HASH_FUNCTION_SHA512);
    assert_eq!(key.get_iterations(), 300);
    assert_eq!(key.get_salt(), &[0xaa; 8]);
    let enc = message.get_enc_meta();
    assert_eq!(enc.get_algo(), pmeta::EncryptionAlgorithm::ENCRYPTION_ALGORITHM_CHACHA20_POLY1305);
    assert_eq!(enc.get_nonce(), &NONCE);
    let message = smallest().to_proto();
    let key = message.get_key_deriv_meta();
    assert_eq!(key.get_algo(), pmeta::KeyDerivationAlgorithm::KEY_DERIVATION_ALGORITHM_NONE);
    assert_eq!(key.get_iterations(), 0);

    assert_eq!(HashFunction::SHA256.to_proto(), pmeta::HashFunction::HASH_FUNCTION_SHA256);
    assert_eq!(HashFunction::SHA384.to_proto(), pmeta::HashFunction::HASH_FUNCTION_SHA384);
    assert_eq!(HashFunction::SHA512.to_proto(), pmeta::HashFunction::HASH_FUNCTION_SHA512);
    for hash_fn in [HashFunction::SHA256, HashFunction::SHA384, HashFunction::SHA512] {
        assert_eq!(HashFunction::from_proto(hash_fn.to_proto()), Ok(hash_fn));
    }
    assert_eq!(
        HashFunction::from_proto(pmeta::HashFunction::HASH_FUNCTION_INVALID),
        Err(Error::MetadataInvalid)
    );
}

#[test]
fn test_messages_that_stand_for_nothing() {
    let invalid = Err(Error::MetadataInvalid);
    // Nothing is set.
    assert_eq!(Metadata::from_proto(&pmeta::Metadata::new()), invalid);
    // One of the two embedded messages is missing.
    let mut message = smallest().to_proto();
    message.clear_key_deriv_meta();
    assert_eq!(Metadata::from_proto(&message), invalid);
    let mut message = smallest().to_proto();
    message.clear_enc_meta();
    assert_eq!(Metadata::from_proto(&message), invalid);
    // No algorithm.
    let mut message = smallest().to_proto();
    message.mut_key_deriv_meta().clear_algo();
    assert_eq!(Metadata::from_proto(&message), invalid);
    let mut message = smallest().to_proto();
    message.mut_enc_meta().clear_algo();
    assert_eq!(Metadata::from_proto(&message), invalid);
    // PBKDF2 without a hash function.
    let mut message = with_passphrase().to_proto();
    message.mut_key_deriv_meta().clear_hash_fn();
    assert_eq!(Metadata::from_proto(&message), invalid);
    // Without key derivation the hash function is not looked at.
    let mut message = smallest().to_proto();
    message.mut_key_deriv_meta().set_iterations(5);
    assert_eq!(Metadata::from_proto(&message), Ok(smallest()));
    // A nonce of the wrong length.
    for len in [0usize, 11, 13] {
        let mut message = smallest().to_proto();
        message.mut_enc_meta().set_nonce(vec![1u8; len]);
        assert_eq!(Metadata::from_proto(&message), invalid);
    }
}

#[test]
fn test_headers_that_are_malformed() {
    let (buf, header_len) = with_passphrase().to_buf();
    let header = &buf[..header_len];
    // Shorter than any header: nothing is read.
    for len in 0..MIN_HEADER_SIZE {
        assert_eq!(Metadata::from_buf(&vec![0xffu8; len]), Err(Error::MetadataMissing));
        assert_eq!(Metadata::from_buf(&header[..len]), Err(Error::MetadataMissing));
    }
    // The length at the front exceeds the buffer, or is no varint.
    let mut broken = header.to_vec();
    broken[0] += 1;
    assert_eq!(Metadata::from_buf(&broken), Err(Error::MetadataInvalid));
    assert_eq!(Metadata::from_buf(&[0xff; 40]), Err(Error::MetadataInvalid));
    // The length at the front is too short: the message ends in a field.
    let mut broken = header.to_vec();
    broken[0] -= 1;
    assert_eq!(Metadata::from_buf(&broken), Err(Error::MetadataInvalid));
    // The numbers of the enums name no variant: bytes 4 (key derivation), 6
    // (hash function) and 23 (cipher).
    assert_eq!((header[4], header[6], header[23]), (0x02, 0x03, 0x02));
    for at in [4usize, 6, 23] {
        for number in [0x00u8, 0x04, 0x7f] {
            let mut broken = header.to_vec();
            broken[at] = number;
            assert_eq!(Metadata::from_buf(&broken), Err(Error::MetadataInvalid));
        }
    }
    // The length of the nonce is eleven.
    let mut broken = header.to_vec();
    broken[25] = 0x0b;
    assert_eq!(Metadata::from_buf(&broken), Err(Error::MetadataInvalid));
    // No header at all.
    assert_eq!(Metadata::from_buf(&[0u8; 64]), Err(Error::MetadataInvalid));
}

#[test]
fn test_header_with_unknown_fields() {
    // The smallest header, with the field 15 behind its three fields.
    let (buf, header_len) = smallest().to_buf();
    let mut header = buf[..header_len].to_vec();
    header.extend_from_slice(&[0x78, 0x05]);
    header[0] += 2;
    assert_eq!(Metadata::from_buf(&header), Ok((smallest(), 25)));
}
