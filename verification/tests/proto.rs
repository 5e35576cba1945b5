use tindercrypt::errors::Error;
use tindercrypt::proto::metadata::{
    EncryptionAlgorithm, EncryptionMetadata, HashFunction, KeyDerivationAlgorithm,
    KeyDerivationMetadata, Metadata,
};

fn key_deriv_meta() -> KeyDerivationMetadata {
    let mut message = KeyDerivationMetadata::new();
    message.set_algo(KeyDerivationAlgorithm::KEY_DERIVATION_ALGORITHM_PBKDF2);
    message.set_hash_fn(HashFunction::HASH_FUNCTION_SHA512);
    message.set_iterations(300);
    message.set_salt(vec![0xaa; 8]);
    message
}

fn enc_meta() -> EncryptionMetadata {
    let mut message = EncryptionMetadata::new();
    message.set_algo(EncryptionAlgorithm::ENCRYPTION_ALGORITHM_CHACHA20_POLY1305);
    message.set_nonce((1..=12).collect());
    message
}

const KEY_DERIV_BYTES: [u8; 17] = [
    0x08, 0x02, 0x10, 0x03, 0x18, 0xac, 0x02, 0x22, 0x08, 0xaa, 0xaa, 0xaa, 0xaa, 0xaa, 0xaa, 0xaa,
    0xaa,
];

const ENC_BYTES: [u8; 16] =
    [0x08, 0x02, 0x12, 0x0c, 1, 2, 3, 4, 5, 6, 7, 8, 9, 10, 11, 12];

#[test]
fn test_enum_numbers() {
    for (i, v) in HashFunction::values().iter().enumerate() {
        assert_eq!(v.value(), i as i32);
        assert_eq!(HashFunction::from_i32(i as i32), Some(*v));
    }
    for (i, v) in KeyDerivationAlgorithm::values().iter().enumerate() {
        assert_eq!(v.value(), i as i32);
        assert_eq!(KeyDerivationAlgorithm::from_i32(i as i32), Some(*v));
    }
    for (i, v) in EncryptionAlgorithm::values().iter().enumerate() {
        assert_eq!(v.value(), i as i32);
        assert_eq!(EncryptionAlgorithm::from_i32(i as i32), Some(*v));
    }
    assert_eq!(HashFunction::HASH_FUNCTION_SHA512.value(), 3);
    assert_eq!(KeyDerivationAlgorithm::KEY_DERIVATION_ALGORITHM_PBKDF2.value(), 2);
    assert_eq!(EncryptionAlgorithm::ENCRYPTION_ALGORITHM_CHACHA20_POLY1305.value(), 2);
    for out_of_range in [-1, 4, 100, i32::MAX, i32::MIN] {
        assert_eq!(HashFunction::from_i32(out_of_range), None);
    }
    for out_of_range in [-1, 3, 100, i32::MAX, i32::MIN] {
        assert_eq!(KeyDerivationAlgorithm::from_i32(out_of_range), None);
        assert_eq!(EncryptionAlgorithm::from_i32(out_of_range), None);
    }
    assert_eq!(HashFunction::default(), HashFunction::HASH_FUNCTION_INVALID);
    assert_eq!(
        KeyDerivationAlgorithm::default(),
        KeyDerivationAlgorithm::KEY_DERIVATION_ALGORITHM_INVALID
    );
    assert_eq!(EncryptionAlgorithm::default(), EncryptionAlgorithm::ENCRYPTION_ALGORITHM_INVALID);
}

#[test]
fn test_key_derivation_accessors() {
    let mut message = KeyDerivationMetadata::new();
    assert_eq!(message, KeyDerivationMetadata::default());
    assert_eq!(message.get_algo(), KeyDerivationAlgorithm::KEY_DERIVATION_ALGORITHM_INVALID);
    assert_eq!(message.get_hash_fn(), HashFunction::HASH_FUNCTION_INVALID);
    assert_eq!(message.get_iterations(), 0);
    assert_eq!(message.get_salt(), &[] as &[u8]);
    assert!(message.is_initialized());

    message.set_algo(KeyDerivationAlgorithm::KEY_DERIVATION_ALGORITHM_NONE);
    message.set_hash_fn(HashFunction::HASH_FUNCTION_SHA384);
    message.set_iterations(7);
    message.set_salt(vec![1, 2]);
    assert_eq!(message.get_algo(), KeyDerivationAlgorithm::KEY_DERIVATION_ALGORITHM_NONE);
    assert_eq!(message.get_hash_fn(), HashFunction::HASH_FUNCTION_SHA384);
    assert_eq!(message.get_iterations(), 7);
    assert_eq!(message.get_salt(), &[1, 2]);

    message.mut_salt().push(3);
    assert_eq!(message.get_salt(), &[1, 2, 3]);
    assert_eq!(message.take_salt(), vec![1, 2, 3]);
    assert_eq!(message.get_salt(), &[] as &[u8]);
    assert_eq!(message.get_iterations(), 7);

    message.set_salt(vec![9]);
    message.clear_salt();
    assert_eq!(message.get_salt(), &[] as &[u8]);
    message.clear_algo();
    assert_eq!(message.get_algo(), KeyDerivationAlgorithm::KEY_DERIVATION_ALGORITHM_INVALID);
    message.clear_hash_fn();
    assert_eq!(message.get_hash_fn(), HashFunction::HASH_FUNCTION_INVALID);
    message.clear_iterations();
    assert_eq!(message, KeyDerivationMetadata::new());

    let mut message = key_deriv_meta();
    assert_eq!(message.clone(), message);
    message.clear();
    assert_eq!(message, KeyDerivationMetadata::new());
}

#[test]
fn test_encryption_accessors() {
    let mut message = EncryptionMetadata::new();
    assert_eq!(message, EncryptionMetadata::default());
    assert_eq!(message.get_algo(), EncryptionAlgorithm::ENCRYPTION_ALGORITHM_INVALID);
    assert_eq!(message.get_nonce(), &[] as &[u8]);
    assert!(message.is_initialized());

    message.set_algo(EncryptionAlgorithm::ENCRYPTION_ALGORITHM_AES256GCM);
    message.set_nonce(vec![1, 2]);
    assert_eq!(message.get_algo(), EncryptionAlgorithm::ENCRYPTION_ALGORITHM_AES256GCM);
    message.mut_nonce().push(3);
    assert_eq!(message.get_nonce(), &[1, 2, 3]);
    assert_eq!(message.take_nonce(), vec![1, 2, 3]);
    assert_eq!(message.get_nonce(), &[] as &[u8]);
    assert_eq!(message.get_algo(), EncryptionAlgorithm::ENCRYPTION_ALGORITHM_AES256GCM);
    message.set_nonce(vec![9]);
    message.clear_nonce();
    assert_eq!(message.get_nonce(), &[] as &[u8]);
    message.clear_algo();
    assert_eq!(message, EncryptionMetadata::new());

    let mut message = enc_meta();
    assert_eq!(message.clone(), message);
    message.clear();
    assert_eq!(message, EncryptionMetadata::new());
}

#[test]
fn test_metadata_accessors() {
    let mut message = Metadata::new();
    assert_eq!(message, Metadata::default());
    assert!(!message.has_key_deriv_meta());
    assert!(!message.has_enc_meta());
    assert_eq!(message.get_key_deriv_meta(), KeyDerivationMetadata::new());
    assert_eq!(message.get_enc_meta(), EncryptionMetadata::new());
    assert_eq!(message.get_ciphertext_size(), 0);
    assert!(message.is_initialized());

    message.set_key_deriv_meta(key_deriv_meta());
    message.set_enc_meta(enc_meta());
    message.set_ciphertext_size(17);
    assert!(message.has_key_deriv_meta());
    assert!(message.has_enc_meta());
    assert_eq!(message.get_key_deriv_meta(), key_deriv_meta());
    assert_eq!(message.get_enc_meta(), enc_meta());
    assert_eq!(message.get_ciphertext_size(), 17);
    assert!(message.is_initialized());
    assert_eq!(message.clone(), message);

    message.mut_key_deriv_meta().set_iterations(5);
    assert_eq!(message.get_key_deriv_meta().get_iterations(), 5);
    message.mut_enc_meta().set_nonce(vec![1]);
    assert_eq!(message.get_enc_meta().get_nonce(), &[1]);

    let taken = message.take_key_deriv_meta();
    assert_eq!(taken.get_iterations(), 5);
    assert!(!message.has_key_deriv_meta());
    assert_eq!(message.take_key_deriv_meta(), KeyDerivationMetadata::new());
    let taken = message.take_enc_meta();
    assert_eq!(taken.get_nonce(), &[1]);
    assert!(!message.has_enc_meta());
    assert_eq!(message.take_enc_meta(), EncryptionMetadata::new());

    // A field that is not set is set by asking for it to change.
    message.mut_key_deriv_meta();
    message.mut_enc_meta();
    assert!(message.has_key_deriv_meta());
    assert!(message.has_enc_meta());
    message.clear_key_deriv_meta();
    message.clear_enc_meta();
    assert!(!message.has_key_deriv_meta());
    assert!(!message.has_enc_meta());
    message.clear_ciphertext_size();
    assert_eq!(message, Metadata::new());

    message.set_ciphertext_size(1);
    message.set_enc_meta(enc_meta());
    message.clear();
    assert_eq!(message, Metadata::new());
}

#[test]
fn test_messages_on_the_wire() {
    let message = key_deriv_meta();
    let mut out = Vec::new();
    message.write_to(&mut out);
    assert_eq!(out, KEY_DERIV_BYTES);
    assert_eq!(message.compute_size(), 17);

    let message = enc_meta();
    let mut out = Vec::new();
    message.write_to(&mut out);
    assert_eq!(out, ENC_BYTES);
    assert_eq!(message.compute_size(), 16);

    let mut message = Metadata::new();
    message.set_key_deriv_meta(key_deriv_meta());
    message.set_enc_meta(enc_meta());
    message.set_ciphertext_size(17);
    let mut expected = vec![0x0a, 0x11];
    expected.extend_from_slice(&KEY_DERIV_BYTES);
    expected.extend_from_slice(&[0x12, 0x10]);
    expected.extend_from_slice(&ENC_BYTES);
    expected.extend_from_slice(&[0x18, 0x11]);
    let mut out = vec![0xee];
    message.write_to(&mut out);
    assert_eq!(out[0], 0xee);
    assert_eq!(out[1..], expected[..]);
    assert_eq!(message.compute_size(), 39);

    let mut read = Metadata::new();
    assert_eq!(read.merge_from(&expected), Ok(()));
    assert_eq!(read, message);
}

#[test]
fn test_defaults_are_not_written() {
    let mut out = Vec::new();
    KeyDerivationMetadata::new().write_to(&mut out);
    EncryptionMetadata::new().write_to(&mut out);
    Metadata::new().write_to(&mut out);
    assert_eq!(out, Vec::<u8>::new());
    assert_eq!(KeyDerivationMetadata::new().compute_size(), 0);
    assert_eq!(EncryptionMetadata::new().compute_size(), 0);
    assert_eq!(Metadata::new().compute_size(), 0);

    // An embedded message that is set is written, though it be empty.
    let mut message = Metadata::new();
    message.set_enc_meta(EncryptionMetadata::new());
    let mut out = Vec::new();
    message.write_to(&mut out);
    assert_eq!(out, vec![0x12, 0x00]);
    assert_eq!(message.compute_size(), 2);
    let mut read = Metadata::new();
    assert_eq!(read.merge_from(&out), Ok(()));
    assert_eq!(read, message);
}

#[test]
fn test_what_was_written_is_read() {
    for salt_len in [0usize, 1, 8, 32, 127, 128, 300] {
        for iterations in [0u64, 1, 127, 128, 100_000, u64::MAX] {
            for hash_fn in HashFunction::values() {
                for algo in KeyDerivationAlgorithm::values() {
                    let mut message = KeyDerivationMetadata::new();
                    message.set_algo(algo);
                    message.set_hash_fn(hash_fn);
                    message.set_iterations(iterations);
                    message.set_salt(vec![0x5a; salt_len]);
                    let mut out = Vec::new();
                    message.write_to(&mut out);
                    assert_eq!(message.compute_size() as usize, out.len());
                    let mut read = KeyDerivationMetadata::new();
                    assert_eq!(read.merge_from(&out), Ok(()));
                    assert_eq!(read, message);

                    let mut outer = Metadata::new();
                    outer.set_key_deriv_meta(message);
                    outer.set_enc_meta(enc_meta());
                    outer.set_ciphertext_size(iterations);
                    let mut out = Vec::new();
                    outer.write_to(&mut out);
                    assert_eq!(outer.compute_size() as usize, out.len());
                    let mut read = Metadata::new();
                    assert_eq!(read.merge_from(&out), Ok(()));
                    assert_eq!(read, outer);
                }
            }
        }
    }
}

#[test]
fn test_merging() {
    // Fields in any order; the last value of a field stays.
    let mut message = KeyDerivationMetadata::new();
    assert_eq!(
        message.merge_from(&[0x18, 0x05, 0x22, 0x01, 0xaa, 0x08, 0x01, 0x18, 0x06, 0x08, 0x02]),
        Ok(())
    );
    assert_eq!(message.get_algo(), KeyDerivationAlgorithm::KEY_DERIVATION_ALGORITHM_PBKDF2);
    assert_eq!(message.get_iterations(), 6);
    assert_eq!(message.get_salt(), &[0xaa]);
    // What is not in the bytes stays as it was.
    assert_eq!(message.merge_from(&[0x10, 0x01]), Ok(()));
    assert_eq!(message.get_hash_fn(), HashFunction::HASH_FUNCTION_SHA256);
    assert_eq!(message.get_iterations(), 6);
    // No bytes, no change.
    let before = message.clone();
    assert_eq!(message.merge_from(&[]), Ok(()));
    assert_eq!(message, before);

    // An embedded message that comes twice is replaced, not merged.
    let mut outer = Metadata::new();
    assert_eq!(outer.merge_from(&[0x0a, 0x02, 0x18, 0x05, 0x0a, 0x02, 0x08, 0x01]), Ok(()));
    assert_eq!(outer.get_key_deriv_meta().get_iterations(), 0);
    assert_eq!(
        outer.get_key_deriv_meta().get_algo(),
        KeyDerivationAlgorithm::KEY_DERIVATION_ALGORITHM_NONE
    );
}

#[test]
fn test_numbers_that_name_no_variant() {
    let mut message = KeyDerivationMetadata::new();
    message.set_algo(KeyDerivationAlgorithm::KEY_DERIVATION_ALGORITHM_NONE);
    assert_eq!(message.merge_from(&[0x08, 0x03, 0x10, 0x7f]), Ok(()));
    assert_eq!(message.get_algo(), KeyDerivationAlgorithm::KEY_DERIVATION_ALGORITHM_NONE);
    assert_eq!(message.get_hash_fn(), HashFunction::HASH_FUNCTION_INVALID);
    // A negative number.
    assert_eq!(
        message.merge_from(&[0x08, 0xff, 0xff, 0xff, 0xff, 0xff, 0xff, 0xff, 0xff, 0xff, 0x01]),
        Ok(())
    );
    assert_eq!(message.get_algo(), KeyDerivationAlgorithm::KEY_DERIVATION_ALGORITHM_NONE);

    let mut message = EncryptionMetadata::new();
    assert_eq!(message.merge_from(&[0x08, 0x03]), Ok(()));
    assert_eq!(message.get_algo(), EncryptionAlgorithm::ENCRYPTION_ALGORITHM_INVALID);
}

#[test]
fn test_unknown_fields_are_skipped() {
    // Field 15 as a varint, as eight bytes, as four bytes and as bytes, and
    // field 5 as a group with a varint in it.
    let bytes = [
        0x78, 0xac, 0x02, // 15: varint 300
        0x79, 1, 2, 3, 4, 5, 6, 7, 8, // 15: fixed64
        0x7d, 1, 2, 3, 4, // 15: fixed32
        0x7a, 0x02, 0xaa, 0xbb, // 15: bytes
        0x2b, 0x08, 0x01, 0x2c, // 5: group
        0x18, 0x07, // 3: iterations = 7
    ];
    let mut message = KeyDerivationMetadata::new();
    assert_eq!(message.merge_from(&bytes), Ok(()));
    assert_eq!(message.get_iterations(), 7);
    let mut expected = KeyDerivationMetadata::new();
    expected.set_iterations(7);
    assert_eq!(message, expected);

    let mut message = EncryptionMetadata::new();
    assert_eq!(message.merge_from(&[0x78, 0x05, 0x08, 0x01]), Ok(()));
    assert_eq!(message.get_algo(), EncryptionAlgorithm::ENCRYPTION_ALGORITHM_AES256GCM);
    let mut message = Metadata::new();
    assert_eq!(message.merge_from(&[0x7a, 0x01, 0xaa, 0x18, 0x09]), Ok(()));
    assert_eq!(message.get_ciphertext_size(), 9);

    // An unknown field that is cut short, and a group that is not closed.
    let mut message = KeyDerivationMetadata::new();
    assert_eq!(message.merge_from(&[0x79, 1, 2, 3]), Err(Error::MetadataInvalid));
    assert_eq!(message.merge_from(&[0x7a, 0x05, 0xaa]), Err(Error::MetadataInvalid));
    assert_eq!(message.merge_from(&[0x2b, 0x08, 0x01]), Err(Error::MetadataInvalid));
    // The end of a group without its start.
    assert_eq!(message.merge_from(&[0x2c]), Err(Error::MetadataInvalid));
}

#[test]
fn test_malformed_messages() {
    let malformed: [&[u8]; 10] = [
        &[0x08],                   // a tag and nothing behind it
        &[0x00, 0x01],             // the field number zero
        &[0x0e, 0x01],             // the wire type six
        &[0x0a, 0x01, 0x01],       // algo as bytes
        &[0x15, 1, 2, 3, 4],       // hash_fn as four bytes
        &[0x19, 1, 2, 3, 4, 5, 6, 7, 8], // iterations as eight bytes
        &[0x20, 0x01],             // salt as a varint
        &[0x22, 0x03, 0xaa],       // salt shorter than its length
        &[0x18, 0x80],             // a varint without an end
        &[0x80],                   // a tag without an end
    ];
    for bytes in malformed {
        let mut message = KeyDerivationMetadata::new();
        assert_eq!(message.merge_from(bytes), Err(Error::MetadataInvalid));
    }
    let malformed: [&[u8]; 4] = [
        &[0x0a, 0x01],             // algo as bytes, cut short
        &[0x10, 0x01],             // nonce as a varint
        &[0x12, 0x0c, 1, 2, 3],    // nonce shorter than its length
        &[0x08],
    ];
    for bytes in malformed {
        let mut message = EncryptionMetadata::new();
        assert_eq!(message.merge_from(bytes), Err(Error::MetadataInvalid));
    }
    let malformed: [&[u8]; 6] = [
        &[0x08, 0x01],             // key_deriv_meta as a varint
        &[0x10, 0x01],             // enc_meta as a varint
        &[0x1a, 0x01, 0x00],       // ciphertext_size as bytes
        &[0x0a, 0x05, 0x08, 0x01], // an embedded message shorter than its length
        &[0x0a, 0x01, 0x08],       // an embedded message that is malformed
        &[0x12, 0x02, 0x10, 0x01], // the same, of the other kind
    ];
    for bytes in malformed {
        let mut message = Metadata::new();
        assert_eq!(message.merge_from(bytes), Err(Error::MetadataInvalid));
    }
}
