//! The header's schema: three enums and three messages.
//!
//! ```text
//! message KeyDerivationMetadata {
//!     KeyDerivationAlgorithm algo = 1;
//!     HashFunction hash_fn = 2;
//!     uint64 iterations = 3;
//!     bytes salt = 4;
//! }
//! message EncryptionMetadata {
//!     EncryptionAlgorithm algo = 1;
//!     bytes nonce = 2;
//! }
//! message Metadata {
//!     KeyDerivationMetadata key_deriv_meta = 1;
//!     EncryptionMetadata enc_meta = 2;
//!     uint64 ciphertext_size = 3;
//! }
//! ```
//!
//! A field that holds its default (zero, no bytes, no message) is not
//! written. Reading merges: a field that occurs twice keeps the last value, a
//! number of an enum that names no variant leaves the field as it was, and a
//! field that the schema does not know is skipped.

use crate::errors::Error;
use crate::wire::{
    bytes_size, enum_size, lemma_int32_round_trip, lemma_read_bytes_of_bytes, lemma_read_tag_of_tag,
    lemma_read_varint64_of_varint, lemma_varint_len, read_bytes, read_delimited, read_int32,
    read_tag, read_uint64, skip_unknown_field, spec_bytes, spec_bytes_field, spec_int32_as_u64,
    spec_read_bytes, spec_read_delimited, spec_read_tag, spec_read_varint64, spec_tag,
    spec_u64_as_int32, spec_unknown_field_len, spec_varint, spec_varint_field, tag_size,
    value_size, write_bytes, write_enum, write_raw_varint64, write_tag, write_uint64,
    WIRE_TYPE_LENGTH_DELIMITED, WIRE_TYPE_VARINT,
};
use vstd::prelude::*;
use vstd::slice::{slice_subrange, slice_to_vec};

verus! {

/// The hash function of a key derivation.
#[allow(non_camel_case_types)]
#[derive(Copy, Clone, Debug, PartialEq, Eq, Hash, Structural)]
pub enum HashFunction {
    HASH_FUNCTION_INVALID,
    HASH_FUNCTION_SHA256,
    HASH_FUNCTION_SHA384,
    HASH_FUNCTION_SHA512,
}

impl HashFunction {
    /// The variant's number on the wire.
    pub open spec fn spec_value(self) -> i32 {
        match self {
            HashFunction::HASH_FUNCTION_INVALID => 0,
            HashFunction::HASH_FUNCTION_SHA256 => 1,
            HashFunction::HASH_FUNCTION_SHA384 => 2,
            HashFunction::HASH_FUNCTION_SHA512 => 3,
        }
    }

    /// The variant with the given number, if there is one.
    pub open spec fn spec_from_i32(value: i32) -> Option<HashFunction> {
        if value == 0 {
            Some(HashFunction::HASH_FUNCTION_INVALID)
        } else if value == 1 {
            Some(HashFunction::HASH_FUNCTION_SHA256)
        } else if value == 2 {
            Some(HashFunction::HASH_FUNCTION_SHA384)
        } else if value == 3 {
            Some(HashFunction::HASH_FUNCTION_SHA512)
        } else {
            None
        }
    }

    /// The variant's number on the wire.
    pub fn value(&self) -> (r: i32)
        ensures
            r == self.spec_value(),
            HashFunction::spec_from_i32(r) == Some(*self),
    {
        match self {
            HashFunction::HASH_FUNCTION_INVALID => 0,
            HashFunction::HASH_FUNCTION_SHA256 => 1,
            HashFunction::HASH_FUNCTION_SHA384 => 2,
            HashFunction::HASH_FUNCTION_SHA512 => 3,
        }
    }

    /// The variant with the given number, if there is one.
    pub fn from_i32(value: i32) -> (r: Option<HashFunction>)
        ensures
            r == HashFunction::spec_from_i32(value),
            r matches Some(v) ==> v.spec_value() == value,
            r is None <==> !(0 <= value <= 3),
    {
        match value {
            0 => Some(HashFunction::HASH_FUNCTION_INVALID),
            1 => Some(HashFunction::HASH_FUNCTION_SHA256),
            2 => Some(HashFunction::HASH_FUNCTION_SHA384),
            3 => Some(HashFunction::HASH_FUNCTION_SHA512),
            _ => None,
        }
    }

    /// All variants, by their numbers.
    pub fn values() -> (r: [HashFunction; 4])
        ensures
            forall|i: int| 0 <= i < 4 ==> (#[trigger] r@[i]).spec_value() == i,
    {
        [
            HashFunction::HASH_FUNCTION_INVALID,
            HashFunction::HASH_FUNCTION_SHA256,
            HashFunction::HASH_FUNCTION_SHA384,
            HashFunction::HASH_FUNCTION_SHA512,
        ]
    }
}

impl Default for HashFunction {
    fn default() -> (r: Self)
        ensures
            r == HashFunction::HASH_FUNCTION_INVALID,
    {
        HashFunction::HASH_FUNCTION_INVALID
    }
}

/// How the key is made from the secret.
#[allow(non_camel_case_types)]
#[derive(Copy, Clone, Debug, PartialEq, Eq, Hash, Structural)]
pub enum KeyDerivationAlgorithm {
    KEY_DERIVATION_ALGORITHM_INVALID,
    KEY_DERIVATION_ALGORITHM_NONE,
    KEY_DERIVATION_ALGORITHM_PBKDF2,
}

impl KeyDerivationAlgorithm {
    /// The variant's number on the wire.
    pub open spec fn spec_value(self) -> i32 {
        match self {
            KeyDerivationAlgorithm::KEY_DERIVATION_ALGORITHM_INVALID => 0,
            KeyDerivationAlgorithm::KEY_DERIVATION_ALGORITHM_NONE => 1,
            KeyDerivationAlgorithm::KEY_DERIVATION_ALGORITHM_PBKDF2 => 2,
        }
    }

    /// The variant with the given number, if there is one.
    pub open spec fn spec_from_i32(value: i32) -> Option<KeyDerivationAlgorithm> {
        if value == 0 {
            Some(KeyDerivationAlgorithm::KEY_DERIVATION_ALGORITHM_INVALID)
        } else if value == 1 {
            Some(KeyDerivationAlgorithm::KEY_DERIVATION_ALGORITHM_NONE)
        } else if value == 2 {
            Some(KeyDerivationAlgorithm::KEY_DERIVATION_ALGORITHM_PBKDF2)
        } else {
            None
        }
    }

    /// The variant's number on the wire.
    pub fn value(&self) -> (r: i32)
        ensures
            r == self.spec_value(),
            KeyDerivationAlgorithm::spec_from_i32(r) == Some(*self),
    {
        match self {
            KeyDerivationAlgorithm::KEY_DERIVATION_ALGORITHM_INVALID => 0,
            KeyDerivationAlgorithm::KEY_DERIVATION_ALGORITHM_NONE => 1,
            KeyDerivationAlgorithm::KEY_DERIVATION_ALGORITHM_PBKDF2 => 2,
        }
    }

    /// The variant with the given number, if there is one.
    pub fn from_i32(value: i32) -> (r: Option<KeyDerivationAlgorithm>)
        ensures
            r == KeyDerivationAlgorithm::spec_from_i32(value),
            r matches Some(v) ==> v.spec_value() == value,
            r is None <==> !(0 <= value <= 2),
    {
        match value {
            0 => Some(KeyDerivationAlgorithm::KEY_DERIVATION_ALGORITHM_INVALID),
            1 => Some(KeyDerivationAlgorithm::KEY_DERIVATION_ALGORITHM_NONE),
            2 => Some(KeyDerivationAlgorithm::KEY_DERIVATION_ALGORITHM_PBKDF2),
            _ => None,
        }
    }

    /// All variants, by their numbers.
    pub fn values() -> (r: [KeyDerivationAlgorithm; 3])
        ensures
            forall|i: int| 0 <= i < 3 ==> (#[trigger] r@[i]).spec_value() == i,
    {
        [
            KeyDerivationAlgorithm::KEY_DERIVATION_ALGORITHM_INVALID,
            KeyDerivationAlgorithm::KEY_DERIVATION_ALGORITHM_NONE,
            KeyDerivationAlgorithm::KEY_DERIVATION_ALGORITHM_PBKDF2,
        ]
    }
}

impl Default for KeyDerivationAlgorithm {
    fn default() -> (r: Self)
        ensures
            r == KeyDerivationAlgorithm::KEY_DERIVATION_ALGORITHM_INVALID,
    {
        KeyDerivationAlgorithm::KEY_DERIVATION_ALGORITHM_INVALID
    }
}

/// The cipher that seals the data.
#[allow(non_camel_case_types)]
#[derive(Copy, Clone, Debug, PartialEq, Eq, Hash, Structural)]
pub enum EncryptionAlgorithm {
    ENCRYPTION_ALGORITHM_INVALID,
    ENCRYPTION_ALGORITHM_AES256GCM,
    ENCRYPTION_ALGORITHM_CHACHA20_POLY1305,
}

impl EncryptionAlgorithm {
    /// The variant's number on the wire.
    pub open spec fn spec_value(self) -> i32 {
        match self {
            EncryptionAlgorithm::ENCRYPTION_ALGORITHM_INVALID => 0,
            EncryptionAlgorithm::ENCRYPTION_ALGORITHM_AES256GCM => 1,
            EncryptionAlgorithm::ENCRYPTION_ALGORITHM_CHACHA20_POLY1305 => 2,
        }
    }

    /// The variant with the given number, if there is one.
    pub open spec fn spec_from_i32(value: i32) -> Option<EncryptionAlgorithm> {
        if value == 0 {
            Some(EncryptionAlgorithm::ENCRYPTION_ALGORITHM_INVALID)
        } else if value == 1 {
            Some(EncryptionAlgorithm::ENCRYPTION_ALGORITHM_AES256GCM)
        } else if value == 2 {
            Some(EncryptionAlgorithm::ENCRYPTION_ALGORITHM_CHACHA20_POLY1305)
        } else {
            None
        }
    }

    /// The variant's number on the wire.
    pub fn value(&self) -> (r: i32)
        ensures
            r == self.spec_value(),
            EncryptionAlgorithm::spec_from_i32(r) == Some(*self),
    {
        match self {
            EncryptionAlgorithm::ENCRYPTION_ALGORITHM_INVALID => 0,
            EncryptionAlgorithm::ENCRYPTION_ALGORITHM_AES256GCM => 1,
            EncryptionAlgorithm::ENCRYPTION_ALGORITHM_CHACHA20_POLY1305 => 2,
        }
    }

    /// The variant with the given number, if there is one.
    pub fn from_i32(value: i32) -> (r: Option<EncryptionAlgorithm>)
        ensures
            r == EncryptionAlgorithm::spec_from_i32(value),
            r matches Some(v) ==> v.spec_value() == value,
            r is None <==> !(0 <= value <= 2),
    {
        match value {
            0 => Some(EncryptionAlgorithm::ENCRYPTION_ALGORITHM_INVALID),
            1 => Some(EncryptionAlgorithm::ENCRYPTION_ALGORITHM_AES256GCM),
            2 => Some(EncryptionAlgorithm::ENCRYPTION_ALGORITHM_CHACHA20_POLY1305),
            _ => None,
        }
    }

    /// All variants, by their numbers.
    pub fn values() -> (r: [EncryptionAlgorithm; 3])
        ensures
            forall|i: int| 0 <= i < 3 ==> (#[trigger] r@[i]).spec_value() == i,
    {
        [
            EncryptionAlgorithm::ENCRYPTION_ALGORITHM_INVALID,
            EncryptionAlgorithm::ENCRYPTION_ALGORITHM_AES256GCM,
            EncryptionAlgorithm::ENCRYPTION_ALGORITHM_CHACHA20_POLY1305,
        ]
    }
}

impl Default for EncryptionAlgorithm {
    fn default() -> (r: Self)
        ensures
            r == EncryptionAlgorithm::ENCRYPTION_ALGORITHM_INVALID,
    {
        EncryptionAlgorithm::ENCRYPTION_ALGORITHM_INVALID
    }
}


/// The parameters of a key derivation, as they stand on the wire.
#[derive(Debug, PartialEq)]
pub struct KeyDerivationMetadata {
    pub algo: KeyDerivationAlgorithm,
    pub hash_fn: HashFunction,
    pub iterations: u64,
    pub salt: Vec<u8>,
}

/// What a `KeyDerivationMetadata` holds.
pub struct KeyDerivationMetadataView {
    pub algo: KeyDerivationAlgorithm,
    pub hash_fn: HashFunction,
    pub iterations: u64,
    pub salt: Seq<u8>,
}

impl View for KeyDerivationMetadata {
    type V = KeyDerivationMetadataView;

    open spec fn view(&self) -> KeyDerivationMetadataView {
        KeyDerivationMetadataView {
            algo: self.algo,
            hash_fn: self.hash_fn,
            iterations: self.iterations,
            salt: self.salt@,
        }
    }
}

impl KeyDerivationMetadataView {
    /// The message with every field at its default.
    pub open spec fn spec_default() -> KeyDerivationMetadataView {
        KeyDerivationMetadataView {
            algo: KeyDerivationAlgorithm::KEY_DERIVATION_ALGORITHM_INVALID,
            hash_fn: HashFunction::HASH_FUNCTION_INVALID,
            iterations: 0,
            salt: Seq::empty(),
        }
    }

    /// The field `algo` on the wire.
    pub open spec fn algo_bytes(self) -> Seq<u8> {
        if self.algo != KeyDerivationAlgorithm::KEY_DERIVATION_ALGORITHM_INVALID {
            spec_varint_field(1, spec_int32_as_u64(self.algo.spec_value()))
        } else {
            Seq::empty()
        }
    }

    /// The field `hash_fn` on the wire.
    pub open spec fn hash_fn_bytes(self) -> Seq<u8> {
        if self.hash_fn != HashFunction::HASH_FUNCTION_INVALID {
            spec_varint_field(2, spec_int32_as_u64(self.hash_fn.spec_value()))
        } else {
            Seq::empty()
        }
    }

    /// The field `iterations` on the wire.
    pub open spec fn iterations_bytes(self) -> Seq<u8> {
        if self.iterations != 0 {
            spec_varint_field(3, self.iterations)
        } else {
            Seq::empty()
        }
    }

    /// The field `salt` on the wire.
    pub open spec fn salt_bytes(self) -> Seq<u8> {
        if self.salt.len() != 0 {
            spec_bytes_field(4, self.salt)
        } else {
            Seq::empty()
        }
    }

    /// The message on the wire: its fields in the order of their numbers.
    pub open spec fn encoding(self) -> Seq<u8> {
        self.algo_bytes() + self.hash_fn_bytes() + self.iterations_bytes() + self.salt_bytes()
    }

    /// The message after the field whose tag was just read, and the number of
    /// bytes that the field's value takes at the front of `rest`.
    pub open spec fn merged_field(self, field_number: u32, wire_type: u32, rest: Seq<u8>) -> Option<
        (KeyDerivationMetadataView, nat),
    > {
        if field_number == 1 {
            if wire_type != WIRE_TYPE_VARINT {
                None
            } else {
                match spec_read_varint64(rest) {
                    None => None,
                    Some((v, n)) => match KeyDerivationAlgorithm::spec_from_i32(
                        spec_u64_as_int32(v),
                    ) {
                        None => Some((self, n)),
                        Some(algo) => Some((KeyDerivationMetadataView { algo, ..self }, n)),
                    },
                }
            }
        } else if field_number == 2 {
            if wire_type != WIRE_TYPE_VARINT {
                None
            } else {
                match spec_read_varint64(rest) {
                    None => None,
                    Some((v, n)) => match HashFunction::spec_from_i32(spec_u64_as_int32(v)) {
                        None => Some((self, n)),
                        Some(hash_fn) => Some((KeyDerivationMetadataView { hash_fn, ..self }, n)),
                    },
                }
            }
        } else if field_number == 3 {
            if wire_type != WIRE_TYPE_VARINT {
                None
            } else {
                match spec_read_varint64(rest) {
                    None => None,
                    Some((v, n)) => Some((KeyDerivationMetadataView { iterations: v, ..self }, n)),
                }
            }
        } else if field_number == 4 {
            if wire_type != WIRE_TYPE_LENGTH_DELIMITED {
                None
            } else {
                match spec_read_bytes(rest) {
                    None => None,
                    Some((salt, n)) => Some((KeyDerivationMetadataView { salt, ..self }, n)),
                }
            }
        } else {
            match spec_unknown_field_len(rest, field_number, wire_type) {
                None => None,
                Some(n) => Some((self, n)),
            }
        }
    }

    /// The message after all the fields in `bytes` were merged into it, one
    /// after the other; `None` where `bytes` is no sequence of fields.
    pub open spec fn merged(self, bytes: Seq<u8>) -> Option<KeyDerivationMetadataView>
        decreases bytes.len(),
    {
        if bytes.len() == 0 {
            Some(self)
        } else {
            match spec_read_tag(bytes) {
                None => None,
                Some((field_number, wire_type, n)) => match self.merged_field(
                    field_number,
                    wire_type,
                    bytes.skip(n as int),
                ) {
                    None => None,
                    Some((next, m)) => if 1 <= n && n + m <= bytes.len() {
                        next.merged(bytes.skip((n + m) as int))
                    } else {
                        None
                    },
                },
            }
        }
    }

    /// One step of `merged`: a tag, the field's value, and what follows.
    proof fn lemma_merged_step(
        self,
        field_number: u32,
        wire_type: u32,
        value: Seq<u8>,
        rest: Seq<u8>,
        next: KeyDerivationMetadataView,
    )
        requires
            crate::wire::spec_tag_ok(field_number, wire_type),
            self.merged_field(field_number, wire_type, value + rest) == Some((next, value.len())),
        ensures
            self.merged(spec_tag(field_number, wire_type) + value + rest) == next.merged(rest),
    {
        let tag = spec_tag(field_number, wire_type);
        let bytes = tag + value + rest;
        let n = tag.len();
        lemma_varint_len((field_number * 8 + wire_type) as u64);
        lemma_read_tag_of_tag(field_number, wire_type, value + rest);
        assert(bytes =~= tag + (value + rest));
        assert(bytes.skip(n as int) =~= value + rest);
        assert(bytes.skip((n + value.len()) as int) =~= rest);
    }

    proof fn lemma_merged_algo(self, rest: Seq<u8>)
        requires
            self.algo != KeyDerivationAlgorithm::KEY_DERIVATION_ALGORITHM_INVALID,
        ensures
            KeyDerivationMetadataView::spec_default().merged(self.algo_bytes() + rest)
                == (KeyDerivationMetadataView {
                algo: self.algo,
                ..KeyDerivationMetadataView::spec_default()
            }).merged(rest),
    {
        let d = KeyDerivationMetadataView::spec_default();
        let number = spec_int32_as_u64(self.algo.spec_value());
        lemma_read_varint64_of_varint(number, rest);
        lemma_int32_round_trip(self.algo.spec_value());
        assert(KeyDerivationAlgorithm::spec_from_i32(spec_u64_as_int32(number)) == Some(self.algo));
        d.lemma_merged_step(
            1,
            WIRE_TYPE_VARINT,
            spec_varint(number),
            rest,
            KeyDerivationMetadataView { algo: self.algo, ..d },
        );
    }

    proof fn lemma_merged_hash_fn(self, start: KeyDerivationMetadataView, rest: Seq<u8>)
        requires
            self.hash_fn != HashFunction::HASH_FUNCTION_INVALID,
        ensures
            start.merged(self.hash_fn_bytes() + rest) == (KeyDerivationMetadataView {
                hash_fn: self.hash_fn,
                ..start
            }).merged(rest),
    {
        let number = spec_int32_as_u64(self.hash_fn.spec_value());
        lemma_read_varint64_of_varint(number, rest);
        lemma_int32_round_trip(self.hash_fn.spec_value());
        assert(HashFunction::spec_from_i32(spec_u64_as_int32(number)) == Some(self.hash_fn));
        start.lemma_merged_step(
            2,
            WIRE_TYPE_VARINT,
            spec_varint(number),
            rest,
            KeyDerivationMetadataView { hash_fn: self.hash_fn, ..start },
        );
    }

    proof fn lemma_merged_iterations(self, start: KeyDerivationMetadataView, rest: Seq<u8>)
        requires
            self.iterations != 0,
        ensures
            start.merged(self.iterations_bytes() + rest) == (KeyDerivationMetadataView {
                iterations: self.iterations,
                ..start
            }).merged(rest),
    {
        lemma_read_varint64_of_varint(self.iterations, rest);
        start.lemma_merged_step(
            3,
            WIRE_TYPE_VARINT,
            spec_varint(self.iterations),
            rest,
            KeyDerivationMetadataView { iterations: self.iterations, ..start },
        );
    }

    proof fn lemma_merged_salt(self, start: KeyDerivationMetadataView, rest: Seq<u8>)
        requires
            self.salt.len() != 0,
            self.salt.len() <= u32::MAX,
        ensures
            start.merged(self.salt_bytes() + rest) == (KeyDerivationMetadataView {
                salt: self.salt,
                ..start
            }).merged(rest),
    {
        lemma_read_bytes_of_bytes(self.salt, rest);
        start.lemma_merged_step(
            4,
            WIRE_TYPE_LENGTH_DELIMITED,
            spec_bytes(self.salt),
            rest,
            KeyDerivationMetadataView { salt: self.salt, ..start },
        );
    }

    /// Reading what was written for a message, into an empty message, gives
    /// the message back.
    pub proof fn lemma_merged_encoding(self)
        requires
            self.salt.len() <= u32::MAX,
        ensures
            KeyDerivationMetadataView::spec_default().merged(self.encoding()) == Some(self),
    {
        let d = KeyDerivationMetadataView::spec_default();
        let s1 = KeyDerivationMetadataView { algo: self.algo, ..d };
        let s2 = KeyDerivationMetadataView { hash_fn: self.hash_fn, ..s1 };
        let s3 = KeyDerivationMetadataView { iterations: self.iterations, ..s2 };
        let s4 = KeyDerivationMetadataView { salt: self.salt, ..s3 };
        let nothing = Seq::<u8>::empty();
        let b4 = self.salt_bytes();
        let b3 = self.iterations_bytes() + b4;
        let b2 = self.hash_fn_bytes() + b3;
        assert(self.encoding() =~= self.algo_bytes() + b2);
        assert(s4 == self);
        assert(s4.merged(nothing) == Some(s4));
        if self.salt.len() != 0 {
            self.lemma_merged_salt(s3, nothing);
            assert(b4 + nothing =~= b4);
        } else {
            assert(self.salt =~= nothing);
        }
        assert(s3.merged(b4) == Some(self));
        if self.iterations != 0 {
            self.lemma_merged_iterations(s2, b4);
        } else {
            assert(b3 =~= b4);
        }
        assert(s2.merged(b3) == Some(self));
        if self.hash_fn != HashFunction::HASH_FUNCTION_INVALID {
            self.lemma_merged_hash_fn(s1, b3);
        } else {
            assert(b2 =~= b3);
        }
        assert(s1.merged(b2) == Some(self));
        if self.algo != KeyDerivationAlgorithm::KEY_DERIVATION_ALGORITHM_INVALID {
            self.lemma_merged_algo(b2);
        } else {
            assert(self.algo_bytes() + b2 =~= b2);
        }
    }
}

impl Clone for KeyDerivationMetadata {
    fn clone(&self) -> (r: Self)
        ensures
            r@ == self@,
    {
        KeyDerivationMetadata {
            algo: self.algo,
            hash_fn: self.hash_fn,
            iterations: self.iterations,
            salt: slice_to_vec(self.salt.as_slice()),
        }
    }
}

impl Default for KeyDerivationMetadata {
    fn default() -> (r: Self)
        ensures
            r@ == KeyDerivationMetadataView::spec_default(),
    {
        KeyDerivationMetadata {
            algo: KeyDerivationAlgorithm::KEY_DERIVATION_ALGORITHM_INVALID,
            hash_fn: HashFunction::HASH_FUNCTION_INVALID,
            iterations: 0,
            salt: Vec::new(),
        }
    }
}

impl KeyDerivationMetadata {
    /// A message with every field at its default.
    pub fn new() -> (r: KeyDerivationMetadata)
        ensures
            r@ == KeyDerivationMetadataView::spec_default(),
    {
        KeyDerivationMetadata {
            algo: KeyDerivationAlgorithm::KEY_DERIVATION_ALGORITHM_INVALID,
            hash_fn: HashFunction::HASH_FUNCTION_INVALID,
            iterations: 0,
            salt: Vec::new(),
        }
    }

    pub fn get_algo(&self) -> (r: KeyDerivationAlgorithm)
        ensures
            r == self@.algo,
    {
        self.algo
    }

    pub fn clear_algo(&mut self)
        ensures
            final(self)@ == (KeyDerivationMetadataView {
                algo: KeyDerivationAlgorithm::KEY_DERIVATION_ALGORITHM_INVALID,
                ..old(self)@
            }),
    {
        self.algo = KeyDerivationAlgorithm::KEY_DERIVATION_ALGORITHM_INVALID;
    }

    pub fn set_algo(&mut self, v: KeyDerivationAlgorithm)
        ensures
            final(self)@ == (KeyDerivationMetadataView { algo: v, ..old(self)@ }),
    {
        self.algo = v;
    }

    pub fn get_hash_fn(&self) -> (r: HashFunction)
        ensures
            r == self@.hash_fn,
    {
        self.hash_fn
    }

    pub fn clear_hash_fn(&mut self)
        ensures
            final(self)@ == (KeyDerivationMetadataView {
                hash_fn: HashFunction::HASH_FUNCTION_INVALID,
                ..old(self)@
            }),
    {
        self.hash_fn = HashFunction::HASH_FUNCTION_INVALID;
    }

    pub fn set_hash_fn(&mut self, v: HashFunction)
        ensures
            final(self)@ == (KeyDerivationMetadataView { hash_fn: v, ..old(self)@ }),
    {
        self.hash_fn = v;
    }

    pub fn get_iterations(&self) -> (r: u64)
        ensures
            r == self@.iterations,
    {
        self.iterations
    }

    pub fn clear_iterations(&mut self)
        ensures
            final(self)@ == (KeyDerivationMetadataView { iterations: 0, ..old(self)@ }),
    {
        self.iterations = 0;
    }

    pub fn set_iterations(&mut self, v: u64)
        ensures
            final(self)@ == (KeyDerivationMetadataView { iterations: v, ..old(self)@ }),
    {
        self.iterations = v;
    }

    pub fn get_salt(&self) -> (r: &[u8])
        ensures
            r@ == self@.salt,
    {
        self.salt.as_slice()
    }

    pub fn clear_salt(&mut self)
        ensures
            final(self)@ == (KeyDerivationMetadataView { salt: Seq::empty(), ..old(self)@ }),
    {
        self.salt.clear();
    }

    pub fn set_salt(&mut self, v: Vec<u8>)
        ensures
            final(self)@ == (KeyDerivationMetadataView { salt: v@, ..old(self)@ }),
    {
        self.salt = v;
    }

    /// The salt, to be changed in place.
    pub fn mut_salt(&mut self) -> (r: &mut Vec<u8>)
        ensures
            r@ == old(self)@.salt,
            final(self)@ == (KeyDerivationMetadataView { salt: final(r)@, ..old(self)@ }),
    {
        &mut self.salt
    }

    /// Takes the salt out and leaves none.
    pub fn take_salt(&mut self) -> (r: Vec<u8>)
        ensures
            r@ == old(self)@.salt,
            final(self)@ == (KeyDerivationMetadataView { salt: Seq::empty(), ..old(self)@ }),
    {
        let mut salt: Vec<u8> = Vec::new();
        std::mem::swap(&mut self.salt, &mut salt);
        salt
    }

    /// No field of this message is required.
    pub fn is_initialized(&self) -> (r: bool)
        ensures
            r,
    {
        true
    }

    /// Puts every field back to its default.
    pub fn clear(&mut self)
        ensures
            final(self)@ == KeyDerivationMetadataView::spec_default(),
    {
        self.algo = KeyDerivationAlgorithm::KEY_DERIVATION_ALGORITHM_INVALID;
        self.hash_fn = HashFunction::HASH_FUNCTION_INVALID;
        self.iterations = 0;
        self.salt.clear();
    }

    /// Merges the fields in `bytes` into the message. Where `bytes` is no
    /// sequence of fields this is an error, and nothing is then said of what
    /// the message holds.
    pub fn merge_from(&mut self, bytes: &[u8]) -> (r: Result<(), Error>)
        ensures
            match old(self)@.merged(bytes@) {
                Some(m) => r is Ok && final(self)@ == m,
                None => r == Err::<(), Error>(Error::MetadataInvalid),
            },
    {
        let ghost start = self@;
        let mut pos: usize = 0;
        assert(bytes@.skip(0) =~= bytes@);
        while pos < bytes.len()
            invariant
                pos <= bytes@.len(),
                start == old(self)@,
                self@.merged(bytes@.skip(pos as int)) == start.merged(bytes@),
            decreases bytes@.len() - pos,
        {
            let rest = slice_subrange(bytes, pos, bytes.len());
            let ghost before = self@;
            assert(rest@ == bytes@.skip(pos as int));
            let (field_number, wire_type, n) = match read_tag(rest) {
                Some(t) => t,
                None => { return Err(Error::MetadataInvalid); },
            };
            let value = slice_subrange(rest, n, rest.len());
            assert(value@ == rest@.skip(n as int));
            let m: usize;
            if field_number == 1 {
                if wire_type != WIRE_TYPE_VARINT {
                    return Err(Error::MetadataInvalid);
                }
                match read_int32(value) {
                    None => { return Err(Error::MetadataInvalid); },
                    Some((v, len)) => {
                        match KeyDerivationAlgorithm::from_i32(v) {
                            Some(algo) => { self.algo = algo; },
                            None => {},
                        }
                        m = len;
                    },
                }
            } else if field_number == 2 {
                if wire_type != WIRE_TYPE_VARINT {
                    return Err(Error::MetadataInvalid);
                }
                match read_int32(value) {
                    None => { return Err(Error::MetadataInvalid); },
                    Some((v, len)) => {
                        match HashFunction::from_i32(v) {
                            Some(hash_fn) => { self.hash_fn = hash_fn; },
                            None => {},
                        }
                        m = len;
                    },
                }
            } else if field_number == 3 {
                if wire_type != WIRE_TYPE_VARINT {
                    return Err(Error::MetadataInvalid);
                }
                match read_uint64(value) {
                    None => { return Err(Error::MetadataInvalid); },
                    Some((v, len)) => {
                        self.iterations = v;
                        m = len;
                    },
                }
            } else if field_number == 4 {
                if wire_type != WIRE_TYPE_LENGTH_DELIMITED {
                    return Err(Error::MetadataInvalid);
                }
                match read_bytes(value) {
                    None => { return Err(Error::MetadataInvalid); },
                    Some((salt, len)) => {
                        self.salt = salt;
                        m = len;
                    },
                }
            } else {
                match skip_unknown_field(value, field_number, wire_type) {
                    None => { return Err(Error::MetadataInvalid); },
                    Some(len) => {
                        m = len;
                    },
                }
            }
            assert(before.merged_field(field_number, wire_type, value@) == Some((self@, m as nat)));
            assert(rest@.skip((n + m) as int) == bytes@.skip((pos + n + m) as int));
            pos = pos + n + m;
        }
        assert(bytes@.skip(pos as int).len() == 0);
        Ok(())
    }

    /// The number of bytes that the message takes on the wire.
    pub fn compute_size(&self) -> (r: u32)
        requires
            self@.encoding().len() <= u32::MAX,
        ensures
            r == self@.encoding().len(),
    {
        let mut my_size: u32 = 0;
        if self.algo.value() != 0 {
            my_size += enum_size(1, self.algo.value());
        }
        if self.hash_fn.value() != 0 {
            my_size += enum_size(2, self.hash_fn.value());
        }
        if self.iterations != 0 {
            my_size += value_size(3, self.iterations);
        }
        if !self.salt.is_empty() {
            my_size += bytes_size(4, self.salt.as_slice());
        }
        my_size
    }

    /// Appends the message, as it stands on the wire, to `out`.
    pub fn write_to(&self, out: &mut Vec<u8>)
        requires
            self@.salt.len() <= u32::MAX,
        ensures
            final(out)@ == old(out)@ + self@.encoding(),
    {
        if self.algo.value() != 0 {
            write_enum(out, 1, self.algo.value());
        }
        if self.hash_fn.value() != 0 {
            write_enum(out, 2, self.hash_fn.value());
        }
        if self.iterations != 0 {
            write_uint64(out, 3, self.iterations);
        }
        if !self.salt.is_empty() {
            write_bytes(out, 4, self.salt.as_slice());
        }
        assert(out@ =~= old(out)@ + self@.encoding());
    }
}

/// The parameters of an encryption, as they stand on the wire.
#[derive(Debug, PartialEq)]
pub struct EncryptionMetadata {
    pub algo: EncryptionAlgorithm,
    pub nonce: Vec<u8>,
}

/// What an `EncryptionMetadata` holds.
pub struct EncryptionMetadataView {
    pub algo: EncryptionAlgorithm,
    pub nonce: Seq<u8>,
}

impl View for EncryptionMetadata {
    type V = EncryptionMetadataView;

    open spec fn view(&self) -> EncryptionMetadataView {
        EncryptionMetadataView { algo: self.algo, nonce: self.nonce@ }
    }
}

impl EncryptionMetadataView {
    /// The message with every field at its default.
    pub open spec fn spec_default() -> EncryptionMetadataView {
        EncryptionMetadataView {
            algo: EncryptionAlgorithm::ENCRYPTION_ALGORITHM_INVALID,
            nonce: Seq::empty(),
        }
    }

    /// The field `algo` on the wire.
    pub open spec fn algo_bytes(self) -> Seq<u8> {
        if self.algo != EncryptionAlgorithm::ENCRYPTION_ALGORITHM_INVALID {
            spec_varint_field(1, spec_int32_as_u64(self.algo.spec_value()))
        } else {
            Seq::empty()
        }
    }

    /// The field `nonce` on the wire.
    pub open spec fn nonce_bytes(self) -> Seq<u8> {
        if self.nonce.len() != 0 {
            spec_bytes_field(2, self.nonce)
        } else {
            Seq::empty()
        }
    }

    /// The message on the wire: its fields in the order of their numbers.
    pub open spec fn encoding(self) -> Seq<u8> {
        self.algo_bytes() + self.nonce_bytes()
    }

    /// The message after the field whose tag was just read, and the number of
    /// bytes that the field's value takes at the front of `rest`.
    pub open spec fn merged_field(self, field_number: u32, wire_type: u32, rest: Seq<u8>) -> Option<
        (EncryptionMetadataView, nat),
    > {
        if field_number == 1 {
            if wire_type != WIRE_TYPE_VARINT {
                None
            } else {
                match spec_read_varint64(rest) {
                    None => None,
                    Some((v, n)) => match EncryptionAlgorithm::spec_from_i32(spec_u64_as_int32(v)) {
                        None => Some((self, n)),
                        Some(algo) => Some((EncryptionMetadataView { algo, ..self }, n)),
                    },
                }
            }
        } else if field_number == 2 {
            if wire_type != WIRE_TYPE_LENGTH_DELIMITED {
                None
            } else {
                match spec_read_bytes(rest) {
                    None => None,
                    Some((nonce, n)) => Some((EncryptionMetadataView { nonce, ..self }, n)),
                }
            }
        } else {
            match spec_unknown_field_len(rest, field_number, wire_type) {
                None => None,
                Some(n) => Some((self, n)),
            }
        }
    }

    /// The message after all the fields in `bytes` were merged into it, one
    /// after the other; `None` where `bytes` is no sequence of fields.
    pub open spec fn merged(self, bytes: Seq<u8>) -> Option<EncryptionMetadataView>
        decreases bytes.len(),
    {
        if bytes.len() == 0 {
            Some(self)
        } else {
            match spec_read_tag(bytes) {
                None => None,
                Some((field_number, wire_type, n)) => match self.merged_field(
                    field_number,
                    wire_type,
                    bytes.skip(n as int),
                ) {
                    None => None,
                    Some((next, m)) => if 1 <= n && n + m <= bytes.len() {
                        next.merged(bytes.skip((n + m) as int))
                    } else {
                        None
                    },
                },
            }
        }
    }

    /// One step of `merged`: a tag, the field's value, and what follows.
    proof fn lemma_merged_step(
        self,
        field_number: u32,
        wire_type: u32,
        value: Seq<u8>,
        rest: Seq<u8>,
        next: EncryptionMetadataView,
    )
        requires
            crate::wire::spec_tag_ok(field_number, wire_type),
            self.merged_field(field_number, wire_type, value + rest) == Some((next, value.len())),
        ensures
            self.merged(spec_tag(field_number, wire_type) + value + rest) == next.merged(rest),
    {
        let tag = spec_tag(field_number, wire_type);
        let bytes = tag + value + rest;
        let n = tag.len();
        lemma_varint_len((field_number * 8 + wire_type) as u64);
        lemma_read_tag_of_tag(field_number, wire_type, value + rest);
        assert(bytes =~= tag + (value + rest));
        assert(bytes.skip(n as int) =~= value + rest);
        assert(bytes.skip((n + value.len()) as int) =~= rest);
    }

    proof fn lemma_merged_algo(self, rest: Seq<u8>)
        requires
            self.algo != EncryptionAlgorithm::ENCRYPTION_ALGORITHM_INVALID,
        ensures
            EncryptionMetadataView::spec_default().merged(self.algo_bytes() + rest)
                == (EncryptionMetadataView {
                algo: self.algo,
                ..EncryptionMetadataView::spec_default()
            }).merged(rest),
    {
        let d = EncryptionMetadataView::spec_default();
        let number = spec_int32_as_u64(self.algo.spec_value());
        lemma_read_varint64_of_varint(number, rest);
        lemma_int32_round_trip(self.algo.spec_value());
        assert(EncryptionAlgorithm::spec_from_i32(spec_u64_as_int32(number)) == Some(self.algo));
        d.lemma_merged_step(
            1,
            WIRE_TYPE_VARINT,
            spec_varint(number),
            rest,
            EncryptionMetadataView { algo: self.algo, ..d },
        );
    }

    proof fn lemma_merged_nonce(self, start: EncryptionMetadataView, rest: Seq<u8>)
        requires
            self.nonce.len() != 0,
            self.nonce.len() <= u32::MAX,
        ensures
            start.merged(self.nonce_bytes() + rest) == (EncryptionMetadataView {
                nonce: self.nonce,
                ..start
            }).merged(rest),
    {
        lemma_read_bytes_of_bytes(self.nonce, rest);
        start.lemma_merged_step(
            2,
            WIRE_TYPE_LENGTH_DELIMITED,
            spec_bytes(self.nonce),
            rest,
            EncryptionMetadataView { nonce: self.nonce, ..start },
        );
    }

    /// Reading what was written for a message, into an empty message, gives
    /// the message back.
    pub proof fn lemma_merged_encoding(self)
        requires
            self.nonce.len() <= u32::MAX,
        ensures
            EncryptionMetadataView::spec_default().merged(self.encoding()) == Some(self),
    {
        let d = EncryptionMetadataView::spec_default();
        let s1 = EncryptionMetadataView { algo: self.algo, ..d };
        let s2 = EncryptionMetadataView { nonce: self.nonce, ..s1 };
        let nothing = Seq::<u8>::empty();
        let b2 = self.nonce_bytes();
        assert(s2 == self);
        assert(s2.merged(nothing) == Some(s2));
        if self.nonce.len() != 0 {
            self.lemma_merged_nonce(s1, nothing);
            assert(b2 + nothing =~= b2);
        } else {
            assert(self.nonce =~= nothing);
        }
        assert(s1.merged(b2) == Some(self));
        if self.algo != EncryptionAlgorithm::ENCRYPTION_ALGORITHM_INVALID {
            self.lemma_merged_algo(b2);
        } else {
            assert(self.algo_bytes() + b2 =~= b2);
        }
    }
}

impl Clone for EncryptionMetadata {
    fn clone(&self) -> (r: Self)
        ensures
            r@ == self@,
    {
        EncryptionMetadata { algo: self.algo, nonce: slice_to_vec(self.nonce.as_slice()) }
    }
}

impl Default for EncryptionMetadata {
    fn default() -> (r: Self)
        ensures
            r@ == EncryptionMetadataView::spec_default(),
    {
        EncryptionMetadata {
            algo: EncryptionAlgorithm::ENCRYPTION_ALGORITHM_INVALID,
            nonce: Vec::new(),
        }
    }
}

impl EncryptionMetadata {
    /// A message with every field at its default.
    pub fn new() -> (r: EncryptionMetadata)
        ensures
            r@ == EncryptionMetadataView::spec_default(),
    {
        EncryptionMetadata {
            algo: EncryptionAlgorithm::ENCRYPTION_ALGORITHM_INVALID,
            nonce: Vec::new(),
        }
    }

    pub fn get_algo(&self) -> (r: EncryptionAlgorithm)
        ensures
            r == self@.algo,
    {
        self.algo
    }

    pub fn clear_algo(&mut self)
        ensures
            final(self)@ == (EncryptionMetadataView {
                algo: EncryptionAlgorithm::ENCRYPTION_ALGORITHM_INVALID,
                ..old(self)@
            }),
    {
        self.algo = EncryptionAlgorithm::ENCRYPTION_ALGORITHM_INVALID;
    }

    pub fn set_algo(&mut self, v: EncryptionAlgorithm)
        ensures
            final(self)@ == (EncryptionMetadataView { algo: v, ..old(self)@ }),
    {
        self.algo = v;
    }

    pub fn get_nonce(&self) -> (r: &[u8])
        ensures
            r@ == self@.nonce,
    {
        self.nonce.as_slice()
    }

    pub fn clear_nonce(&mut self)
        ensures
            final(self)@ == (EncryptionMetadataView { nonce: Seq::empty(), ..old(self)@ }),
    {
        self.nonce.clear();
    }

    pub fn set_nonce(&mut self, v: Vec<u8>)
        ensures
            final(self)@ == (EncryptionMetadataView { nonce: v@, ..old(self)@ }),
    {
        self.nonce = v;
    }

    /// The nonce, to be changed in place.
    pub fn mut_nonce(&mut self) -> (r: &mut Vec<u8>)
        ensures
            r@ == old(self)@.nonce,
            final(self)@ == (EncryptionMetadataView { nonce: final(r)@, ..old(self)@ }),
    {
        &mut self.nonce
    }

    /// Takes the nonce out and leaves none.
    pub fn take_nonce(&mut self) -> (r: Vec<u8>)
        ensures
            r@ == old(self)@.nonce,
            final(self)@ == (EncryptionMetadataView { nonce: Seq::empty(), ..old(self)@ }),
    {
        let mut nonce: Vec<u8> = Vec::new();
        std::mem::swap(&mut self.nonce, &mut nonce);
        nonce
    }

    /// No field of this message is required.
    pub fn is_initialized(&self) -> (r: bool)
        ensures
            r,
    {
        true
    }

    /// Puts every field back to its default.
    pub fn clear(&mut self)
        ensures
            final(self)@ == EncryptionMetadataView::spec_default(),
    {
        self.algo = EncryptionAlgorithm::ENCRYPTION_ALGORITHM_INVALID;
        self.nonce.clear();
    }

    /// Merges the fields in `bytes` into the message. Where `bytes` is no
    /// sequence of fields this is an error, and nothing is then said of what
    /// the message holds.
    pub fn merge_from(&mut self, bytes: &[u8]) -> (r: Result<(), Error>)
        ensures
            match old(self)@.merged(bytes@) {
                Some(m) => r is Ok && final(self)@ == m,
                None => r == Err::<(), Error>(Error::MetadataInvalid),
            },
    {
        let ghost start = self@;
        let mut pos: usize = 0;
        assert(bytes@.skip(0) =~= bytes@);
        while pos < bytes.len()
            invariant
                pos <= bytes@.len(),
                start == old(self)@,
                self@.merged(bytes@.skip(pos as int)) == start.merged(bytes@),
            decreases bytes@.len() - pos,
        {
            let rest = slice_subrange(bytes, pos, bytes.len());
            let ghost before = self@;
            assert(rest@ == bytes@.skip(pos as int));
            let (field_number, wire_type, n) = match read_tag(rest) {
                Some(t) => t,
                None => { return Err(Error::MetadataInvalid); },
            };
            let value = slice_subrange(rest, n, rest.len());
            assert(value@ == rest@.skip(n as int));
            let m: usize;
            if field_number == 1 {
                if wire_type != WIRE_TYPE_VARINT {
                    return Err(Error::MetadataInvalid);
                }
                match read_int32(value) {
                    None => { return Err(Error::MetadataInvalid); },
                    Some((v, len)) => {
                        match EncryptionAlgorithm::from_i32(v) {
                            Some(algo) => { self.algo = algo; },
                            None => {},
                        }
                        m = len;
                    },
                }
            } else if field_number == 2 {
                if wire_type != WIRE_TYPE_LENGTH_DELIMITED {
                    return Err(Error::MetadataInvalid);
                }
                match read_bytes(value) {
                    None => { return Err(Error::MetadataInvalid); },
                    Some((nonce, len)) => {
                        self.nonce = nonce;
                        m = len;
                    },
                }
            } else {
                match skip_unknown_field(value, field_number, wire_type) {
                    None => { return Err(Error::MetadataInvalid); },
                    Some(len) => {
                        m = len;
                    },
                }
            }
            assert(before.merged_field(field_number, wire_type, value@) == Some((self@, m as nat)));
            assert(rest@.skip((n + m) as int) == bytes@.skip((pos + n + m) as int));
            pos = pos + n + m;
        }
        assert(bytes@.skip(pos as int).len() == 0);
        Ok(())
    }

    /// The number of bytes that the message takes on the wire.
    pub fn compute_size(&self) -> (r: u32)
        requires
            self@.encoding().len() <= u32::MAX,
        ensures
            r == self@.encoding().len(),
    {
        let mut my_size: u32 = 0;
        if self.algo.value() != 0 {
            my_size += enum_size(1, self.algo.value());
        }
        if !self.nonce.is_empty() {
            my_size += bytes_size(2, self.nonce.as_slice());
        }
        my_size
    }

    /// Appends the message, as it stands on the wire, to `out`.
    pub fn write_to(&self, out: &mut Vec<u8>)
        requires
            self@.nonce.len() <= u32::MAX,
        ensures
            final(out)@ == old(out)@ + self@.encoding(),
    {
        if self.algo.value() != 0 {
            write_enum(out, 1, self.algo.value());
        }
        if !self.nonce.is_empty() {
            write_bytes(out, 2, self.nonce.as_slice());
        }
        assert(out@ =~= old(out)@ + self@.encoding());
    }
}

/// The header's message: both sets of parameters and the size of the data.
#[derive(Debug, PartialEq)]
pub struct Metadata {
    pub key_deriv_meta: Option<KeyDerivationMetadata>,
    pub enc_meta: Option<EncryptionMetadata>,
    pub ciphertext_size: u64,
}

/// What a `Metadata` holds.
pub struct MetadataView {
    pub key_deriv_meta: Option<KeyDerivationMetadataView>,
    pub enc_meta: Option<EncryptionMetadataView>,
    pub ciphertext_size: u64,
}

impl View for Metadata {
    type V = MetadataView;

    open spec fn view(&self) -> MetadataView {
        MetadataView {
            key_deriv_meta: match self.key_deriv_meta {
                Some(m) => Some(m@),
                None => None,
            },
            enc_meta: match self.enc_meta {
                Some(m) => Some(m@),
                None => None,
            },
            ciphertext_size: self.ciphertext_size,
        }
    }
}

impl MetadataView {
    /// The message with every field at its default.
    pub open spec fn spec_default() -> MetadataView {
        MetadataView { key_deriv_meta: None, enc_meta: None, ciphertext_size: 0 }
    }

    /// The field `key_deriv_meta`, or its default where it is not set.
    pub open spec fn spec_get_key_deriv_meta(self) -> KeyDerivationMetadataView {
        match self.key_deriv_meta {
            Some(m) => m,
            None => KeyDerivationMetadataView::spec_default(),
        }
    }

    /// The field `enc_meta`, or its default where it is not set.
    pub open spec fn spec_get_enc_meta(self) -> EncryptionMetadataView {
        match self.enc_meta {
            Some(m) => m,
            None => EncryptionMetadataView::spec_default(),
        }
    }

    /// Whether the embedded messages are short enough for their lengths to
    /// be written: a length on the wire has 32 bits.
    pub open spec fn spec_fits(self) -> bool {
        &&& self.key_deriv_meta matches Some(m) ==> m.salt.len() <= u32::MAX && m.encoding().len()
            <= u32::MAX
        &&& self.enc_meta matches Some(m) ==> m.nonce.len() <= u32::MAX && m.encoding().len()
            <= u32::MAX
    }

    /// The field `key_deriv_meta` on the wire.
    pub open spec fn key_deriv_meta_bytes(self) -> Seq<u8> {
        match self.key_deriv_meta {
            Some(m) => spec_bytes_field(1, m.encoding()),
            None => Seq::empty(),
        }
    }

    /// The field `enc_meta` on the wire.
    pub open spec fn enc_meta_bytes(self) -> Seq<u8> {
        match self.enc_meta {
            Some(m) => spec_bytes_field(2, m.encoding()),
            None => Seq::empty(),
        }
    }

    /// The field `ciphertext_size` on the wire.
    pub open spec fn ciphertext_size_bytes(self) -> Seq<u8> {
        if self.ciphertext_size != 0 {
            spec_varint_field(3, self.ciphertext_size)
        } else {
            Seq::empty()
        }
    }

    /// The message on the wire: its fields in the order of their numbers.
    pub open spec fn encoding(self) -> Seq<u8> {
        self.key_deriv_meta_bytes() + self.enc_meta_bytes() + self.ciphertext_size_bytes()
    }

    /// The message after the field whose tag was just read, and the number of
    /// bytes that the field's value takes at the front of `rest`. An embedded
    /// message is read into an empty one, and replaces what the field held.
    pub open spec fn merged_field(self, field_number: u32, wire_type: u32, rest: Seq<u8>) -> Option<
        (MetadataView, nat),
    > {
        if field_number == 1 {
            if wire_type != WIRE_TYPE_LENGTH_DELIMITED {
                None
            } else {
                match spec_read_delimited(rest) {
                    None => None,
                    Some((content, n)) => match KeyDerivationMetadataView::spec_default().merged(
                        content,
                    ) {
                        None => None,
                        Some(m) => Some((MetadataView { key_deriv_meta: Some(m), ..self }, n)),
                    },
                }
            }
        } else if field_number == 2 {
            if wire_type != WIRE_TYPE_LENGTH_DELIMITED {
                None
            } else {
                match spec_read_delimited(rest) {
                    None => None,
                    Some((content, n)) => match EncryptionMetadataView::spec_default().merged(
                        content,
                    ) {
                        None => None,
                        Some(m) => Some((MetadataView { enc_meta: Some(m), ..self }, n)),
                    },
                }
            }
        } else if field_number == 3 {
            if wire_type != WIRE_TYPE_VARINT {
                None
            } else {
                match spec_read_varint64(rest) {
                    None => None,
                    Some((v, n)) => Some((MetadataView { ciphertext_size: v, ..self }, n)),
                }
            }
        } else {
            match spec_unknown_field_len(rest, field_number, wire_type) {
                None => None,
                Some(n) => Some((self, n)),
            }
        }
    }

    /// The message after all the fields in `bytes` were merged into it, one
    /// after the other; `None` where `bytes` is no sequence of fields.
    pub open spec fn merged(self, bytes: Seq<u8>) -> Option<MetadataView>
        decreases bytes.len(),
    {
        if bytes.len() == 0 {
            Some(self)
        } else {
            match spec_read_tag(bytes) {
                None => None,
                Some((field_number, wire_type, n)) => match self.merged_field(
                    field_number,
                    wire_type,
                    bytes.skip(n as int),
                ) {
                    None => None,
                    Some((next, m)) => if 1 <= n && n + m <= bytes.len() {
                        next.merged(bytes.skip((n + m) as int))
                    } else {
                        None
                    },
                },
            }
        }
    }

    /// One step of `merged`: a tag, the field's value, and what follows.
    proof fn lemma_merged_step(
        self,
        field_number: u32,
        wire_type: u32,
        value: Seq<u8>,
        rest: Seq<u8>,
        next: MetadataView,
    )
        requires
            crate::wire::spec_tag_ok(field_number, wire_type),
            self.merged_field(field_number, wire_type, value + rest) == Some((next, value.len())),
        ensures
            self.merged(spec_tag(field_number, wire_type) + value + rest) == next.merged(rest),
    {
        let tag = spec_tag(field_number, wire_type);
        let bytes = tag + value + rest;
        let n = tag.len();
        lemma_varint_len((field_number * 8 + wire_type) as u64);
        lemma_read_tag_of_tag(field_number, wire_type, value + rest);
        assert(bytes =~= tag + (value + rest));
        assert(bytes.skip(n as int) =~= value + rest);
        assert(bytes.skip((n + value.len()) as int) =~= rest);
    }

    proof fn lemma_merged_key_deriv_meta(self, rest: Seq<u8>)
        requires
            self.key_deriv_meta is Some,
            self.spec_fits(),
        ensures
            MetadataView::spec_default().merged(self.key_deriv_meta_bytes() + rest)
                == (MetadataView {
                key_deriv_meta: self.key_deriv_meta,
                ..MetadataView::spec_default()
            }).merged(rest),
    {
        let d = MetadataView::spec_default();
        let m = self.key_deriv_meta->0;
        m.lemma_merged_encoding();
        lemma_read_bytes_of_bytes(m.encoding(), rest);
        d.lemma_merged_step(
            1,
            WIRE_TYPE_LENGTH_DELIMITED,
            spec_bytes(m.encoding()),
            rest,
            MetadataView { key_deriv_meta: self.key_deriv_meta, ..d },
        );
    }

    proof fn lemma_merged_enc_meta(self, start: MetadataView, rest: Seq<u8>)
        requires
            self.enc_meta is Some,
            self.spec_fits(),
        ensures
            start.merged(self.enc_meta_bytes() + rest) == (MetadataView {
                enc_meta: self.enc_meta,
                ..start
            }).merged(rest),
    {
        let m = self.enc_meta->0;
        m.lemma_merged_encoding();
        lemma_read_bytes_of_bytes(m.encoding(), rest);
        start.lemma_merged_step(
            2,
            WIRE_TYPE_LENGTH_DELIMITED,
            spec_bytes(m.encoding()),
            rest,
            MetadataView { enc_meta: self.enc_meta, ..start },
        );
    }

    proof fn lemma_merged_ciphertext_size(self, start: MetadataView, rest: Seq<u8>)
        requires
            self.ciphertext_size != 0,
        ensures
            start.merged(self.ciphertext_size_bytes() + rest) == (MetadataView {
                ciphertext_size: self.ciphertext_size,
                ..start
            }).merged(rest),
    {
        lemma_read_varint64_of_varint(self.ciphertext_size, rest);
        start.lemma_merged_step(
            3,
            WIRE_TYPE_VARINT,
            spec_varint(self.ciphertext_size),
            rest,
            MetadataView { ciphertext_size: self.ciphertext_size, ..start },
        );
    }

    /// Reading what was written for a message, into an empty message, gives
    /// the message back.
    pub proof fn lemma_merged_encoding(self)
        requires
            self.spec_fits(),
        ensures
            MetadataView::spec_default().merged(self.encoding()) == Some(self),
    {
        let d = MetadataView::spec_default();
        let s1 = MetadataView { key_deriv_meta: self.key_deriv_meta, ..d };
        let s2 = MetadataView { enc_meta: self.enc_meta, ..s1 };
        let s3 = MetadataView { ciphertext_size: self.ciphertext_size, ..s2 };
        let nothing = Seq::<u8>::empty();
        let b3 = self.ciphertext_size_bytes();
        let b2 = self.enc_meta_bytes() + b3;
        assert(self.encoding() =~= self.key_deriv_meta_bytes() + b2);
        assert(s3 == self);
        assert(s3.merged(nothing) == Some(s3));
        if self.ciphertext_size != 0 {
            self.lemma_merged_ciphertext_size(s2, nothing);
            assert(b3 + nothing =~= b3);
        }
        assert(s2.merged(b3) == Some(self));
        if self.enc_meta is Some {
            self.lemma_merged_enc_meta(s1, b3);
        } else {
            assert(b2 =~= b3);
        }
        assert(s1.merged(b2) == Some(self));
        if self.key_deriv_meta is Some {
            self.lemma_merged_key_deriv_meta(b2);
        } else {
            assert(self.key_deriv_meta_bytes() + b2 =~= b2);
        }
    }
}

impl Clone for Metadata {
    fn clone(&self) -> (r: Self)
        ensures
            r@ == self@,
    {
        Metadata {
            key_deriv_meta: match &self.key_deriv_meta {
                Some(m) => Some(m.clone()),
                None => None,
            },
            enc_meta: match &self.enc_meta {
                Some(m) => Some(m.clone()),
                None => None,
            },
            ciphertext_size: self.ciphertext_size,
        }
    }
}

impl Default for Metadata {
    fn default() -> (r: Self)
        ensures
            r@ == MetadataView::spec_default(),
    {
        Metadata { key_deriv_meta: None, enc_meta: None, ciphertext_size: 0 }
    }
}

impl Metadata {
    /// A message with every field at its default.
    pub fn new() -> (r: Metadata)
        ensures
            r@ == MetadataView::spec_default(),
    {
        Metadata { key_deriv_meta: None, enc_meta: None, ciphertext_size: 0 }
    }

    /// The field `key_deriv_meta`, or an empty message where it is not set.
    pub fn get_key_deriv_meta(&self) -> (r: KeyDerivationMetadata)
        ensures
            r@ == self@.spec_get_key_deriv_meta(),
    {
        match &self.key_deriv_meta {
            Some(m) => m.clone(),
            None => KeyDerivationMetadata::new(),
        }
    }

    pub fn clear_key_deriv_meta(&mut self)
        ensures
            final(self)@ == (MetadataView { key_deriv_meta: None, ..old(self)@ }),
    {
        self.key_deriv_meta = None;
    }

    pub fn has_key_deriv_meta(&self) -> (r: bool)
        ensures
            r == self@.key_deriv_meta is Some,
    {
        self.key_deriv_meta.is_some()
    }

    pub fn set_key_deriv_meta(&mut self, v: KeyDerivationMetadata)
        ensures
            final(self)@ == (MetadataView { key_deriv_meta: Some(v@), ..old(self)@ }),
    {
        self.key_deriv_meta = Some(v);
    }

    /// The field `key_deriv_meta`, to be changed in place; it is set to an
    /// empty message first where it was not set.
    pub fn mut_key_deriv_meta(&mut self) -> (r: &mut KeyDerivationMetadata)
        ensures
            r@ == old(self)@.spec_get_key_deriv_meta(),
            final(self)@ == (MetadataView { key_deriv_meta: Some(final(r)@), ..old(self)@ }),
    {
        if self.key_deriv_meta.is_none() {
            self.key_deriv_meta = Some(KeyDerivationMetadata::new());
        }
        match &mut self.key_deriv_meta {
            Some(m) => m,
            None => vstd::pervasive::unreached(),
        }
    }

    /// Takes the field `key_deriv_meta` out and leaves it unset; an empty
    /// message where it was not set.
    pub fn take_key_deriv_meta(&mut self) -> (r: KeyDerivationMetadata)
        ensures
            r@ == old(self)@.spec_get_key_deriv_meta(),
            final(self)@ == (MetadataView { key_deriv_meta: None, ..old(self)@ }),
    {
        match self.key_deriv_meta.take() {
            Some(m) => m,
            None => KeyDerivationMetadata::new(),
        }
    }

    /// The field `enc_meta`, or an empty message where it is not set.
    pub fn get_enc_meta(&self) -> (r: EncryptionMetadata)
        ensures
            r@ == self@.spec_get_enc_meta(),
    {
        match &self.enc_meta {
            Some(m) => m.clone(),
            None => EncryptionMetadata::new(),
        }
    }

    pub fn clear_enc_meta(&mut self)
        ensures
            final(self)@ == (MetadataView { enc_meta: None, ..old(self)@ }),
    {
        self.enc_meta = None;
    }

    pub fn has_enc_meta(&self) -> (r: bool)
        ensures
            r == self@.enc_meta is Some,
    {
        self.enc_meta.is_some()
    }

    pub fn set_enc_meta(&mut self, v: EncryptionMetadata)
        ensures
            final(self)@ == (MetadataView { enc_meta: Some(v@), ..old(self)@ }),
    {
        self.enc_meta = Some(v);
    }

    /// The field `enc_meta`, to be changed in place; it is set to an empty
    /// message first where it was not set.
    pub fn mut_enc_meta(&mut self) -> (r: &mut EncryptionMetadata)
        ensures
            r@ == old(self)@.spec_get_enc_meta(),
            final(self)@ == (MetadataView { enc_meta: Some(final(r)@), ..old(self)@ }),
    {
        if self.enc_meta.is_none() {
            self.enc_meta = Some(EncryptionMetadata::new());
        }
        match &mut self.enc_meta {
            Some(m) => m,
            None => vstd::pervasive::unreached(),
        }
    }

    /// Takes the field `enc_meta` out and leaves it unset; an empty message
    /// where it was not set.
    pub fn take_enc_meta(&mut self) -> (r: EncryptionMetadata)
        ensures
            r@ == old(self)@.spec_get_enc_meta(),
            final(self)@ == (MetadataView { enc_meta: None, ..old(self)@ }),
    {
        match self.enc_meta.take() {
            Some(m) => m,
            None => EncryptionMetadata::new(),
        }
    }

    pub fn get_ciphertext_size(&self) -> (r: u64)
        ensures
            r == self@.ciphertext_size,
    {
        self.ciphertext_size
    }

    pub fn clear_ciphertext_size(&mut self)
        ensures
            final(self)@ == (MetadataView { ciphertext_size: 0, ..old(self)@ }),
    {
        self.ciphertext_size = 0;
    }

    pub fn set_ciphertext_size(&mut self, v: u64)
        ensures
            final(self)@ == (MetadataView { ciphertext_size: v, ..old(self)@ }),
    {
        self.ciphertext_size = v;
    }

    /// No field of this message, or of those embedded in it, is required.
    pub fn is_initialized(&self) -> (r: bool)
        ensures
            r,
    {
        match &self.key_deriv_meta {
            Some(m) => {
                if !m.is_initialized() {
                    return false;
                }
            },
            None => {},
        }
        match &self.enc_meta {
            Some(m) => {
                if !m.is_initialized() {
                    return false;
                }
            },
            None => {},
        }
        true
    }

    /// Puts every field back to its default.
    pub fn clear(&mut self)
        ensures
            final(self)@ == MetadataView::spec_default(),
    {
        self.key_deriv_meta = None;
        self.enc_meta = None;
        self.ciphertext_size = 0;
    }

    /// Merges the fields in `bytes` into the message. Where `bytes` is no
    /// sequence of fields this is an error, and nothing is then said of what
    /// the message holds.
    pub fn merge_from(&mut self, bytes: &[u8]) -> (r: Result<(), Error>)
        ensures
            match old(self)@.merged(bytes@) {
                Some(m) => r is Ok && final(self)@ == m,
                None => r == Err::<(), Error>(Error::MetadataInvalid),
            },
    {
        let ghost start = self@;
        let mut pos: usize = 0;
        assert(bytes@.skip(0) =~= bytes@);
        while pos < bytes.len()
            invariant
                pos <= bytes@.len(),
                start == old(self)@,
                self@.merged(bytes@.skip(pos as int)) == start.merged(bytes@),
            decreases bytes@.len() - pos,
        {
            let rest = slice_subrange(bytes, pos, bytes.len());
            let ghost before = self@;
            assert(rest@ == bytes@.skip(pos as int));
            let (field_number, wire_type, n) = match read_tag(rest) {
                Some(t) => t,
                None => { return Err(Error::MetadataInvalid); },
            };
            let value = slice_subrange(rest, n, rest.len());
            assert(value@ == rest@.skip(n as int));
            let m: usize;
            if field_number == 1 {
                if wire_type != WIRE_TYPE_LENGTH_DELIMITED {
                    return Err(Error::MetadataInvalid);
                }
                match read_delimited(value) {
                    None => { return Err(Error::MetadataInvalid); },
                    Some((from, to)) => {
                        let mut message = KeyDerivationMetadata::new();
                        match message.merge_from(slice_subrange(value, from, to)) {
                            Err(e) => { return Err(e); },
                            Ok(()) => {},
                        }
                        self.key_deriv_meta = Some(message);
                        m = to;
                    },
                }
            } else if field_number == 2 {
                if wire_type != WIRE_TYPE_LENGTH_DELIMITED {
                    return Err(Error::MetadataInvalid);
                }
                match read_delimited(value) {
                    None => { return Err(Error::MetadataInvalid); },
                    Some((from, to)) => {
                        let mut message = EncryptionMetadata::new();
                        match message.merge_from(slice_subrange(value, from, to)) {
                            Err(e) => { return Err(e); },
                            Ok(()) => {},
                        }
                        self.enc_meta = Some(message);
                        m = to;
                    },
                }
            } else if field_number == 3 {
                if wire_type != WIRE_TYPE_VARINT {
                    return Err(Error::MetadataInvalid);
                }
                match read_uint64(value) {
                    None => { return Err(Error::MetadataInvalid); },
                    Some((v, len)) => {
                        self.ciphertext_size = v;
                        m = len;
                    },
                }
            } else {
                match skip_unknown_field(value, field_number, wire_type) {
                    None => { return Err(Error::MetadataInvalid); },
                    Some(len) => {
                        m = len;
                    },
                }
            }
            assert(before.merged_field(field_number, wire_type, value@) == Some((self@, m as nat)));
            assert(rest@.skip((n + m) as int) == bytes@.skip((pos + n + m) as int));
            pos = pos + n + m;
        }
        assert(bytes@.skip(pos as int).len() == 0);
        Ok(())
    }

    /// The number of bytes that the message takes on the wire.
    pub fn compute_size(&self) -> (r: u32)
        requires
            self@.spec_fits(),
            self@.encoding().len() <= u32::MAX,
        ensures
            r == self@.encoding().len(),
    {
        let mut my_size: u32 = 0;
        match &self.key_deriv_meta {
            Some(v) => {
                let len = v.compute_size();
                proof {
                    lemma_varint_len(len as u64);
                }
                my_size += tag_size(1) + protobuf::rt::compute_raw_varint64_size(len as u64) + len;
            },
            None => {},
        }
        match &self.enc_meta {
            Some(v) => {
                let len = v.compute_size();
                proof {
                    lemma_varint_len(len as u64);
                }
                my_size += tag_size(2) + protobuf::rt::compute_raw_varint64_size(len as u64) + len;
            },
            None => {},
        }
        if self.ciphertext_size != 0 {
            my_size += value_size(3, self.ciphertext_size);
        }
        my_size
    }

    /// Appends the message, as it stands on the wire, to `out`.
    pub fn write_to(&self, out: &mut Vec<u8>)
        requires
            self@.spec_fits(),
        ensures
            final(out)@ == old(out)@ + self@.encoding(),
    {
        match &self.key_deriv_meta {
            Some(v) => {
                write_tag(out, 1, WIRE_TYPE_LENGTH_DELIMITED);
                write_raw_varint64(out, v.compute_size() as u64);
                v.write_to(out);
            },
            None => {},
        }
        let ghost first = out@;
        assert(first =~= old(out)@ + self@.key_deriv_meta_bytes());
        match &self.enc_meta {
            Some(v) => {
                write_tag(out, 2, WIRE_TYPE_LENGTH_DELIMITED);
                write_raw_varint64(out, v.compute_size() as u64);
                v.write_to(out);
            },
            None => {},
        }
        assert(out@ =~= first + self@.enc_meta_bytes());
        if self.ciphertext_size != 0 {
            write_uint64(out, 3, self.ciphertext_size);
        }
        assert(out@ =~= old(out)@ + self@.encoding());
    }
}

} // verus!
