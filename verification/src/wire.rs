//! The wire primitives of protocol buffers that the header is made of.
//!
//! Varints are read, written and measured by the `protobuf` crate; fields
//! that the schema does not know are skipped by it as well. What is built from
//! those (tags, scalar fields, byte fields) is verified here.

use vstd::prelude::*;
use vstd::slice::slice_subrange;

verus! {

/// Wire type of a varint.
pub const WIRE_TYPE_VARINT: u32 = 0;

/// Wire type of eight little-endian bytes.
pub const WIRE_TYPE_FIXED64: u32 = 1;

/// Wire type of a length followed by that many bytes.
pub const WIRE_TYPE_LENGTH_DELIMITED: u32 = 2;

/// Wire type that opens a group.
pub const WIRE_TYPE_START_GROUP: u32 = 3;

/// Wire type that closes a group.
pub const WIRE_TYPE_END_GROUP: u32 = 4;

/// Wire type of four little-endian bytes.
pub const WIRE_TYPE_FIXED32: u32 = 5;

/// The largest field number that a tag can carry.
pub const FIELD_NUMBER_MAX: u32 = 0x1fff_ffff;

/// The longest varint that is read: ten bytes.
pub const VARINT_MAX_LEN: usize = 10;

/// The varint encoding of `v`: seven bits a byte, the lowest bits first, and
/// the high bit set on every byte but the last.
pub open spec fn spec_varint(v: u64) -> Seq<u8>
    decreases v,
{
    if v < 128 {
        seq![v as u8]
    } else {
        seq![(v % 128 + 128) as u8] + spec_varint(v / 128)
    }
}

/// The varint at the front of `bytes`, read with at most `limit` bytes: the
/// sum of its seven-bit groups, not yet cut to 64 bits, and the number of
/// bytes it takes. `None` where `bytes` ends, or `limit` is used up, before a
/// byte without the high bit.
pub open spec fn spec_varint_prefix(bytes: Seq<u8>, limit: nat) -> Option<(nat, nat)>
    decreases limit,
{
    if limit == 0 || bytes.len() == 0 {
        None
    } else if bytes[0] < 128 {
        Some((bytes[0] as nat, 1))
    } else {
        match spec_varint_prefix(bytes.skip(1), (limit - 1) as nat) {
            None => None,
            Some((v, n)) => Some(((bytes[0] - 128 + 128 * v) as nat, n + 1)),
        }
    }
}

/// What reading a 64-bit varint from the front of `bytes` gives: the value,
/// cut to its low 64 bits, and the number of bytes read.
pub open spec fn spec_read_varint64(bytes: Seq<u8>) -> Option<(u64, nat)> {
    match spec_varint_prefix(bytes, VARINT_MAX_LEN as nat) {
        None => None,
        Some((v, n)) => Some(((v % 0x1_0000_0000_0000_0000) as u64, n)),
    }
}

/// Whether a field number and a wire type can stand in a tag.
pub open spec fn spec_tag_ok(field_number: u32, wire_type: u32) -> bool {
    1 <= field_number <= FIELD_NUMBER_MAX && wire_type <= WIRE_TYPE_FIXED32
}

/// A tag: the varint of the field number, shifted left by three bits, with the
/// wire type in the three low bits.
pub open spec fn spec_tag(field_number: u32, wire_type: u32) -> Seq<u8> {
    spec_varint((field_number * 8 + wire_type) as u64)
}

/// The tag at the front of `bytes`: field number, wire type, and the bytes it
/// takes. The varint is cut to 32 bits; a wire type above five and the field
/// number zero are refused.
pub open spec fn spec_read_tag(bytes: Seq<u8>) -> Option<(u32, u32, nat)> {
    match spec_read_varint64(bytes) {
        None => None,
        Some((v, n)) => {
            let low = v % 0x1_0000_0000;
            if low % 8 > WIRE_TYPE_FIXED32 || low / 8 == 0 {
                None
            } else {
                Some(((low / 8) as u32, (low % 8) as u32, n))
            }
        },
    }
}

/// A 32-bit signed value as the 64-bit value whose varint is written for it:
/// itself where it is not negative, else its two's complement in 64 bits.
pub open spec fn spec_int32_as_u64(value: i32) -> u64 {
    if value >= 0 {
        value as u64
    } else {
        (0x1_0000_0000_0000_0000 + value) as u64
    }
}

/// A varint that is read as a 32-bit signed value: its low 32 bits, taken as
/// two's complement.
pub open spec fn spec_u64_as_int32(v: u64) -> i32 {
    let low = v % 0x1_0000_0000;
    if low <= 0x7fff_ffff {
        low as i32
    } else {
        (low - 0x1_0000_0000) as i32
    }
}

/// A field that holds a varint: its tag, then the value.
pub open spec fn spec_varint_field(field_number: u32, value: u64) -> Seq<u8> {
    spec_tag(field_number, WIRE_TYPE_VARINT) + spec_varint(value)
}

/// What follows the tag of a field of bytes: the length, then the bytes.
pub open spec fn spec_bytes(bytes: Seq<u8>) -> Seq<u8> {
    spec_varint(bytes.len() as u64) + bytes
}

/// A field of bytes: its tag, the length, then the bytes.
pub open spec fn spec_bytes_field(field_number: u32, bytes: Seq<u8>) -> Seq<u8> {
    spec_tag(field_number, WIRE_TYPE_LENGTH_DELIMITED) + spec_bytes(bytes)
}

/// The bytes of a field of bytes whose tag was read already, and where they
/// end. The length is a varint cut to 32 bits.
pub open spec fn spec_read_bytes(bytes: Seq<u8>) -> Option<(Seq<u8>, nat)> {
    match spec_read_varint64(bytes) {
        None => None,
        Some((v, n)) => {
            let len = (v % 0x1_0000_0000) as nat;
            if n + len > bytes.len() {
                None
            } else {
                Some((bytes.subrange(n as int, (n + len) as int), n + len))
            }
        },
    }
}

/// The content of an embedded message whose tag was read already, and where
/// it ends. The length is a 64-bit varint.
pub open spec fn spec_read_delimited(bytes: Seq<u8>) -> Option<(Seq<u8>, nat)> {
    match spec_read_varint64(bytes) {
        None => None,
        Some((v, n)) => {
            if n + v > bytes.len() {
                None
            } else {
                Some((bytes.subrange(n as int, n + v), (n + v) as nat))
            }
        },
    }
}

/// Where the field with the given number and wire type ends, when the schema
/// does not know it and `bytes` starts right after its tag.
pub uninterp spec fn spec_unknown_field_len(bytes: Seq<u8>, field_number: u32, wire_type: u32) -> Option<nat>;

/// Calls `protobuf::CodedInputStream::read_raw_varint64` on a stream over
/// `bytes`, and `pos` for the number of bytes that it took.
///
/// Trusted: the stream reads bytes until one has its high bit clear, fails
/// where the input ends first or ten bytes all have it set, and returns the
/// seven-bit groups put together, lowest first, cut to 64 bits.
#[verifier::external_body]
pub(crate) fn read_raw_varint64(bytes: &[u8]) -> (r: Option<(u64, usize)>)
    ensures
        match spec_read_varint64(bytes@) {
            None => r is None,
            Some((v, n)) => r matches Some((value, len)) && value == v && len == n,
        },
{
    let mut stream = protobuf::CodedInputStream::from_bytes(bytes);
    let value = stream.read_raw_varint64().ok()?;
    Some((value, stream.pos() as usize))
}

/// Calls `protobuf::CodedOutputStream::write_raw_varint64` on a stream that
/// appends to `out`.
///
/// Trusted: the stream appends the varint encoding of `value`, and nothing
/// else; writing to a vector does not fail.
#[verifier::external_body]
pub(crate) fn write_raw_varint64(out: &mut Vec<u8>, value: u64)
    ensures
        final(out)@ == old(out)@ + spec_varint(value),
{
    let mut stream = protobuf::CodedOutputStream::vec(out);
    stream.write_raw_varint64(value).unwrap();
    stream.flush().unwrap();
}

/// `protobuf::rt::compute_raw_varint64_size` returns the number of bytes of
/// the varint encoding of `value`.
pub assume_specification[ protobuf::rt::compute_raw_varint64_size ](value: u64) -> (r: u32)
    ensures
        r == spec_varint(value).len(),
;

/// Calls `protobuf::rt::read_unknown_or_skip_group` on a stream over `bytes`,
/// and `pos` for the number of bytes that it took.
///
/// Trusted: the outcome depends on the three arguments alone, and the stream
/// never reads past the end of `bytes`.
#[verifier::external_body]
pub(crate) fn skip_unknown_field(bytes: &[u8], field_number: u32, wire_type: u32) -> (r: Option<usize>)
    ensures
        match spec_unknown_field_len(bytes@, field_number, wire_type) {
            None => r is None,
            Some(n) => r matches Some(len) && len == n,
        },
        r matches Some(n) ==> n <= bytes@.len(),
{
    let mut stream = protobuf::CodedInputStream::from_bytes(bytes);
    let mut unknown = protobuf::UnknownFields::new();
    let wire_type = protobuf::wire_format::WireType::new(wire_type)?;
    protobuf::rt::read_unknown_or_skip_group(field_number, wire_type, &mut stream, &mut unknown).ok()?;
    Some(stream.pos() as usize)
}

/// 128 to the power `k`.
spec fn spec_pow128(k: nat) -> nat
    decreases k,
{
    if k == 0 {
        1
    } else {
        128 * spec_pow128((k - 1) as nat)
    }
}

proof fn lemma_varint_len_below(v: u64, k: nat)
    requires
        k >= 1,
        v < spec_pow128(k),
    ensures
        1 <= spec_varint(v).len() <= k,
    decreases v,
{
    reveal_with_fuel(spec_pow128, 2);
    if v >= 128 {
        assert(k >= 2);
        lemma_varint_len_below(v / 128, (k - 1) as nat);
    }
}

/// A varint takes between one and ten bytes.
pub proof fn lemma_varint_len(v: u64)
    ensures
        1 <= spec_varint(v).len() <= VARINT_MAX_LEN,
{
    reveal_with_fuel(spec_pow128, 11);
    lemma_varint_len_below(v, 10);
}

proof fn lemma_varint_prefix_of_varint(v: u64, rest: Seq<u8>, limit: nat)
    requires
        limit >= spec_varint(v).len(),
    ensures
        spec_varint_prefix(spec_varint(v) + rest, limit) == Some(
            (v as nat, spec_varint(v).len()),
        ),
    decreases v,
{
    let bytes = spec_varint(v) + rest;
    if v < 128 {
        assert(bytes[0] == v as u8);
    } else {
        assert(bytes[0] == (v % 128 + 128) as u8);
        assert(bytes.skip(1) =~= spec_varint(v / 128) + rest);
        lemma_varint_prefix_of_varint(v / 128, rest, (limit - 1) as nat);
    }
}

/// Reading gives back what was written, whatever follows it.
pub proof fn lemma_read_varint64_of_varint(v: u64, rest: Seq<u8>)
    ensures
        spec_read_varint64(spec_varint(v) + rest) == Some((v, spec_varint(v).len())),
{
    lemma_varint_len(v);
    lemma_varint_prefix_of_varint(v, rest, VARINT_MAX_LEN as nat);
}

proof fn lemma_varint_prefix_len(bytes: Seq<u8>, limit: nat)
    ensures
        spec_varint_prefix(bytes, limit) matches Some((v, n)) ==> 1 <= n <= limit && n
            <= bytes.len(),
    decreases limit,
{
    if limit != 0 && bytes.len() != 0 && bytes[0] >= 128 {
        lemma_varint_prefix_len(bytes.skip(1), (limit - 1) as nat);
    }
}

/// A varint that is read takes at least one byte, at most ten, and no more
/// than there are.
pub proof fn lemma_read_varint64_len(bytes: Seq<u8>)
    ensures
        spec_read_varint64(bytes) matches Some((v, n)) ==> 1 <= n <= VARINT_MAX_LEN && n
            <= bytes.len(),
{
    lemma_varint_prefix_len(bytes, VARINT_MAX_LEN as nat);
}

/// The tag that was written is the tag that is read.
pub proof fn lemma_read_tag_of_tag(field_number: u32, wire_type: u32, rest: Seq<u8>)
    requires
        spec_tag_ok(field_number, wire_type),
    ensures
        spec_read_tag(spec_tag(field_number, wire_type) + rest) == Some(
            (field_number, wire_type, spec_tag(field_number, wire_type).len()),
        ),
{
    lemma_read_varint64_of_varint((field_number * 8 + wire_type) as u64, rest);
}

/// The bytes that were written are the bytes that are read.
pub proof fn lemma_read_bytes_of_bytes(bytes: Seq<u8>, rest: Seq<u8>)
    requires
        bytes.len() <= u32::MAX,
    ensures
        spec_read_bytes(spec_bytes(bytes) + rest) == Some((bytes, spec_bytes(bytes).len())),
        spec_read_delimited(spec_bytes(bytes) + rest) == Some((bytes, spec_bytes(bytes).len())),
{
    let prefix = spec_varint(bytes.len() as u64);
    let all = spec_bytes(bytes) + rest;
    assert(all =~= prefix + (bytes + rest));
    lemma_read_varint64_of_varint(bytes.len() as u64, bytes + rest);
    assert(all.subrange(prefix.len() as int, (prefix.len() + bytes.len()) as int) =~= bytes);
}

/// A signed 32-bit value survives being written as a varint and read back.
pub proof fn lemma_int32_round_trip(value: i32)
    ensures
        spec_u64_as_int32(spec_int32_as_u64(value)) == value,
{
}

/// The three low bits of a value do not change the length of its varint.
proof fn lemma_varint_len_low_bits(v: u64, low: u64)
    requires
        v % 8 == 0,
        low < 8,
        v + low <= u64::MAX,
    ensures
        spec_varint((v + low) as u64).len() == spec_varint(v).len(),
{
    let q = v / 128;
    let r = v % 128;
    assert(r % 8 == 0 && r <= 120 && (v + low) / 128 == q && (v + low) % 128 == r + low)
        by (bit_vector)
        requires
            v % 8 == 0,
            low < 8,
            q == v / 128,
            r == v % 128,
    ;
}

/// Appends the tag of a field to `out`.
pub fn write_tag(out: &mut Vec<u8>, field_number: u32, wire_type: u32)
    requires
        spec_tag_ok(field_number, wire_type),
    ensures
        final(out)@ == old(out)@ + spec_tag(field_number, wire_type),
{
    let value: u64 = field_number as u64 * 8 + wire_type as u64;
    write_raw_varint64(out, value);
}

/// Appends a field that holds an unsigned 64-bit value to `out`.
pub fn write_uint64(out: &mut Vec<u8>, field_number: u32, value: u64)
    requires
        1 <= field_number <= FIELD_NUMBER_MAX,
    ensures
        final(out)@ == old(out)@ + spec_varint_field(field_number, value),
{
    write_tag(out, field_number, WIRE_TYPE_VARINT);
    write_raw_varint64(out, value);
    assert(out@ =~= old(out)@ + spec_varint_field(field_number, value));
}

/// The 64-bit value whose varint stands for a signed 32-bit value.
pub fn int32_as_u64(value: i32) -> (r: u64)
    ensures
        r == spec_int32_as_u64(value),
{
    if value >= 0 {
        value as u64
    } else {
        let below: u64 = (-(value + 1)) as u64;
        u64::MAX - below
    }
}

/// Appends a field that holds the number of an enum's variant to `out`.
pub fn write_enum(out: &mut Vec<u8>, field_number: u32, value: i32)
    requires
        1 <= field_number <= FIELD_NUMBER_MAX,
    ensures
        final(out)@ == old(out)@ + spec_varint_field(field_number, spec_int32_as_u64(value)),
{
    write_uint64(out, field_number, int32_as_u64(value));
}

/// Appends `bytes` to `out`.
pub fn write_raw_bytes(out: &mut Vec<u8>, bytes: &[u8])
    ensures
        final(out)@ == old(out)@ + bytes@,
{
    out.extend_from_slice(bytes);
}

/// Appends a field of bytes to `out`.
pub fn write_bytes(out: &mut Vec<u8>, field_number: u32, bytes: &[u8])
    requires
        1 <= field_number <= FIELD_NUMBER_MAX,
        bytes@.len() <= u32::MAX,
    ensures
        final(out)@ == old(out)@ + spec_bytes_field(field_number, bytes@),
{
    write_tag(out, field_number, WIRE_TYPE_LENGTH_DELIMITED);
    write_raw_varint64(out, bytes.len() as u64);
    write_raw_bytes(out, bytes);
    assert(out@ =~= old(out)@ + spec_bytes_field(field_number, bytes@));
}

/// The number of bytes of a field's tag.
pub fn tag_size(field_number: u32) -> (r: u32)
    requires
        1 <= field_number <= FIELD_NUMBER_MAX,
    ensures
        1 <= r <= VARINT_MAX_LEN,
        forall|wire_type: u32|
            wire_type <= WIRE_TYPE_FIXED32 ==> r == (#[trigger] spec_tag(
                field_number,
                wire_type,
            )).len(),
{
    let r = protobuf::rt::compute_raw_varint64_size(field_number as u64 * 8);
    proof {
        lemma_varint_len((field_number * 8) as u64);
        assert forall|wire_type: u32| wire_type <= WIRE_TYPE_FIXED32 implies r == (
        #[trigger] spec_tag(field_number, wire_type)).len() by {
            lemma_varint_len_low_bits((field_number * 8) as u64, wire_type as u64);
        }
    }
    r
}

/// The number of bytes of a field that holds an unsigned 64-bit value.
pub fn value_size(field_number: u32, value: u64) -> (r: u32)
    requires
        1 <= field_number <= FIELD_NUMBER_MAX,
    ensures
        r == spec_varint_field(field_number, value).len(),
{
    proof {
        lemma_varint_len(value);
    }
    tag_size(field_number) + protobuf::rt::compute_raw_varint64_size(value)
}

/// The number of bytes of a field that holds the number of an enum's variant.
pub fn enum_size(field_number: u32, value: i32) -> (r: u32)
    requires
        1 <= field_number <= FIELD_NUMBER_MAX,
    ensures
        r == spec_varint_field(field_number, spec_int32_as_u64(value)).len(),
{
    value_size(field_number, int32_as_u64(value))
}

/// The number of bytes of a field of bytes.
pub fn bytes_size(field_number: u32, bytes: &[u8]) -> (r: u32)
    requires
        1 <= field_number <= FIELD_NUMBER_MAX,
        spec_bytes_field(field_number, bytes@).len() <= u32::MAX,
    ensures
        r == spec_bytes_field(field_number, bytes@).len(),
{
    proof {
        lemma_varint_len(bytes@.len() as u64);
    }
    let prefix = tag_size(field_number) + protobuf::rt::compute_raw_varint64_size(
        bytes.len() as u64,
    );
    prefix + bytes.len() as u32
}

/// Reads the tag at the front of `bytes`: field number, wire type and the
/// number of bytes read.
pub fn read_tag(bytes: &[u8]) -> (r: Option<(u32, u32, usize)>)
    ensures
        match spec_read_tag(bytes@) {
            None => r is None,
            Some((field_number, wire_type, n)) => r matches Some((f, w, len)) && f == field_number
                && w == wire_type && len == n,
        },
        r matches Some((field_number, wire_type, n)) ==> spec_tag_ok(field_number, wire_type) && 1
            <= n <= bytes@.len(),
{
    proof {
        lemma_read_varint64_len(bytes@);
    }
    match read_raw_varint64(bytes) {
        None => None,
        Some((v, n)) => {
            let low: u64 = v % 0x1_0000_0000;
            let wire_type: u32 = (low % 8) as u32;
            let field_number: u32 = (low / 8) as u32;
            if wire_type > WIRE_TYPE_FIXED32 || field_number == 0 {
                None
            } else {
                Some((field_number, wire_type, n))
            }
        },
    }
}

/// Reads a varint as a signed 32-bit value, and the number of bytes read.
pub fn read_int32(bytes: &[u8]) -> (r: Option<(i32, usize)>)
    ensures
        match spec_read_varint64(bytes@) {
            None => r is None,
            Some((v, n)) => r matches Some((value, len)) && value == spec_u64_as_int32(v) && len
                == n,
        },
        r matches Some((v, n)) ==> 1 <= n <= bytes@.len(),
{
    proof {
        lemma_read_varint64_len(bytes@);
    }
    match read_raw_varint64(bytes) {
        None => None,
        Some((v, n)) => {
            let low: u64 = v % 0x1_0000_0000;
            if low <= 0x7fff_ffff {
                Some((low as i32, n))
            } else {
                let above: u64 = 0x1_0000_0000 - low;
                Some(((-((above - 1) as i32)) - 1, n))
            }
        },
    }
}

/// Reads a varint as an unsigned 64-bit value, and the number of bytes read.
pub fn read_uint64(bytes: &[u8]) -> (r: Option<(u64, usize)>)
    ensures
        match spec_read_varint64(bytes@) {
            None => r is None,
            Some((v, n)) => r matches Some((value, len)) && value == v && len == n,
        },
        r matches Some((v, n)) ==> 1 <= n <= bytes@.len(),
{
    proof {
        lemma_read_varint64_len(bytes@);
    }
    read_raw_varint64(bytes)
}

/// Reads a length and that many bytes, and the number of bytes read in all.
pub fn read_bytes(bytes: &[u8]) -> (r: Option<(Vec<u8>, usize)>)
    ensures
        match spec_read_bytes(bytes@) {
            None => r is None,
            Some((content, n)) => r matches Some((c, m)) && c@ == content && m == n,
        },
        r matches Some((c, m)) ==> 1 <= m <= bytes@.len(),
{
    proof {
        lemma_read_varint64_len(bytes@);
    }
    match read_raw_varint64(bytes) {
        None => None,
        Some((v, n)) => {
            let len: u64 = v % 0x1_0000_0000;
            if len > (bytes.len() - n) as u64 {
                None
            } else {
                let end: usize = n + len as usize;
                let content = slice_subrange(bytes, n, end);
                Some((vstd::slice::slice_to_vec(content), end))
            }
        },
    }
}

/// Reads the length of an embedded message, and says where in `bytes` its
/// content starts and ends.
pub fn read_delimited(bytes: &[u8]) -> (r: Option<(usize, usize)>)
    ensures
        match spec_read_delimited(bytes@) {
            None => r is None,
            Some((content, n)) => r matches Some((start, end)) && end == n && start <= end
                && content == bytes@.subrange(start as int, end as int),
        },
        r matches Some((start, end)) ==> 1 <= start <= end <= bytes@.len(),
{
    proof {
        lemma_read_varint64_len(bytes@);
    }
    match read_raw_varint64(bytes) {
        None => None,
        Some((v, n)) => {
            if v > (bytes.len() - n) as u64 {
                None
            } else {
                Some((n, n + v as usize))
            }
        },
    }
}

} // verus!
