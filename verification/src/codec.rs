//! The binary codec of a telemetry record.
//!
//! A record is a position of three axes. On the wire it is 24 bytes: the
//! values of `x`, `y` and `z` in that order, each the bit pattern of an IEEE 754
//! binary64 number in little-endian byte order. The layout has no length
//! prefix and no tag. A field whose bit pattern is an infinity or a NaN is
//! no number and makes the frame malformed.

use vstd::bytes::{
    lemma_auto_spec_u64_to_from_le_bytes, spec_u64_from_le_bytes, spec_u64_to_le_bytes,
    u64_from_le_bytes, u64_to_le_bytes,
};
use vstd::prelude::*;
use vstd::slice::slice_subrange;

verus! {

/// Bytes that one encoded field occupies.
pub const FIELD_SIZE: usize = 8;

/// Bytes that one encoded record occupies.
pub const ENCODED_SIZE: usize = 24;

/// One axis of a position.
#[derive(Clone, Copy, Debug, PartialEq, Eq, Structural)]
pub struct Axis {
    /// The value, as the bit pattern of an IEEE 754 binary64 number.
    pub value: u64,
}

/// A position in space.
#[derive(Clone, Copy, Debug, PartialEq, Eq, Structural)]
pub struct Position {
    pub x: Axis,
    pub y: Axis,
    pub z: Axis,
}

/// One decoded telemetry sample.
#[derive(Clone, Copy, Debug, PartialEq, Eq, Structural)]
pub struct TelemetryRecord {
    pub pos: Position,
}

/// A field of the record, in wire order.
#[derive(Clone, Copy, Debug, PartialEq, Eq, Structural)]
pub enum Field {
    X,
    Y,
    Z,
}

/// Why a buffer is no record.
#[derive(Clone, Copy, Debug, PartialEq, Eq, Structural)]
pub enum DecodeError {
    /// The buffer does not have the length of a record.
    SchemaMismatch { expected: usize, found: usize },
    /// The field's bytes are not the bit pattern of a finite number.
    MalformedField(Field),
}

/// Whether `bits` is the bit pattern of a finite binary64 number: its eleven
/// exponent bits are not all set.
pub open spec fn is_finite(bits: u64) -> bool {
    (bits >> 52) & 0x7ff != 0x7ff
}

/// The field that starts at byte `8 * index` of `bytes`.
pub open spec fn field_at(bytes: Seq<u8>, index: int) -> u64 {
    spec_u64_from_le_bytes(bytes.subrange(FIELD_SIZE * index, FIELD_SIZE * index + FIELD_SIZE))
}

/// The bytes of a record on the wire.
pub open spec fn encoding(record: TelemetryRecord) -> Seq<u8> {
    spec_u64_to_le_bytes(record.pos.x.value) + spec_u64_to_le_bytes(record.pos.y.value)
        + spec_u64_to_le_bytes(record.pos.z.value)
}

/// What a buffer decodes to. The length is judged first, then the fields in
/// wire order, so the error names the first malformed field.
pub open spec fn decoding(bytes: Seq<u8>) -> Result<TelemetryRecord, DecodeError> {
    if bytes.len() != ENCODED_SIZE {
        Err(DecodeError::SchemaMismatch { expected: ENCODED_SIZE, found: bytes.len() as usize })
    } else if !is_finite(field_at(bytes, 0)) {
        Err(DecodeError::MalformedField(Field::X))
    } else if !is_finite(field_at(bytes, 1)) {
        Err(DecodeError::MalformedField(Field::Y))
    } else if !is_finite(field_at(bytes, 2)) {
        Err(DecodeError::MalformedField(Field::Z))
    } else {
        Ok(
            TelemetryRecord {
                pos: Position {
                    x: Axis { value: field_at(bytes, 0) },
                    y: Axis { value: field_at(bytes, 1) },
                    z: Axis { value: field_at(bytes, 2) },
                },
            },
        )
    }
}

impl Axis {
    /// An axis is valid when its value is a finite number.
    pub open spec fn valid(&self) -> bool {
        is_finite(self.value)
    }

    /// Whether the axis holds a finite number.
    pub fn is_valid(&self) -> (ok: bool)
        ensures
            ok == self.valid(),
    {
        finite(self.value)
    }
}

impl TelemetryRecord {
    /// A record is valid when every axis is.
    pub open spec fn valid(&self) -> bool {
        self.pos.x.valid() && self.pos.y.valid() && self.pos.z.valid()
    }

    /// Whether every axis of the record holds a finite number.
    pub fn is_valid(&self) -> (ok: bool)
        ensures
            ok == self.valid(),
    {
        self.pos.x.is_valid() && self.pos.y.is_valid() && self.pos.z.is_valid()
    }
}

/// The size of an encoded record. It depends on the layout alone.
pub fn encoded_size() -> (size: usize)
    ensures
        size == ENCODED_SIZE,
{
    ENCODED_SIZE
}

fn finite(bits: u64) -> (ok: bool)
    ensures
        ok == is_finite(bits),
{
    (bits >> 52) & 0x7ff != 0x7ff
}

/// Writes a record in its wire layout: a new buffer of the layout's size,
/// with every field at its offset. The bytes of a valid record decode to it.
pub fn encode(record: &TelemetryRecord) -> (bytes: Vec<u8>)
    ensures
        bytes@ == encoding(*record),
        bytes@.len() == ENCODED_SIZE,
        record.valid() ==> decoding(bytes@) == Ok::<TelemetryRecord, DecodeError>(*record),
{
    proof {
        lemma_auto_spec_u64_to_from_le_bytes();
        if record.valid() {
            lemma_decode_inverts_encode(*record);
        }
    }
    let mut bytes: Vec<u8> = Vec::with_capacity(ENCODED_SIZE);
    let mut x = u64_to_le_bytes(record.pos.x.value);
    let mut y = u64_to_le_bytes(record.pos.y.value);
    let mut z = u64_to_le_bytes(record.pos.z.value);
    bytes.append(&mut x);
    bytes.append(&mut y);
    bytes.append(&mut z);
    bytes
}

fn read_field(bytes: &[u8], index: usize) -> (value: u64)
    requires
        bytes@.len() == ENCODED_SIZE,
        index < 3,
    ensures
        value == field_at(bytes@, index as int),
{
    let start: usize = FIELD_SIZE * index;
    u64_from_le_bytes(slice_subrange(bytes, start, start + FIELD_SIZE))
}

/// Reads a record from a buffer that holds exactly one. A buffer of another
/// length is refused before any field is looked at; a field that is no finite
/// number is refused by name. What is returned encodes to the same bytes.
pub fn decode(bytes: &[u8]) -> (result: Result<TelemetryRecord, DecodeError>)
    ensures
        result == decoding(bytes@),
        bytes@.len() != ENCODED_SIZE ==> result == Err::<TelemetryRecord, DecodeError>(
            DecodeError::SchemaMismatch { expected: ENCODED_SIZE, found: bytes.len() },
        ),
        result is Ok ==> result->Ok_0.valid() && encoding(result->Ok_0) == bytes@,
{
    if bytes.len() != ENCODED_SIZE {
        return Err(DecodeError::SchemaMismatch { expected: ENCODED_SIZE, found: bytes.len() });
    }
    let x = read_field(bytes, 0);
    if !finite(x) {
        return Err(DecodeError::MalformedField(Field::X));
    }
    let y = read_field(bytes, 1);
    if !finite(y) {
        return Err(DecodeError::MalformedField(Field::Y));
    }
    let z = read_field(bytes, 2);
    if !finite(z) {
        return Err(DecodeError::MalformedField(Field::Z));
    }
    proof {
        lemma_encode_inverts_decode(bytes@);
    }
    Ok(TelemetryRecord { pos: Position { x: Axis { value: x }, y: Axis { value: y }, z: Axis { value: z } } })
}

/// Every encoding has the size of the layout, whatever the record holds.
pub proof fn lemma_encoding_size(record: TelemetryRecord)
    ensures
        encoding(record).len() == ENCODED_SIZE,
{
    lemma_auto_spec_u64_to_from_le_bytes();
}

/// The fields of an encoding are the record's values.
pub proof fn lemma_fields_of_encoding(record: TelemetryRecord)
    ensures
        field_at(encoding(record), 0) == record.pos.x.value,
        field_at(encoding(record), 1) == record.pos.y.value,
        field_at(encoding(record), 2) == record.pos.z.value,
{
    lemma_auto_spec_u64_to_from_le_bytes();
    let x = spec_u64_to_le_bytes(record.pos.x.value);
    let y = spec_u64_to_le_bytes(record.pos.y.value);
    let z = spec_u64_to_le_bytes(record.pos.z.value);
    let bytes = encoding(record);
    assert(bytes.subrange(0, 8) =~= x);
    assert(bytes.subrange(8, 16) =~= y);
    assert(bytes.subrange(16, 24) =~= z);
}

/// Decoding undoes encoding: a valid record comes back from its own bytes.
pub proof fn lemma_decode_inverts_encode(record: TelemetryRecord)
    requires
        record.valid(),
    ensures
        decoding(encoding(record)) == Ok::<TelemetryRecord, DecodeError>(record),
{
    lemma_encoding_size(record);
    lemma_fields_of_encoding(record);
}

/// Encoding undoes decoding: bytes that decode are the encoding of what they
/// decode to, and that record is valid.
pub proof fn lemma_encode_inverts_decode(bytes: Seq<u8>)
    requires
        decoding(bytes) is Ok,
    ensures
        decoding(bytes)->Ok_0.valid(),
        encoding(decoding(bytes)->Ok_0) == bytes,
{
    lemma_auto_spec_u64_to_from_le_bytes();
    let x = bytes.subrange(0, 8);
    let y = bytes.subrange(8, 16);
    let z = bytes.subrange(16, 24);
    assert(spec_u64_to_le_bytes(spec_u64_from_le_bytes(x)) == x);
    assert(spec_u64_to_le_bytes(spec_u64_from_le_bytes(y)) == y);
    assert(spec_u64_to_le_bytes(spec_u64_from_le_bytes(z)) == z);
    assert(x + y + z =~= bytes);
}

/// A buffer of any other length than the layout's is refused, and the error
/// says which length was found.
pub proof fn lemma_wrong_length_is_refused(bytes: Seq<u8>)
    requires
        bytes.len() != ENCODED_SIZE,
    ensures
        decoding(bytes) == Err::<TelemetryRecord, DecodeError>(
            DecodeError::SchemaMismatch { expected: ENCODED_SIZE, found: bytes.len() as usize },
        ),
{
}

/// A record that is not valid does not survive the round trip: its encoding is
/// refused as malformed.
pub proof fn lemma_invalid_record_is_refused(record: TelemetryRecord)
    requires
        !record.valid(),
    ensures
        decoding(encoding(record)) is Err,
        decoding(encoding(record))->Err_0 is MalformedField,
{
    lemma_encoding_size(record);
    lemma_fields_of_encoding(record);
}

} // verus!
