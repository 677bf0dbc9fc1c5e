use telemetry_relay::codec::{
    decode, encode, encoded_size, Axis, DecodeError, Field, Position, TelemetryRecord,
    ENCODED_SIZE, FIELD_SIZE,
};

fn record(x: f64, y: f64, z: f64) -> TelemetryRecord {
    TelemetryRecord {
        pos: Position {
            x: Axis { value: x.to_bits() },
            y: Axis { value: y.to_bits() },
            z: Axis { value: z.to_bits() },
        },
    }
}

#[test]
fn encoded_size_is_twenty_four_bytes() {
    assert_eq!(encoded_size(), 24);
    assert_eq!(ENCODED_SIZE, 24);
    assert_eq!(FIELD_SIZE, 8);
}

#[test]
fn encode_writes_each_field_little_endian_at_its_offset() {
    let bytes = encode(&record(1.0, 0.5, 0.25));
    assert_eq!(
        bytes,
        vec![
            0, 0, 0, 0, 0, 0, 0xf0, 0x3f, // x = 1.0
            0, 0, 0, 0, 0, 0, 0xe0, 0x3f, // y = 0.5
            0, 0, 0, 0, 0, 0, 0xd0, 0x3f, // z = 0.25
        ]
    );
}

#[test]
fn encode_matches_the_bytes_of_the_numbers() {
    let (x, y, z) = (-12.75f64, 3.0e-9f64, 6.02214076e23f64);
    let bytes = encode(&record(x, y, z));
    let mut expected = Vec::new();
    expected.extend_from_slice(&x.to_le_bytes());
    expected.extend_from_slice(&y.to_le_bytes());
    expected.extend_from_slice(&z.to_le_bytes());
    assert_eq!(bytes, expected);
}

#[test]
fn encode_has_the_fixed_size_whatever_the_values() {
    for r in [
        record(0.0, 0.0, 0.0),
        record(-0.0, 1.0e300, -1.0e-300),
        record(f64::MAX, f64::MIN, f64::MIN_POSITIVE),
        record(f64::NAN, f64::INFINITY, f64::NEG_INFINITY),
    ] {
        assert_eq!(encode(&r).len(), encoded_size());
    }
}

#[test]
fn decode_inverts_encode() {
    for r in [
        record(1.0, 0.5, 0.25),
        record(0.0, -0.0, 5e-324),
        record(f64::MAX, f64::MIN, f64::MIN_POSITIVE),
        record(-273.15, 9.80665, 299_792_458.0),
    ] {
        assert!(r.is_valid());
        assert_eq!(decode(&encode(&r)), Ok(r));
    }
}

#[test]
fn decode_reads_the_fields_in_wire_order() {
    let mut bytes = Vec::new();
    bytes.extend_from_slice(&1u64.to_le_bytes());
    bytes.extend_from_slice(&0x0102_0304_0506_0708u64.to_le_bytes());
    bytes.extend_from_slice(&0x7fef_ffff_ffff_ffffu64.to_le_bytes());
    let decoded = decode(&bytes).unwrap();
    assert_eq!(decoded.pos.x.value, 1);
    assert_eq!(decoded.pos.y.value, 0x0102_0304_0506_0708);
    assert_eq!(decoded.pos.z.value, 0x7fef_ffff_ffff_ffff);
    assert_eq!(f64::from_bits(decoded.pos.z.value), f64::MAX);
}

#[test]
fn encode_inverts_decode() {
    let bytes: Vec<u8> = (1u8..=24).collect();
    let decoded = decode(&bytes).unwrap();
    assert!(decoded.is_valid());
    assert_eq!(encode(&decoded), bytes);
}

#[test]
fn decode_rejects_an_empty_buffer() {
    assert_eq!(decode(&[]), Err(DecodeError::SchemaMismatch { expected: 24, found: 0 }));
}

#[test]
fn decode_rejects_a_buffer_one_byte_short() {
    let bytes = vec![0u8; 23];
    assert_eq!(decode(&bytes), Err(DecodeError::SchemaMismatch { expected: 24, found: 23 }));
}

#[test]
fn decode_rejects_a_buffer_one_byte_long() {
    let mut bytes = encode(&record(1.0, 0.5, 0.25));
    bytes.push(0);
    assert_eq!(decode(&bytes), Err(DecodeError::SchemaMismatch { expected: 24, found: 25 }));
}

#[test]
fn decode_rejects_every_other_length() {
    for len in 0usize..100 {
        let bytes = vec![0u8; len];
        if len == 24 {
            assert_eq!(decode(&bytes), Ok(record(0.0, 0.0, 0.0)));
        } else {
            assert_eq!(
                decode(&bytes),
                Err(DecodeError::SchemaMismatch { expected: 24, found: len })
            );
        }
    }
}

#[test]
fn decode_judges_the_length_before_the_fields() {
    let mut bytes = encode(&record(f64::NAN, 0.0, 0.0));
    bytes.truncate(16);
    assert_eq!(decode(&bytes), Err(DecodeError::SchemaMismatch { expected: 24, found: 16 }));
}

#[test]
fn decode_rejects_a_nan() {
    let bytes = encode(&record(f64::NAN, 0.5, 0.25));
    assert_eq!(decode(&bytes), Err(DecodeError::MalformedField(Field::X)));
}

#[test]
fn decode_rejects_an_infinity() {
    let bytes = encode(&record(1.0, f64::INFINITY, 0.25));
    assert_eq!(decode(&bytes), Err(DecodeError::MalformedField(Field::Y)));
}

#[test]
fn decode_rejects_a_negative_infinity() {
    let bytes = encode(&record(1.0, 0.5, f64::NEG_INFINITY));
    assert_eq!(decode(&bytes), Err(DecodeError::MalformedField(Field::Z)));
}

#[test]
fn decode_names_the_first_malformed_field() {
    let bytes = encode(&record(1.0, f64::NAN, f64::NAN));
    assert_eq!(decode(&bytes), Err(DecodeError::MalformedField(Field::Y)));
    let bytes = encode(&record(f64::INFINITY, f64::NAN, f64::NAN));
    assert_eq!(decode(&bytes), Err(DecodeError::MalformedField(Field::X)));
}

#[test]
fn decode_accepts_the_largest_finite_numbers() {
    let r = record(f64::MAX, f64::MIN, -f64::MIN_POSITIVE);
    assert_eq!(decode(&encode(&r)), Ok(r));
}

#[test]
fn validity_is_finiteness() {
    assert!(Axis { value: 0 }.is_valid());
    assert!(Axis { value: 0x7fef_ffff_ffff_ffff }.is_valid());
    assert!(Axis { value: 0xffef_ffff_ffff_ffff }.is_valid());
    assert!(!Axis { value: 0x7ff0_0000_0000_0000 }.is_valid());
    assert!(!Axis { value: 0xfff0_0000_0000_0000 }.is_valid());
    assert!(!Axis { value: 0x7ff8_0000_0000_0000 }.is_valid());
    assert!(!Axis { value: u64::MAX }.is_valid());
    for v in [0.0f64, -1.5, 1.0e308, f64::NAN, f64::INFINITY, f64::NEG_INFINITY] {
        assert_eq!(Axis { value: v.to_bits() }.is_valid(), v.is_finite());
    }
    assert!(record(1.0, 2.0, 3.0).is_valid());
    assert!(!record(1.0, 2.0, f64::NAN).is_valid());
}

#[test]
fn an_invalid_record_does_not_round_trip() {
    let r = record(1.0, f64::NAN, 3.0);
    assert_eq!(decode(&encode(&r)), Err(DecodeError::MalformedField(Field::Y)));
}
