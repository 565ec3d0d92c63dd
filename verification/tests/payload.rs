use combustion_probe::payload::{
    calibrate, decode, DecodeError, RawPayload, FIELD_COUNT, FIELD_MAX, PAYLOAD_LEN,
};

/// A payload whose log bounds are zero and whose packed area holds `fields`.
fn payload_with_fields(fields: [u16; 8]) -> Vec<u8> {
    let mut packed: u128 = 0;
    for (i, raw) in fields.iter().enumerate() {
        packed |= (*raw as u128 & 0x1fff) << (13 * i);
    }
    let mut bytes = vec![0u8; 8];
    bytes.extend_from_slice(&packed.to_le_bytes()[..13]);
    bytes
}

fn payload_with_field0(raw: u16) -> Vec<u8> {
    payload_with_fields([raw, 0, 0, 0, 0, 0, 0, 0])
}

#[test]
fn decode_lowest_raw_value() {
    let payload = RawPayload::from_bytes(&payload_with_field0(0)).unwrap();
    assert_eq!(decode(&payload), -2000);
    assert_eq!(decode(&payload) as f32 / 100.0, -20.0);
}

#[test]
fn decode_highest_raw_value() {
    let payload = RawPayload::from_bytes(&payload_with_field0(8191)).unwrap();
    assert_eq!(decode(&payload), 38955);
    assert_eq!(decode(&payload) as f32 / 100.0, 389.55);
}

#[test]
fn decode_follows_the_calibration_formula() {
    for raw in 0..=FIELD_MAX {
        let payload = RawPayload::from_bytes(&payload_with_field0(raw)).unwrap();
        assert_eq!(decode(&payload), raw as i32 * 5 - 2000);
    }
}

#[test]
fn decode_room_temperature() {
    let payload = RawPayload::from_bytes(&payload_with_field0(800)).unwrap();
    assert_eq!(decode(&payload), 2000);
    let payload = RawPayload::from_bytes(&payload_with_field0(801)).unwrap();
    assert_eq!(decode(&payload), 2005);
    let payload = RawPayload::from_bytes(&payload_with_field0(799)).unwrap();
    assert_eq!(decode(&payload), 1995);
}

#[test]
fn decode_reads_byte_8_and_five_bits_of_byte_9() {
    let mut bytes = vec![0xffu8; 21];
    bytes[8] = 0x20;
    bytes[9] = 0xe3;
    let payload = RawPayload::from_bytes(&bytes).unwrap();
    assert_eq!(payload.field(0), 0x0320);
    assert_eq!(decode(&payload), 2000);
}

#[test]
fn decode_ignores_the_other_fields_and_the_log_bounds() {
    let mut bytes = payload_with_fields([1234, 8191, 0, 8191, 17, 4096, 1, 8191]);
    let quiet = RawPayload::from_bytes(&payload_with_field0(1234)).unwrap();
    bytes[0] = 0xaa;
    bytes[7] = 0x55;
    let loud = RawPayload::from_bytes(&bytes).unwrap();
    assert_eq!(decode(&loud), decode(&quiet));
    assert_eq!(decode(&loud), 1234 * 5 - 2000);
}

#[test]
fn decode_twice_gives_the_same() {
    let bytes = payload_with_fields([4242, 1, 2, 3, 4, 5, 6, 7]);
    let first = RawPayload::from_bytes(&bytes).unwrap();
    let second = RawPayload::from_bytes(&bytes).unwrap();
    assert_eq!(decode(&first), decode(&second));
    assert_eq!(decode(&first), decode(&first));
}

#[test]
fn every_field_is_cut_out_of_its_thirteen_bits() {
    let fields = [0x1abc, 0x0001, 0x1fff, 0x0000, 0x1555, 0x0aaa, 0x1000, 0x0fed];
    let payload = RawPayload::from_bytes(&payload_with_fields(fields)).unwrap();
    for i in 0..FIELD_COUNT {
        assert_eq!(payload.field(i), fields[i], "field {}", i);
    }
}

#[test]
fn a_single_field_leaves_its_neighbours_zero() {
    for i in 0..FIELD_COUNT {
        let mut fields = [0u16; 8];
        fields[i] = FIELD_MAX;
        let payload = RawPayload::from_bytes(&payload_with_fields(fields)).unwrap();
        for j in 0..FIELD_COUNT {
            assert_eq!(payload.field(j), if i == j { FIELD_MAX } else { 0 });
        }
    }
}

#[test]
fn fields_start_at_the_least_significant_bit() {
    let mut bytes = vec![0u8; 21];
    bytes[8] = 0x01;
    let payload = RawPayload::from_bytes(&bytes).unwrap();
    assert_eq!(payload.field(0), 1);
    let mut bytes = vec![0u8; 21];
    bytes[9] = 0x20;
    let payload = RawPayload::from_bytes(&bytes).unwrap();
    assert_eq!(payload.field(0), 0);
    assert_eq!(payload.field(1), 1);
    let mut bytes = vec![0u8; 21];
    bytes[20] = 0x80;
    let payload = RawPayload::from_bytes(&bytes).unwrap();
    assert_eq!(payload.field(7), 0x1000);
}

#[test]
fn unpack_reads_the_log_bounds_little_endian() {
    let mut bytes = payload_with_fields([800, 801, 802, 803, 804, 805, 806, 807]);
    bytes[0..4].copy_from_slice(&[0x78, 0x56, 0x34, 0x12]);
    bytes[4..8].copy_from_slice(&[0xff, 0xff, 0xff, 0xff]);
    let status = RawPayload::from_bytes(&bytes).unwrap().unpack();
    assert_eq!(status.min, 0x1234_5678);
    assert_eq!(status.max, u32::MAX);
    assert_eq!(status.raw, [800, 801, 802, 803, 804, 805, 806, 807]);
}

#[test]
fn short_buffer_is_refused() {
    for len in 0..PAYLOAD_LEN {
        let r = RawPayload::from_bytes(&vec![0u8; len]);
        assert!(matches!(r, Err(DecodeError::InvalidPayloadLength)), "length {}", len);
    }
}

#[test]
fn bytes_beyond_the_payload_are_ignored() {
    let mut bytes = payload_with_field0(900);
    bytes.extend_from_slice(&[0xff, 0xff, 0xff]);
    let payload = RawPayload::from_bytes(&bytes).unwrap();
    assert_eq!(payload.as_bytes(), &bytes[..21]);
    assert_eq!(decode(&payload), 2500);
}

#[test]
fn calibrate_is_linear() {
    assert_eq!(calibrate(0), -2000);
    assert_eq!(calibrate(400), 0);
    assert_eq!(calibrate(401), 5);
    assert_eq!(calibrate(8191), 38955);
}
