use imu_telemetry::checksum::{check_sum, crc16_arc, crc_trailer};
use imu_telemetry::codec::{hex_to_ieee, ieee_to_hex};

#[test]
fn crc16_arc_check_value() {
    // Check value over the ASCII digits 1..9 for the 0xA001-reflected
    // polynomial with initial register 0xFFFF.
    let data: Vec<u8> = b"123456789".to_vec();
    assert_eq!(crc16_arc(&data), 0x4B37);
}

#[test]
fn crc16_arc_empty_is_initial() {
    let data: Vec<u8> = Vec::new();
    assert_eq!(crc16_arc(&data), 0xFFFF);
}

#[test]
fn crc_trailer_is_low_byte_first() {
    let data: Vec<u8> = b"123456789".to_vec();
    let trailer = crc_trailer(&data);
    assert_eq!(trailer, vec![0x37, 0x4B]);
}

#[test]
fn check_sum_accepts_correct_trailer() {
    let body: Vec<u8> = vec![20, 0, 1, 2, 3, 4, 5, 255];
    let trailer = crc_trailer(&body);
    assert!(check_sum(&body, &trailer));
}

#[test]
fn check_sum_rejects_corrupted_body() {
    let body: Vec<u8> = vec![20, 0, 1, 2, 3, 4, 5, 255];
    let trailer = crc_trailer(&body);
    for i in 0..body.len() {
        for bit in 0..8u8 {
            let mut corrupt = body.clone();
            corrupt[i] ^= 1 << bit;
            assert!(!check_sum(&corrupt, &trailer));
        }
    }
}

#[test]
fn hex_to_ieee_decodes_little_endian_fields() {
    // 1.0f32 is 0x3F800000; on the wire it is little-endian per field.
    let words = hex_to_ieee(vec![0x00, 0x00, 0x80, 0x3F]);
    assert_eq!(words, vec![1.0f32.to_bits()]);
}

#[test]
fn hex_to_ieee_keeps_field_order() {
    let mut bytes = 1.0f32.to_le_bytes().to_vec();
    bytes.extend_from_slice(&(-2.5f32).to_le_bytes());
    bytes.extend_from_slice(&3.25f32.to_le_bytes());
    let words = hex_to_ieee(bytes);
    let floats: Vec<f32> = words.iter().map(|w| f32::from_bits(*w)).collect();
    assert_eq!(floats, vec![1.0, -2.5, 3.25]);
}

#[test]
fn hex_to_ieee_matches_double_reversal_reference() {
    // The device convention spelled out directly: reverse all bytes, read
    // 4-byte groups big-endian, reverse the fields.
    let bytes: Vec<u8> = vec![1, 2, 3, 4, 5, 6, 7, 8, 9, 10, 11, 12];
    let mut reversed = bytes.clone();
    reversed.reverse();
    let mut reference: Vec<f32> = reversed
        .chunks(4)
        .map(|c| f32::from_be_bytes([c[0], c[1], c[2], c[3]]))
        .collect();
    reference.reverse();
    let words = hex_to_ieee(bytes);
    let floats: Vec<f32> = words.iter().map(|w| f32::from_bits(*w)).collect();
    assert_eq!(floats.len(), reference.len());
    for i in 0..floats.len() {
        assert_eq!(floats[i].to_bits(), reference[i].to_bits());
    }
}

#[test]
fn float_double_reversal_round_trip() {
    let originals: Vec<f32> = vec![
        0.0,
        -0.0,
        1.0,
        -2.5,
        3.14159265,
        f32::MIN_POSITIVE,
        f32::MAX,
        -1.0e-38,
        9.81,
    ];
    let words: Vec<u32> = originals.iter().map(|f| f.to_bits()).collect();
    let bytes = ieee_to_hex(&words);
    assert_eq!(bytes.len(), 4 * originals.len());
    let decoded = hex_to_ieee(bytes);
    assert_eq!(decoded.len(), originals.len());
    for i in 0..originals.len() {
        assert_eq!(f32::from_bits(decoded[i]).to_bits(), originals[i].to_bits());
    }
}
