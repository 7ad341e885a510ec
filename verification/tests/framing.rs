use imu_telemetry::codec::ieee_to_hex;
use imu_telemetry::frame::{build_frame, FrameDecoder, FrameEvent};

fn frame_from_floats(length: u8, floats: &[f32]) -> Vec<u8> {
    assert_eq!(4 + 4 * floats.len(), length as usize);
    let words: Vec<u32> = floats.iter().map(|f| f.to_bits()).collect();
    let block = ieee_to_hex(&words);
    let mut payload: Vec<u8> = vec![length, 0, 0, 0];
    payload.extend_from_slice(&block);
    build_frame(length, &payload)
}

#[test]
fn built_frame_is_accepted_once() {
    let frame = frame_from_floats(20, &[1.0, 0.5, -0.25, 2.0]);
    assert_eq!(frame.len(), 25);
    assert_eq!(&frame[0..3], &[0xAA, 0x55, 20]);
    let mut dec = FrameDecoder::new();
    let packets = dec.feed(&frame);
    assert_eq!(packets.len(), 1);
    assert_eq!(packets[0].length, 20);
    assert_eq!(packets[0].payload, frame[7..23].to_vec());
}

#[test]
fn any_single_bit_flip_is_rejected() {
    let frame = frame_from_floats(20, &[1.0, 0.5, -0.25, 2.0]);
    for j in 3..frame.len() - 2 {
        for bit in 0..8u8 {
            let mut corrupt = frame.clone();
            corrupt[j] ^= 1 << bit;
            let mut dec = FrameDecoder::new();
            let packets = dec.feed(&corrupt);
            assert_eq!(packets.len(), 0);
        }
    }
}

#[test]
fn checksum_mismatch_is_reported_distinctly() {
    let mut frame = frame_from_floats(20, &[1.0, 0.5, -0.25, 2.0]);
    frame[10] ^= 0x01;
    let mut dec = FrameDecoder::new();
    for i in 0..frame.len() - 1 {
        let ev = dec.push_byte(frame[i]);
        assert!(matches!(ev, FrameEvent::Pending));
    }
    let last = dec.push_byte(frame[frame.len() - 1]);
    assert!(matches!(last, FrameEvent::ChecksumMismatch));
}

#[test]
fn resync_around_noise() {
    let frame = frame_from_floats(44, &[0.0, 1.0, 2.0, 3.0, 4.0, 5.0, 6.0, 7.0, 8.0, 9.0]);
    let mut stream: Vec<u8> = vec![0x01, 0x55, 0x14, 0xFE, 0x00];
    stream.extend_from_slice(&frame);
    stream.extend_from_slice(&[0x42, 0x99, 0x00]);
    let mut dec = FrameDecoder::new();
    let packets = dec.feed(&stream);
    assert_eq!(packets.len(), 1);
    assert_eq!(packets[0].length, 44);
    assert_eq!(packets[0].payload, frame[7..47].to_vec());
}

#[test]
fn bad_start_byte_is_framing_error() {
    let mut dec = FrameDecoder::new();
    let ev = dec.push_byte(0xAB);
    assert!(matches!(ev, FrameEvent::FramingError));
}

#[test]
fn bad_length_byte_discards_buffer() {
    let mut dec = FrameDecoder::new();
    assert!(matches!(dec.push_byte(0xAA), FrameEvent::Pending));
    assert!(matches!(dec.push_byte(0x55), FrameEvent::Pending));
    assert!(matches!(dec.push_byte(21), FrameEvent::FramingError));
}

#[test]
fn bad_second_header_byte_discards_buffer() {
    let mut dec = FrameDecoder::new();
    assert!(matches!(dec.push_byte(0xAA), FrameEvent::Pending));
    assert!(matches!(dec.push_byte(0x56), FrameEvent::Pending));
    assert!(matches!(dec.push_byte(20), FrameEvent::FramingError));
}

#[test]
fn two_frames_back_to_back() {
    let f1 = frame_from_floats(20, &[1.0, 0.0, 0.0, 0.0]);
    let f2 = frame_from_floats(44, &[0.0; 10]);
    let mut stream = f1.clone();
    stream.extend_from_slice(&f2);
    let mut dec = FrameDecoder::new();
    let packets = dec.feed(&stream);
    assert_eq!(packets.len(), 2);
    assert_eq!(packets[0].length, 20);
    assert_eq!(packets[1].length, 44);
}
