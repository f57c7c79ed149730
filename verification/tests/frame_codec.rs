use penumbra::bigend::{u16_from_be_bytes, u16_to_be_bytes, u32_from_be_bytes, u32_to_be_bytes};
use penumbra::checksum;
use penumbra::error::MtkError;
use penumbra::frame::{decode_frame, encode_frame, encode_frame_header, status_of};
use penumbra::utilities::{bytes_equal, find_pattern};

#[test]
fn frame_round_trip_concrete() {
    let payload = [0xDEu8, 0xAD, 0xBE, 0xEF, 0x42];
    let framed = encode_frame(1, &payload);
    assert_eq!(&framed[0..4], &[0xFE, 0xEE, 0xEE, 0xFE]);
    assert_eq!(&framed[4..8], &1u32.to_le_bytes());
    assert_eq!(&framed[8..12], &5u32.to_le_bytes());
    let (dtype, len, decoded) = decode_frame(&framed).unwrap();
    assert_eq!(dtype, 1);
    assert_eq!(len, 5);
    assert_eq!(decoded, payload.to_vec());
}

#[test]
fn frame_decode_rejects_bad_magic() {
    let mut framed = encode_frame(1, &[1, 2, 3]);
    framed[0] = 0x00;
    assert_eq!(decode_frame(&framed), Err(MtkError::Framing));
}

#[test]
fn frame_decode_rejects_bad_length() {
    let header = encode_frame_header(0xFEEEEEFE, 1, 7);
    // Announces 7 payload bytes but carries none.
    assert_eq!(decode_frame(&header), Err(MtkError::Framing));
}

#[test]
fn frame_decode_rejects_short_input() {
    assert_eq!(decode_frame(&[0xFE, 0xEE, 0xEE]), Err(MtkError::Io));
}

#[test]
fn checksum_values() {
    assert_eq!(checksum(&[]), 0);
    assert_eq!(checksum(&[1, 2, 3]), 6);
    assert_eq!(checksum(&[0xFF; 2]), 0x1FE);
    // 258 * 255 = 65790 = 0x100FE; modulo 0x10000 leaves 0xFE.
    assert_eq!(checksum(&[0xFF; 258]), 0xFE);
}

#[test]
fn status_of_widths() {
    // Two bytes: little-endian u16.
    assert_eq!(status_of(&vec![0x34, 0x12]), 0x1234);
    // Four bytes: little-endian u32, with the magic counting as 0.
    assert_eq!(status_of(&vec![0x78, 0x56, 0x34, 0x12]), 0x12345678);
    assert_eq!(status_of(&vec![0xFE, 0xEE, 0xEE, 0xFE]), 0);
    // Longer payloads: first four bytes.
    assert_eq!(status_of(&vec![0x01, 0x00, 0x00, 0x00, 0xAA]), 1);
    // A lone byte.
    assert_eq!(status_of(&vec![0x07]), 7);
    // Empty: the failure sentinel.
    assert_eq!(status_of(&Vec::new()), 0xFFFFFFFF);
}

#[test]
fn find_pattern_basics() {
    let data = [1u8, 2, 3, 1, 2, 3, 4];
    assert_eq!(find_pattern(&data, &[1, 2, 3], 0), Some(0));
    assert_eq!(find_pattern(&data, &[1, 2, 3], 1), Some(3));
    assert_eq!(find_pattern(&data, &[3, 4], 0), Some(5));
    assert_eq!(find_pattern(&data, &[9], 0), None);
    assert_eq!(find_pattern(&data, &[1, 2, 3], 7), None);
    assert_eq!(find_pattern(&[], &[1], 0), None);
}

#[test]
fn bytes_equal_basics() {
    assert!(bytes_equal(&[1, 2], &[1, 2]));
    assert!(!bytes_equal(&[1, 2], &[1, 3]));
    assert!(!bytes_equal(&[1, 2], &[1, 2, 3]));
    assert!(bytes_equal(&[], &[]));
}

#[test]
fn big_endian_round_trips() {
    assert_eq!(u16_to_be_bytes(0x1234), vec![0x12, 0x34]);
    assert_eq!(u16_from_be_bytes(&[0x12, 0x34]), 0x1234);
    assert_eq!(u32_to_be_bytes(0x00200000), vec![0x00, 0x20, 0x00, 0x00]);
    assert_eq!(u32_from_be_bytes(&[0xDE, 0xAD, 0xBE, 0xEF]), 0xDEADBEEF);
    assert_eq!(u32_from_be_bytes(&u32_to_be_bytes(0xCAFEBABE)), 0xCAFEBABE);
}
