use fs3000::RawData;
use fs3000::decode;
use fs3000::frame_bytes;
use fs3000::get_counts;
use fs3000::verify_checksum;

#[test]
fn decode_is_positional() {
    let frame = decode(&[0x12, 0x03, 0x8D, 0x01, 0x02]);
    assert_eq!(frame.checksum, 0x12);
    assert_eq!(frame.data_high, 0x03);
    assert_eq!(frame.data_low, 0x8D);
    assert_eq!(frame.generic_checksum_1, 0x01);
    assert_eq!(frame.generic_checksum_2, 0x02);
}

#[test]
fn count_is_big_endian_of_bytes_1_and_2() {
    let frame = decode(&[0x00, 0x03, 0x8D, 0x00, 0x00]);
    assert_eq!(get_counts(frame), 0x038D);
    assert_eq!(get_counts(decode(&[0xFF, 0x03, 0x8D, 0xAA, 0x55])), 0x038D);
    assert_eq!(get_counts(decode(&[0x00, 0x00, 0x00, 0x00, 0x00])), 0);
    assert_eq!(get_counts(decode(&[0x00, 0xFF, 0xFF, 0x00, 0x00])), 0xFFFF);
}

#[test]
fn frame_bytes_round_trips_through_decode() {
    let frame = RawData {
        checksum: 0x12,
        data_high: 0x03,
        data_low: 0x8D,
        generic_checksum_1: 0x01,
        generic_checksum_2: 0x02,
    };
    let bytes = frame_bytes(&frame);
    assert_eq!(bytes, [0x12, 0x03, 0x8D, 0x01, 0x02]);
    assert_eq!(decode(&bytes), frame);
}

#[test]
fn checksum_accepts_a_clean_frame() {
    // 0x03 + 0x8D + 0x00 + 0x00 = 0x90; checksum 0x70 makes the sum 0x100.
    let frame = decode(&[0x70, 0x03, 0x8D, 0x00, 0x00]);
    assert!(verify_checksum(&frame));
    let all_zero = decode(&[0x00, 0x00, 0x00, 0x00, 0x00]);
    assert!(verify_checksum(&all_zero));
}

#[test]
fn checksum_rejects_a_corrupted_frame() {
    let frame = decode(&[0x71, 0x03, 0x8D, 0x00, 0x00]);
    assert!(!verify_checksum(&frame));
    let off_by_one = decode(&[0x70, 0x03, 0x8E, 0x00, 0x00]);
    assert!(!verify_checksum(&off_by_one));
}

#[test]
fn complement_checksum_always_passes() {
    let samples: [[u8; 4]; 5] = [
        [0x00, 0x00, 0x00, 0x00],
        [0x03, 0x8D, 0x00, 0x00],
        [0xFF, 0xFF, 0xFF, 0xFF],
        [0x10, 0x20, 0x30, 0x40],
        [0xAB, 0xCD, 0xEF, 0x01],
    ];
    for bytes in samples {
        let sum = bytes[0]
            .wrapping_add(bytes[1])
            .wrapping_add(bytes[2])
            .wrapping_add(bytes[3]);
        let checksum = 0u8.wrapping_sub(sum);
        let frame = decode(&[checksum, bytes[0], bytes[1], bytes[2], bytes[3]]);
        assert!(verify_checksum(&frame));
    }
}
