use happe::frame::{decode_frame, encode_frame, frame_header, frame_length};

#[test]
fn header_is_little_endian() {
    assert_eq!(frame_length(&[0x10, 0x27, 0, 0]), 10000);
    assert_eq!(frame_length(&[0xff, 0xff, 0xff, 0xff]), u32::MAX);
    assert_eq!(frame_header(0x01020304), [4, 3, 2, 1]);
}

#[test]
fn encode_prefixes_length() {
    assert_eq!(encode_frame(&vec![7, 8, 9]), vec![3, 0, 0, 0, 7, 8, 9]);
    assert_eq!(encode_frame(&vec![]), vec![0, 0, 0, 0]);
}

#[test]
fn decode_round_trips_and_rejects_bad_frames() {
    let payload: Vec<u8> = (0..300u32).map(|i| (i % 251) as u8).collect();
    let f = encode_frame(&payload);
    assert_eq!(&f[..4], &[44, 1, 0, 0]);
    assert_eq!(decode_frame(&f), Some(payload));
    assert_eq!(decode_frame(&vec![1, 0, 0]), None);
    assert_eq!(decode_frame(&vec![2, 0, 0, 0, 1]), None);
    assert_eq!(decode_frame(&vec![0, 0, 0, 0, 1]), None);
}
