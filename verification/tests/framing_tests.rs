use ethersync_web::framing::{decode_frame, encode_frame, FrameError};
use ethersync_web::wire::read_u32_be;

fn round_trip(payload: Vec<u8>) {
    let frame = encode_frame(&payload).expect("encoding fits");
    assert_eq!(frame.len(), payload.len() + 4);
    let (decoded, next) = decode_frame(&frame, 0).expect("decodes");
    assert_eq!(decoded, payload);
    assert_eq!(next, frame.len());
}

#[test]
fn frame_round_trip_empty() {
    round_trip(Vec::new());
}

#[test]
fn frame_round_trip_single_byte() {
    round_trip(vec![0xabu8]);
}

#[test]
fn frame_round_trip_65535_bytes() {
    let payload: Vec<u8> = (0..65535u32).map(|i| (i % 251) as u8).collect();
    round_trip(payload);
}

#[test]
fn frame_header_is_big_endian_length() {
    let frame = encode_frame(&vec![1u8, 2, 3, 4, 5]).unwrap();
    assert_eq!(&frame[0..4], &[0, 0, 0, 5]);
    assert_eq!(read_u32_be(&frame, 0), 5);
}

#[test]
fn truncated_frame_is_an_error_not_a_default() {
    let frame = encode_frame(&vec![9u8, 8, 7]).unwrap();
    for cut in 0..frame.len() {
        let prefix: Vec<u8> = frame[..cut].to_vec();
        assert_eq!(decode_frame(&prefix, 0), Err(FrameError::Incomplete));
    }
}

#[test]
fn short_header_is_an_error() {
    assert_eq!(decode_frame(&vec![0u8, 0, 0], 0), Err(FrameError::Incomplete));
}

#[test]
fn frames_decode_in_sequence() {
    let mut stream = encode_frame(&vec![1u8]).unwrap();
    stream.extend(encode_frame(&vec![2u8, 2]).unwrap());
    let (first, next) = decode_frame(&stream, 0).unwrap();
    assert_eq!(first, vec![1u8]);
    let (second, end) = decode_frame(&stream, next).unwrap();
    assert_eq!(second, vec![2u8, 2]);
    assert_eq!(end, stream.len());
}
