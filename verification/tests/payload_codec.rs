use lz4_flex::block::DecompressError;
use usb_screen::codec::{
    check_decoded, decode_payload, encode_payload, DecodeError, EncodeError, MAX_PAYLOAD_BYTES,
};
use usb_screen::protocol::MAX_FRAME_BYTES;

#[test]
fn payload_round_trip() {
    let raw: Vec<u8> = (0..1000u32).map(|i| (i % 7) as u8).collect();
    let payload = encode_payload(&raw).unwrap();
    assert_eq!(&payload[..4], &1000u32.to_le_bytes());
    assert_ne!(payload, raw);
    assert_eq!(decode_payload(&payload), Ok(raw));
}

#[test]
fn repetitive_pixels_compress() {
    let raw = vec![0x1Fu8; 40960];
    let payload = encode_payload(&raw).unwrap();
    assert!(payload.len() < 1000);
    assert_eq!(decode_payload(&payload), Ok(raw));
}

#[test]
fn empty_image_round_trips() {
    let payload = encode_payload(&[]).unwrap();
    assert_eq!(&payload[..4], &[0, 0, 0, 0]);
    assert_eq!(decode_payload(&payload), Ok(vec![]));
}

#[test]
fn largest_frame_round_trips() {
    let raw: Vec<u8> = (0..MAX_FRAME_BYTES).map(|i| (i * 31 % 251) as u8).collect();
    let payload = encode_payload(&raw).unwrap();
    assert!(payload.len() <= MAX_PAYLOAD_BYTES);
    assert_eq!(decode_payload(&payload), Ok(raw));
}

#[test]
fn oversized_image_is_refused() {
    let raw = vec![0u8; MAX_FRAME_BYTES + 1];
    assert_eq!(encode_payload(&raw), Err(EncodeError::TooLarge));
}

#[test]
fn decoding_twice_gives_the_same_bytes() {
    let raw: Vec<u8> = (0..5000u32).map(|i| (i * i % 256) as u8).collect();
    let payload = encode_payload(&raw).unwrap();
    let first = decode_payload(&payload);
    let second = decode_payload(&payload);
    assert_eq!(first, second);
    assert_eq!(first, Ok(raw));
}

#[test]
fn short_payload_is_truncated() {
    assert_eq!(decode_payload(&[]), Err(DecodeError::Truncated));
    assert_eq!(decode_payload(&[1, 2, 3]), Err(DecodeError::Truncated));
}

#[test]
fn declared_length_over_the_bound_is_too_large() {
    let declared = (MAX_FRAME_BYTES as u32 + 1).to_le_bytes();
    let payload = [declared[0], declared[1], declared[2], declared[3], 0x00];
    assert_eq!(decode_payload(&payload), Err(DecodeError::TooLarge));
    assert_eq!(decode_payload(&[0xFF, 0xFF, 0xFF, 0xFF, 0x00]), Err(DecodeError::TooLarge));
}

#[test]
fn payload_over_the_bound_is_too_large() {
    let mut payload = vec![0u8; MAX_PAYLOAD_BYTES + 1];
    payload[0] = 4;
    assert_eq!(decode_payload(&payload), Err(DecodeError::TooLarge));
}

#[test]
fn cut_payload_is_dropped() {
    let raw: Vec<u8> = (0..3000u32).map(|i| (i % 251) as u8).collect();
    let payload = encode_payload(&raw).unwrap();
    let cut = &payload[..payload.len() / 2];
    assert!(decode_payload(cut).is_err());
}

#[test]
fn block_without_its_bytes_is_corrupt() {
    // Declares four bytes; the block announces four literals and holds none.
    assert_eq!(decode_payload(&[4, 0, 0, 0, 0x40]), Err(DecodeError::Corrupt));
    // Declares four bytes and holds no block at all.
    assert_eq!(decode_payload(&[4, 0, 0, 0]), Err(DecodeError::Corrupt));
}

#[test]
fn shorter_expansion_than_declared_is_a_mismatch() {
    // Declares five bytes; the block holds three literals.
    assert_eq!(
        decode_payload(&[5, 0, 0, 0, 0x30, b'a', b'4', b'9']),
        Err(DecodeError::LengthMismatch)
    );
    // The same block under the right length.
    assert_eq!(decode_payload(&[3, 0, 0, 0, 0x30, b'a', b'4', b'9']), Ok(b"a49".to_vec()));
}

#[test]
fn longer_expansion_than_declared_is_dropped() {
    assert!(decode_payload(&[2, 0, 0, 0, 0x30, b'a', b'4', b'9']).is_err());
}

#[test]
fn decoder_answer_is_judged_against_the_count() {
    assert_eq!(check_decoded(3, Ok(vec![1, 2, 3])), Ok(vec![1, 2, 3]));
    assert_eq!(check_decoded(0, Ok(vec![])), Ok(vec![]));
    assert_eq!(check_decoded(4, Ok(vec![1, 2, 3])), Err(DecodeError::LengthMismatch));
    assert_eq!(check_decoded(2, Ok(vec![1, 2, 3])), Err(DecodeError::LengthMismatch));
    assert_eq!(
        check_decoded(3, Err(DecompressError::ExpectedAnotherByte)),
        Err(DecodeError::Corrupt)
    );
    assert_eq!(
        check_decoded(3, Err(DecompressError::OffsetOutOfBounds)),
        Err(DecodeError::Corrupt)
    );
}
