//! Fixed-layout record crossings: the pinned wire image, exact-size
//! checking, and encode-time capacity enforcement.

use hostcall::errors::TrapError;
use hostcall::fixed::{decode_record_fixed, encode_record_fixed, CD_PAD, CD_WIRE_SIZE};
use hostcall::model::{CD, CD_CAPACITY};

#[test]
fn fixed_round_trip() {
    let rec = CD::from(1234, "hello world");
    let bytes = encode_record_fixed(&rec).unwrap();
    assert_eq!(bytes.len(), CD_WIRE_SIZE);
    let back = decode_record_fixed(&bytes).unwrap();
    assert_eq!(back.c, 1234);
    assert_eq!(back.d, "hello world");
}

#[test]
fn fixed_round_trip_negative_and_empty() {
    let rec = CD { c: -7, d: String::new() };
    let bytes = encode_record_fixed(&rec).unwrap();
    let back = decode_record_fixed(&bytes).unwrap();
    assert_eq!(back.c, -7);
    assert_eq!(back.d, "");
    let rec = CD { c: i32::MIN, d: "x".to_string() };
    let back = decode_record_fixed(&encode_record_fixed(&rec).unwrap()).unwrap();
    assert_eq!((back.c, back.d.as_str()), (i32::MIN, "x"));
}

#[test]
fn fixed_round_trip_at_capacity() {
    let d = "a".repeat(CD_CAPACITY);
    let rec = CD { c: 5, d: d.clone() };
    let bytes = encode_record_fixed(&rec).unwrap();
    assert_eq!(bytes.len(), CD_WIRE_SIZE);
    let back = decode_record_fixed(&bytes).unwrap();
    assert_eq!(back.d, d);
}

#[test]
fn fixed_round_trip_multibyte_text() {
    let rec = CD { c: 0, d: "gr\u{fc}\u{df}e \u{2713}".to_string() };
    let back = decode_record_fixed(&encode_record_fixed(&rec).unwrap()).unwrap();
    assert_eq!(back.d, rec.d);
}

#[test]
fn over_capacity_fails_at_encode_time() {
    let rec = CD { c: 1, d: "b".repeat(CD_CAPACITY + 1) };
    assert_eq!(encode_record_fixed(&rec), Err(TrapError::SizeMismatch));
    // Capacity counts bytes, not characters.
    let rec = CD { c: 1, d: "\u{e9}".repeat(17) };
    assert_eq!(encode_record_fixed(&rec), Err(TrapError::SizeMismatch));
}

#[test]
fn wrong_region_length_fails_at_decode_time() {
    let bytes = encode_record_fixed(&CD::from(9, "ok")).unwrap();
    assert_eq!(decode_record_fixed(&bytes[..CD_WIRE_SIZE - 1]), Err(TrapError::SizeMismatch));
    let mut long = bytes.clone();
    long.push(0);
    assert_eq!(decode_record_fixed(&long), Err(TrapError::SizeMismatch));
    assert_eq!(decode_record_fixed(&[]), Err(TrapError::SizeMismatch));
}

#[test]
fn invalid_text_in_image_is_rejected() {
    let mut bytes = encode_record_fixed(&CD::from(9, "ok")).unwrap();
    bytes[4] = 0x80;
    assert_eq!(decode_record_fixed(&bytes), Err(TrapError::InvalidUtf8));
}

#[test]
fn zero_bytes_inside_the_text_round_trip() {
    // The padding byte is one UTF-8 never uses, so a zero byte is ordinary
    // text and survives the image exactly, wherever it sits.
    for d in ["ab\u{0}cd", "\u{0}", "ab\u{0}", "\u{0}\u{0}\u{0}"] {
        let rec = CD { c: 3, d: d.to_string() };
        let bytes = encode_record_fixed(&rec).unwrap();
        let back = decode_record_fixed(&bytes).unwrap();
        assert_eq!(back.d, d);
    }
}

#[test]
fn wire_image_is_pinned() {
    // 4 little-endian bytes of c, then the text, then padding bytes.
    let bytes = encode_record_fixed(&CD::from(0x0102_0304, "ab")).unwrap();
    assert_eq!(&bytes[..4], &[0x04, 0x03, 0x02, 0x01]);
    assert_eq!(&bytes[4..6], b"ab");
    assert!(bytes[6..].iter().all(|b| *b == CD_PAD));
}
