//! Text crossings: round trips for valid UTF-8 and outright rejection of
//! malformed byte sequences.

use hostcall::errors::TrapError;
use hostcall::text::{decode_text, encode_text, validate_utf8};

#[test]
fn text_round_trip_ascii() {
    let s = "abcd 1234";
    let bytes = encode_text(s);
    assert_eq!(bytes, s.as_bytes().to_vec());
    assert_eq!(decode_text(&bytes).unwrap(), s);
}

#[test]
fn text_round_trip_multibyte() {
    for s in ["h\u{e9}llo \u{2713}", "\u{65e5}\u{672c}\u{8a9e}", "a\u{10348}b", "\u{0}"] {
        let bytes = encode_text(s);
        assert_eq!(decode_text(&bytes).unwrap(), s);
    }
}

#[test]
fn text_round_trip_empty() {
    let bytes = encode_text("");
    assert_eq!(bytes.len(), 0);
    assert_eq!(decode_text(&bytes).unwrap(), "");
}

#[test]
fn lone_continuation_byte_is_rejected() {
    assert_eq!(decode_text(&[0x80]), Err(TrapError::InvalidUtf8));
    assert_eq!(decode_text(&[b'a', 0x80, b'b']), Err(TrapError::InvalidUtf8));
}

#[test]
fn truncated_sequences_are_rejected() {
    // A 2-, 3- and 4-byte leader each missing its continuation bytes.
    assert_eq!(decode_text(&[0xc3]), Err(TrapError::InvalidUtf8));
    assert_eq!(decode_text(&[0xe2, 0x82]), Err(TrapError::InvalidUtf8));
    assert_eq!(decode_text(&[0xf0, 0x90, 0x8d]), Err(TrapError::InvalidUtf8));
}

#[test]
fn overlong_encodings_are_rejected() {
    // 2-byte and 3-byte encodings of values that fit fewer bytes.
    assert_eq!(decode_text(&[0xc0, 0x80]), Err(TrapError::InvalidUtf8));
    assert_eq!(decode_text(&[0xc1, 0xbf]), Err(TrapError::InvalidUtf8));
    assert_eq!(decode_text(&[0xe0, 0x80, 0x80]), Err(TrapError::InvalidUtf8));
    assert_eq!(decode_text(&[0xf0, 0x80, 0x80, 0x80]), Err(TrapError::InvalidUtf8));
}

#[test]
fn surrogates_and_too_large_codepoints_are_rejected() {
    // The surrogate range and anything above the last scalar.
    assert_eq!(decode_text(&[0xed, 0xa0, 0x80]), Err(TrapError::InvalidUtf8));
    assert_eq!(decode_text(&[0xed, 0xbf, 0xbf]), Err(TrapError::InvalidUtf8));
    assert_eq!(decode_text(&[0xf4, 0x90, 0x80, 0x80]), Err(TrapError::InvalidUtf8));
    assert_eq!(decode_text(&[0xf5, 0x80, 0x80, 0x80]), Err(TrapError::InvalidUtf8));
}

#[test]
fn validator_agrees_with_std() {
    // Exhaustive over all two-byte sequences: the verified validator and the
    // standard library must draw the same line.
    for a in 0..=255u8 {
        for b in 0..=255u8 {
            let bytes = [a, b];
            assert_eq!(validate_utf8(&bytes), std::str::from_utf8(&bytes).is_ok());
        }
    }
}

#[test]
fn boundary_scalars_decode() {
    // Each encoding-width boundary, both sides.
    for s in ["\u{7f}", "\u{80}", "\u{7ff}", "\u{800}", "\u{d7ff}", "\u{e000}", "\u{ffff}",
        "\u{10000}", "\u{10ffff}"] {
        let bytes = encode_text(s);
        assert_eq!(decode_text(&bytes).unwrap(), s);
    }
}
