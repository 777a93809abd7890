//! Self-describing record crossings: round trips, agreement with a stock
//! implementation of the same tagged format, and the malformed-region
//! diagnostics.

use hostcall::errors::{RecordError, TrapError};
use hostcall::model::AB;
use hostcall::record::{decode_record_selfdescribing, encode_record_selfdescribing};

fn ab(a: u32, b: &str) -> AB {
    AB { a, b: b.to_string() }
}

fn round_trip(rec: AB) {
    let bytes = encode_record_selfdescribing(&rec);
    let back = decode_record_selfdescribing(&bytes).unwrap();
    assert_eq!(back, rec);
}

#[test]
fn record_round_trip_simple() {
    round_trip(ab(1, "1234"));
}

#[test]
fn record_round_trip_empty_text() {
    round_trip(ab(0, ""));
}

#[test]
fn record_round_trip_multibyte_text() {
    round_trip(ab(42, "h\u{e9}llo \u{2713} \u{65e5}\u{672c}"));
}

#[test]
fn record_round_trip_integer_framings() {
    // One value in each unsigned framing the encoder picks.
    for a in [0, 1, 0x7f, 0x80, 0xff, 0x100, 0xffff, 0x1_0000, u32::MAX] {
        round_trip(ab(a, "x"));
    }
}

#[test]
fn record_round_trip_text_framings() {
    // One text length in each framing: inline, one-, and two-byte length.
    for n in [0usize, 31, 32, 255, 256, 300] {
        round_trip(ab(7, &"y".repeat(n)));
    }
}

#[test]
fn wire_format_matches_stock_encoder() {
    // A two-field record and a two-element tuple share the same wire image
    // in this format; the stock encoder pins our framing byte for byte.
    for (a, b) in [(1u32, "1234"), (0, ""), (200, "abc"), (70000, "h\u{e9}llo"), (u32::MAX,
        &"z".repeat(300))] {
        let ours = encode_record_selfdescribing(&ab(a, b));
        let stock = rmp_serde::to_vec(&(a, b.to_string())).unwrap();
        assert_eq!(ours, stock);
    }
}

#[test]
fn stock_decoder_reads_our_wire_image() {
    let bytes = encode_record_selfdescribing(&ab(1234, "abcd"));
    let (a, b): (u32, String) = rmp_serde::from_slice(&bytes).unwrap();
    assert_eq!((a, b.as_str()), (1234, "abcd"));
}

#[test]
fn our_decoder_reads_stock_wire_image() {
    let bytes = rmp_serde::to_vec(&(9u32, "wxyz".to_string())).unwrap();
    assert_eq!(decode_record_selfdescribing(&bytes).unwrap(), ab(9, "wxyz"));
}

#[test]
fn empty_region_is_truncated() {
    assert_eq!(
        decode_record_selfdescribing(&[]),
        Err(TrapError::MalformedRecord(RecordError::Truncated))
    );
}

#[test]
fn wrong_leading_tag_is_unexpected() {
    // A text region routed here by a misordered table starts with its own
    // first byte, not the pair tag.
    assert_eq!(
        decode_record_selfdescribing(b"abcd 1234"),
        Err(TrapError::MalformedRecord(RecordError::UnexpectedTag))
    );
}

#[test]
fn truncated_fields_are_truncated() {
    let full = encode_record_selfdescribing(&ab(300, "abcd"));
    for cut in 1..full.len() {
        assert_eq!(
            decode_record_selfdescribing(&full[..cut]),
            Err(TrapError::MalformedRecord(RecordError::Truncated))
        );
    }
}

#[test]
fn trailing_bytes_are_rejected() {
    let mut bytes = encode_record_selfdescribing(&ab(5, "ok"));
    bytes.push(0);
    assert_eq!(
        decode_record_selfdescribing(&bytes),
        Err(TrapError::MalformedRecord(RecordError::TrailingBytes))
    );
}

#[test]
fn invalid_text_field_is_rejected() {
    // A well-framed record whose text run is not UTF-8.
    let bytes = vec![0x92, 0x01, 0xa1, 0x80];
    assert_eq!(
        decode_record_selfdescribing(&bytes),
        Err(TrapError::MalformedRecord(RecordError::InvalidText))
    );
}

#[test]
fn signed_framings_are_not_part_of_the_grammar() {
    // 0xd0 is a signed-integer tag; the record grammar carries unsigned only.
    let bytes = vec![0x92, 0xd0, 0x01, 0xa1, b'x'];
    assert_eq!(
        decode_record_selfdescribing(&bytes),
        Err(TrapError::MalformedRecord(RecordError::UnexpectedTag))
    );
}

#[test]
fn non_minimal_integer_framing_is_accepted() {
    // A generic peer may frame a small value wide; the decoder takes it.
    let bytes = vec![0x92, 0xce, 0x00, 0x00, 0x00, 0x07, 0xa1, b'q'];
    assert_eq!(decode_record_selfdescribing(&bytes).unwrap(), ab(7, "q"));
}
