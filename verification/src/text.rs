//! Text crossing the boundary: a guest string travels as its UTF-8 byte
//! storage, and the host must validate those bytes before rebuilding an owned
//! string.  Malformed text is rejected outright — never repaired.

use vstd::prelude::*;
use vstd::utf8::*;
use crate::errors::TrapError;

verus! {

/// What the host-side UTF-8 check tests of the encoding that starts at the
/// head of `s`: a leading byte of a legal shape, enough continuation bytes,
/// and none of the overlong or surrogate encodings.
pub open spec fn scalar_check(s: Seq<u8>) -> bool {
    &&& s.len() > 0
    &&& {
        let b0 = s[0];
        if b0 < 0x80 {
            true
        } else if 0xc2 <= b0 && b0 <= 0xdf {
            s.len() >= 2 && is_continuation_byte(s[1])
        } else if 0xe0 <= b0 && b0 <= 0xef {
            &&& s.len() >= 3
            &&& is_continuation_byte(s[1])
            &&& is_continuation_byte(s[2])
            &&& (b0 != 0xe0 || s[1] >= 0xa0)
            &&& (b0 != 0xed || s[1] <= 0x9f)
        } else if 0xf0 <= b0 && b0 <= 0xf4 {
            &&& s.len() >= 4
            &&& is_continuation_byte(s[1])
            &&& is_continuation_byte(s[2])
            &&& is_continuation_byte(s[3])
            &&& (b0 != 0xf0 || s[1] >= 0x90)
            &&& (b0 != 0xf4 || s[1] <= 0x8f)
        } else {
            false
        }
    }
}

/// Byte width of the encoding at the head of `s`, as [`scalar_check`] sees it.
pub open spec fn scalar_check_width(s: Seq<u8>) -> int {
    if s[0] < 0x80 {
        1
    } else if s[0] <= 0xdf {
        2
    } else if s[0] <= 0xef {
        3
    } else {
        4
    }
}

/// The byte-shape test of [`scalar_check`] agrees exactly with
/// [`valid_first_scalar`], the value-level statement that a well-formed,
/// minimal, non-surrogate scalar encoding starts here.
proof fn lemma_scalar_check(s: Seq<u8>)
    ensures
        scalar_check(s) <==> s.len() > 0 && valid_first_scalar(s),
        scalar_check(s) ==> length_of_first_scalar(s) == scalar_check_width(s),
{
    if s.len() == 0 {
        return;
    }
    let b0 = s[0];
    if b0 < 0x80 {
        assert(is_leading_byte_width_1(b0));
        assert(valid_first_scalar(s)) by {
            assert(codepoint_width_1(b0) == (b0 & 0x7f) as u32);
            assert(b0 < 0x80 ==> ((b0 & 0x7f) as u32) < 0xd800u32) by (bit_vector);
        }
    } else if b0 <= 0xc1 {
        // A lone continuation byte, or a 2-byte leader that could only open
        // an overlong encoding.
        assert(!is_leading_byte_width_1(b0) && !is_leading_byte_width_3(b0)
            && !is_leading_byte_width_4(b0));
        if 0xc0 <= b0 && s.len() >= 2 && is_continuation_byte(s[1]) {
            let b1 = s[1];
            assert(!valid_first_scalar(s)) by {
                assert(codepoint_width_2(b0, b1) == ((((b0 & 0x1f) as u32) << 6) | ((b1
                    & 0x3f) as u32)));
                assert((0xc0 <= b0 && b0 <= 0xc1 && b1 <= 0xbf) ==> (((((b0 & 0x1f) as u32) << 6)
                    | ((b1 & 0x3f) as u32)) < 0x80u32)) by (bit_vector);
            }
        } else {
            assert(!valid_leading_and_continuation_bytes_first_codepoint(s));
        }
    } else if b0 <= 0xdf {
        assert(is_leading_byte_width_2(b0) && !is_leading_byte_width_1(b0));
        if s.len() >= 2 && is_continuation_byte(s[1]) {
            let b1 = s[1];
            assert(codepoint_width_2(b0, b1) == ((((b0 & 0x1f) as u32) << 6) | ((b1
                & 0x3f) as u32)));
            assert(valid_first_scalar(s)) by {
                assert((0xc2 <= b0 && b0 <= 0xdf && 0x80 <= b1 && b1 <= 0xbf) ==> {
                    0x80u32 <= (((b0 & 0x1f) as u32) << 6) | ((b1 & 0x3f) as u32)
                        && ((((b0 & 0x1f) as u32) << 6) | ((b1 & 0x3f) as u32)) < 0xd800u32
                }) by (bit_vector);
            }
        } else {
            assert(!valid_leading_and_continuation_bytes_first_codepoint(s));
        }
    } else if b0 <= 0xef {
        assert(is_leading_byte_width_3(b0) && !is_leading_byte_width_1(b0)
            && !is_leading_byte_width_2(b0));
        if s.len() >= 3 && is_continuation_byte(s[1]) && is_continuation_byte(s[2]) {
            let b1 = s[1];
            let b2 = s[2];
            assert(codepoint_width_3(b0, b1, b2) == ((((b0 & 0x0f) as u32) << 12) | (((b1
                & 0x3f) as u32) << 6) | ((b2 & 0x3f) as u32)));
            if (b0 != 0xe0 || b1 >= 0xa0) && (b0 != 0xed || b1 <= 0x9f) {
                assert(valid_first_scalar(s)) by {
                    assert((0xe0 <= b0 && b0 <= 0xef && 0x80 <= b1 && b1 <= 0xbf && 0x80 <= b2
                        && b2 <= 0xbf && (b0 != 0xe0 || b1 >= 0xa0) && (b0 != 0xed || b1
                        <= 0x9f)) ==> {
                        0x800u32 <= ((((b0 & 0x0f) as u32) << 12) | (((b1 & 0x3f) as u32) << 6)
                            | ((b2 & 0x3f) as u32)) && !(0xd800u32 <= ((((b0
                            & 0x0f) as u32) << 12) | (((b1 & 0x3f) as u32) << 6) | ((b2
                            & 0x3f) as u32)) && ((((b0 & 0x0f) as u32) << 12) | (((b1
                            & 0x3f) as u32) << 6) | ((b2 & 0x3f) as u32)) <= 0xdfffu32)
                    }) by (bit_vector);
                }
            } else {
                assert(!valid_first_scalar(s)) by {
                    assert((0xe0 <= b0 && b0 <= 0xef && 0x80 <= b1 && b1 <= 0xbf && 0x80 <= b2
                        && b2 <= 0xbf && !((b0 != 0xe0 || b1 >= 0xa0) && (b0 != 0xed || b1
                        <= 0x9f))) ==> {
                        ((((b0 & 0x0f) as u32) << 12) | (((b1 & 0x3f) as u32) << 6) | ((b2
                            & 0x3f) as u32)) < 0x800u32 || (0xd800u32 <= ((((b0
                            & 0x0f) as u32) << 12) | (((b1 & 0x3f) as u32) << 6) | ((b2
                            & 0x3f) as u32)) && ((((b0 & 0x0f) as u32) << 12) | (((b1
                            & 0x3f) as u32) << 6) | ((b2 & 0x3f) as u32)) <= 0xdfffu32)
                    }) by (bit_vector);
                }
            }
        } else {
            assert(!valid_leading_and_continuation_bytes_first_codepoint(s));
        }
    } else if b0 <= 0xf7 {
        assert(is_leading_byte_width_4(b0) && !is_leading_byte_width_1(b0)
            && !is_leading_byte_width_2(b0) && !is_leading_byte_width_3(b0));
        if s.len() >= 4 && is_continuation_byte(s[1]) && is_continuation_byte(s[2])
            && is_continuation_byte(s[3]) {
            let b1 = s[1];
            let b2 = s[2];
            let b3 = s[3];
            assert(codepoint_width_4(b0, b1, b2, b3) == ((((b0 & 0x07) as u32) << 18) | (((b1
                & 0x3f) as u32) << 12) | (((b2 & 0x3f) as u32) << 6) | ((b3 & 0x3f) as u32)));
            if b0 <= 0xf4 && (b0 != 0xf0 || b1 >= 0x90) && (b0 != 0xf4 || b1 <= 0x8f) {
                assert(valid_first_scalar(s)) by {
                    assert((0xf0 <= b0 && b0 <= 0xf4 && 0x80 <= b1 && b1 <= 0xbf && 0x80 <= b2
                        && b2 <= 0xbf && 0x80 <= b3 && b3 <= 0xbf && (b0 != 0xf0 || b1 >= 0x90)
                        && (b0 != 0xf4 || b1 <= 0x8f)) ==> {
                        0x10000u32 <= ((((b0 & 0x07) as u32) << 18) | (((b1
                            & 0x3f) as u32) << 12) | (((b2 & 0x3f) as u32) << 6) | ((b3
                            & 0x3f) as u32)) && ((((b0 & 0x07) as u32) << 18) | (((b1
                            & 0x3f) as u32) << 12) | (((b2 & 0x3f) as u32) << 6) | ((b3
                            & 0x3f) as u32)) <= 0x10ffffu32
                    }) by (bit_vector);
                }
            } else {
                assert(!valid_first_scalar(s)) by {
                    assert((0xf0 <= b0 && b0 <= 0xf7 && 0x80 <= b1 && b1 <= 0xbf && 0x80 <= b2
                        && b2 <= 0xbf && 0x80 <= b3 && b3 <= 0xbf && !(b0 <= 0xf4 && (b0 != 0xf0
                        || b1 >= 0x90) && (b0 != 0xf4 || b1 <= 0x8f))) ==> {
                        ((((b0 & 0x07) as u32) << 18) | (((b1 & 0x3f) as u32) << 12) | (((b2
                            & 0x3f) as u32) << 6) | ((b3 & 0x3f) as u32)) < 0x10000u32 || ((((b0
                            & 0x07) as u32) << 18) | (((b1 & 0x3f) as u32) << 12) | (((b2
                            & 0x3f) as u32) << 6) | ((b3 & 0x3f) as u32)) > 0x10ffffu32
                    }) by (bit_vector);
                }
            }
        } else {
            assert(!valid_leading_and_continuation_bytes_first_codepoint(s));
        }
    } else {
        assert(!valid_leading_and_continuation_bytes_first_codepoint(s));
    }
}

/// Tests for the continuation-byte shape `10xxxxxx`.
fn is_cont(b: u8) -> (r: bool)
    ensures
        r == is_continuation_byte(b),
{
    0x80 <= b && b <= 0xbf
}

/// Decides whether `bytes` is a valid UTF-8 encoding, scanning scalar by
/// scalar.  This is the check every text crossing goes through; it reads the
/// bytes and nothing else.
pub fn validate_utf8(bytes: &[u8]) -> (ok: bool)
    ensures
        ok == valid_utf8(bytes@),
{
    let n = bytes.len();
    let mut i: usize = 0;
    while i < n
        invariant
            n == bytes@.len(),
            i <= n,
            partial_valid_utf8(bytes@, i as int),
        decreases n - i,
    {
        let ghost sub = bytes@.subrange(i as int, n as int);
        let b0 = bytes[i];
        let ok_here: bool;
        let width: usize;
        if b0 < 0x80 {
            ok_here = true;
            width = 1;
        } else if 0xc2 <= b0 && b0 <= 0xdf {
            ok_here = n - i >= 2 && is_cont(bytes[i + 1]);
            width = 2;
        } else if 0xe0 <= b0 && b0 <= 0xef {
            ok_here = n - i >= 3 && is_cont(bytes[i + 1]) && is_cont(bytes[i + 2]) && (b0 != 0xe0
                || bytes[i + 1] >= 0xa0) && (b0 != 0xed || bytes[i + 1] <= 0x9f);
            width = 3;
        } else if 0xf0 <= b0 && b0 <= 0xf4 {
            ok_here = n - i >= 4 && is_cont(bytes[i + 1]) && is_cont(bytes[i + 2]) && is_cont(
                bytes[i + 3],
            ) && (b0 != 0xf0 || bytes[i + 1] >= 0x90) && (b0 != 0xf4 || bytes[i + 1] <= 0x8f);
            width = 4;
        } else {
            ok_here = false;
            width = 1;
        }
        proof {
            assert(ok_here == scalar_check(sub));
            lemma_scalar_check(sub);
        }
        if !ok_here {
            proof {
                assert(!valid_utf8(sub));
                partial_valid_partial_invalid_utf8(bytes@, i as int);
            }
            return false;
        }
        proof {
            partial_valid_utf8_extend(bytes@, i as int);
        }
        i = i + width;
    }
    proof {
        assert(bytes@.subrange(0, n as int) =~= bytes@);
    }
    true
}

/// Relies on `std::str::from_utf8`: on bytes already known to be valid UTF-8
/// it returns the string those bytes encode; the error arm is unreachable.
#[verifier::external_body]
fn utf8_to_string(bytes: &[u8]) -> (r: String)
    requires
        valid_utf8(bytes@),
    ensures
        r@ == decode_utf8(bytes@),
{
    match std::str::from_utf8(bytes) {
        Ok(s) => s.to_string(),
        Err(_) => String::new(),
    }
}

/// Guest-side encoding of a text value: its existing UTF-8 byte storage,
/// copied out so it can be placed into linear memory.
pub fn encode_text(s: &str) -> (r: Vec<u8>)
    ensures
        r@ == encode_utf8(s@),
{
    vstd::slice::slice_to_vec(s.as_bytes())
}

/// Host-side decoding of a text region: validates UTF-8 and rebuilds an owned
/// string, or traps with [`TrapError::InvalidUtf8`].  Nothing is substituted
/// or repaired: the bytes either are a text value or the call dies.
pub fn decode_text(slice: &[u8]) -> (r: Result<String, TrapError>)
    ensures
        r is Ok <==> valid_utf8(slice@),
        r matches Ok(t) ==> t@ == decode_utf8(slice@),
        r is Err ==> r == Err::<String, TrapError>(TrapError::InvalidUtf8),
{
    if validate_utf8(slice) {
        Ok(utf8_to_string(slice))
    } else {
        Err(TrapError::InvalidUtf8)
    }
}

/// A decoded text value is exactly the text that was encoded: encoding any
/// string gives valid UTF-8, and decoding those bytes gives the string back.
pub proof fn lemma_text_round_trip(t: Seq<char>)
    ensures
        valid_utf8(encode_utf8(t)),
        decode_utf8(encode_utf8(t)) == t,
{
    encode_utf8_valid_utf8(t);
    encode_utf8_decode_utf8(t);
}

/// Valid UTF-8 never uses the bytes `0xf8..=0xff`: every leading byte is at
/// most `0xf7` and every continuation byte at most `0xbf`.  A byte from that
/// range can therefore serve as out-of-band padding around a text.
pub proof fn lemma_valid_utf8_bytes_bounded(b: Seq<u8>)
    requires
        valid_utf8(b),
    ensures
        forall|k: int| 0 <= k < b.len() ==> b[k] < 0xf8,
    decreases b.len(),
{
    if b.len() > 0 {
        let w = length_of_first_scalar(b);
        let rest = pop_first_scalar(b);
        assert(1 <= w <= 4 && w <= b.len());
        assert(rest.len() == b.len() - w);
        lemma_valid_utf8_bytes_bounded(rest);
        assert forall|k: int| 0 <= k < b.len() implies b[k] < 0xf8 by {
            if k >= w {
                assert(rest[k - w] == b[k]);
            }
        }
    }
}

} // verus!
