//! The self-describing record crossing: an [`AB`] travels in a tagged binary
//! encoding whose framing embeds each field's kind and length, so the host
//! can validate the structure without knowing byte offsets in advance.
//!
//! Wire shape: a two-element array tag, then the unsigned field `a` in the
//! smallest of the unsigned-integer framings, then the text field `b` as a
//! length-framed run of UTF-8 bytes.  Multi-byte lengths and values are
//! big-endian.  The decoder accepts every unsigned-integer and text framing,
//! minimal or not, and rejects anything else as malformed.

use vstd::prelude::*;
use vstd::arithmetic::div_mod::lemma_fundamental_div_mod;
use vstd::utf8::{decode_utf8, encode_utf8, encode_utf8_decode_utf8, encode_utf8_valid_utf8,
    valid_utf8};
use crate::errors::{RecordError, TrapError};
use crate::model::{AB, AbV};
use crate::text::{decode_text, encode_text};

verus! {

/// Tag opening a two-element array.
pub const TAG_PAIR: u8 = 0x92;

/// Tags of the unsigned-integer framings wider than an inline byte.
pub const TAG_U8: u8 = 0xcc;

pub const TAG_U16: u8 = 0xcd;

pub const TAG_U32: u8 = 0xce;

/// Tags of the text framings with an explicit length field.
pub const TAG_STR8: u8 = 0xd9;

pub const TAG_STR16: u8 = 0xda;

pub const TAG_STR32: u8 = 0xdb;

/// The smallest unsigned-integer framing of `a`: an inline byte up to
/// `0x7f`, otherwise a tag and the value in 1, 2 or 4 big-endian bytes.
pub open spec fn spec_uint_bytes(a: u32) -> Seq<u8> {
    if a <= 0x7f {
        seq![a as u8]
    } else if a <= 0xff {
        seq![TAG_U8, a as u8]
    } else if a <= 0xffff {
        seq![TAG_U16, (a / 0x100) as u8, (a % 0x100) as u8]
    } else {
        seq![TAG_U32, (a / 0x100 / 0x100 / 0x100) as u8, (a / 0x100 / 0x100 % 0x100) as u8, (a
            / 0x100 % 0x100) as u8, (a % 0x100) as u8]
    }
}

/// The smallest text framing of the byte run `b`: a short run's length lives
/// inside the tag, a longer one follows the tag in 1, 2 or 4 big-endian
/// bytes; then the run itself.
pub open spec fn spec_str_bytes(b: Seq<u8>) -> Seq<u8>
    recommends
        b.len() <= 0xffff_ffff,
{
    let n = b.len() as int;
    if n <= 31 {
        seq![(0xa0 + n) as u8] + b
    } else if n <= 0xff {
        seq![TAG_STR8, n as u8] + b
    } else if n <= 0xffff {
        seq![TAG_STR16, (n / 0x100) as u8, (n % 0x100) as u8] + b
    } else {
        seq![TAG_STR32, (n / 0x100 / 0x100 / 0x100) as u8, (n / 0x100 / 0x100 % 0x100) as u8, (n
            / 0x100 % 0x100) as u8, (n % 0x100) as u8] + b
    }
}

/// The wire image of an [`AB`] whose text field encodes to `b`: the pair
/// tag, then each field in its smallest framing.
pub open spec fn spec_encode_ab(a: u32, b: Seq<u8>) -> Seq<u8>
    recommends
        b.len() <= 0xffff_ffff,
{
    seq![TAG_PAIR] + spec_uint_bytes(a) + spec_str_bytes(b)
}

/// Reads one unsigned integer starting at `i`: the value and the position
/// after it, or why the framing is unacceptable.  Any framing whose value
/// fits the field is accepted, minimal or not.
pub open spec fn spec_parse_uint(s: Seq<u8>, i: int) -> Result<(u32, int), RecordError>
    recommends
        0 <= i <= s.len(),
{
    if i >= s.len() {
        Err(RecordError::Truncated)
    } else {
        let t = s[i];
        if t <= 0x7f {
            Ok(((t as u32), i + 1))
        } else if t == TAG_U8 {
            if s.len() - i >= 2 {
                Ok(((s[i + 1] as u32), i + 2))
            } else {
                Err(RecordError::Truncated)
            }
        } else if t == TAG_U16 {
            if s.len() - i >= 3 {
                Ok((((s[i + 1] * 0x100 + s[i + 2]) as u32), i + 3))
            } else {
                Err(RecordError::Truncated)
            }
        } else if t == TAG_U32 {
            if s.len() - i >= 5 {
                Ok((((s[i + 1] * 0x1000000 + s[i + 2] * 0x10000 + s[i + 3] * 0x100 + s[i
                    + 4]) as u32), i + 5))
            } else {
                Err(RecordError::Truncated)
            }
        } else {
            Err(RecordError::UnexpectedTag)
        }
    }
}

/// Reads one length-framed text run starting at `i`: the run's bytes and the
/// position after them, or why the framing is unacceptable.
pub open spec fn spec_parse_str(s: Seq<u8>, i: int) -> Result<(Seq<u8>, int), RecordError>
    recommends
        0 <= i <= s.len(),
{
    if i >= s.len() {
        Err(RecordError::Truncated)
    } else {
        let t = s[i];
        let header: Result<(int, int), RecordError> = if 0xa0 <= t && t <= 0xbf {
            Ok(((t - 0xa0) as int, i + 1))
        } else if t == TAG_STR8 {
            if s.len() - i >= 2 {
                Ok((s[i + 1] as int, i + 2))
            } else {
                Err(RecordError::Truncated)
            }
        } else if t == TAG_STR16 {
            if s.len() - i >= 3 {
                Ok(((s[i + 1] * 0x100 + s[i + 2]) as int, i + 3))
            } else {
                Err(RecordError::Truncated)
            }
        } else if t == TAG_STR32 {
            if s.len() - i >= 5 {
                Ok(((s[i + 1] * 0x1000000 + s[i + 2] * 0x10000 + s[i + 3] * 0x100 + s[i
                    + 4]) as int, i + 5))
            } else {
                Err(RecordError::Truncated)
            }
        } else {
            Err(RecordError::UnexpectedTag)
        };
        match header {
            Err(e) => Err(e),
            Ok((n, j)) => if n <= s.len() - j {
                Ok((s.subrange(j, j + n), j + n))
            } else {
                Err(RecordError::Truncated)
            },
        }
    }
}

/// The structure of a whole [`AB`] region: the pair tag, the two fields, and
/// nothing after them.
pub open spec fn spec_parse_ab(s: Seq<u8>) -> Result<(u32, Seq<u8>), RecordError> {
    if s.len() == 0 {
        Err(RecordError::Truncated)
    } else if s[0] != TAG_PAIR {
        Err(RecordError::UnexpectedTag)
    } else {
        match spec_parse_uint(s, 1) {
            Err(e) => Err(e),
            Ok((a, i)) => match spec_parse_str(s, i) {
                Err(e) => Err(e),
                Ok((b, j)) => if j == s.len() {
                    Ok((a, b))
                } else {
                    Err(RecordError::TrailingBytes)
                },
            },
        }
    }
}

/// The host-side meaning of a self-describing region: parse the framing,
/// then insist the text field is UTF-8.  Every failure is a
/// [`TrapError::MalformedRecord`] carrying the reason.
pub open spec fn spec_decode_ab(s: Seq<u8>) -> Result<AbV, TrapError> {
    match spec_parse_ab(s) {
        Err(e) => Err(TrapError::MalformedRecord(e)),
        Ok((a, bb)) => if valid_utf8(bb) {
            Ok(AbV { a, b: decode_utf8(bb) })
        } else {
            Err(TrapError::MalformedRecord(RecordError::InvalidText))
        },
    }
}

/// Appends the smallest unsigned-integer framing of `a`.
fn push_uint(out: &mut Vec<u8>, a: u32)
    ensures
        final(out)@ == old(out)@ + spec_uint_bytes(a),
{
    if a <= 0x7f {
        out.push(a as u8);
    } else if a <= 0xff {
        out.push(TAG_U8);
        out.push(a as u8);
    } else if a <= 0xffff {
        out.push(TAG_U16);
        out.push((a / 0x100) as u8);
        out.push((a % 0x100) as u8);
    } else {
        out.push(TAG_U32);
        out.push((a / 0x100 / 0x100 / 0x100) as u8);
        out.push((a / 0x100 / 0x100 % 0x100) as u8);
        out.push((a / 0x100 % 0x100) as u8);
        out.push((a % 0x100) as u8);
    }
    proof {
        assert(out@ =~= old(out)@ + spec_uint_bytes(a));
    }
}

/// Appends the smallest text framing of `b`.
fn push_str(out: &mut Vec<u8>, b: &[u8])
    requires
        b@.len() <= 0xffff_ffff,
    ensures
        final(out)@ == old(out)@ + spec_str_bytes(b@),
{
    let n = b.len();
    if n <= 31 {
        out.push(0xa0 + n as u8);
    } else if n <= 0xff {
        out.push(TAG_STR8);
        out.push(n as u8);
    } else if n <= 0xffff {
        out.push(TAG_STR16);
        out.push((n / 0x100) as u8);
        out.push((n % 0x100) as u8);
    } else {
        out.push(TAG_STR32);
        out.push((n / 0x100 / 0x100 / 0x100) as u8);
        out.push((n / 0x100 / 0x100 % 0x100) as u8);
        out.push((n / 0x100 % 0x100) as u8);
        out.push((n % 0x100) as u8);
    }
    let ghost header = out@;
    let mut k: usize = 0;
    while k < b.len()
        invariant
            k <= b@.len(),
            out@ == header + b@.subrange(0, k as int),
        decreases b@.len() - k,
    {
        out.push(b[k]);
        k = k + 1;
        proof {
            assert(out@ =~= header + b@.subrange(0, k as int));
        }
    }
    proof {
        assert(b@.subrange(0, b@.len() as int) =~= b@);
        assert(out@ =~= old(out)@ + spec_str_bytes(b@));
    }
}

/// Guest-side encoding of an [`AB`] into the tagged format.  The text field
/// must fit a 32-bit length frame, the widest the format carries.
pub fn encode_record_selfdescribing(rec: &AB) -> (res: Vec<u8>)
    requires
        encode_utf8(rec@.b).len() <= 0xffff_ffff,
    ensures
        res@ == spec_encode_ab(rec@.a, encode_utf8(rec@.b)),
{
    let mut out: Vec<u8> = Vec::new();
    out.push(TAG_PAIR);
    push_uint(&mut out, rec.a);
    let b = encode_text(rec.b.as_str());
    push_str(&mut out, b.as_slice());
    proof {
        assert(out@ =~= spec_encode_ab(rec@.a, encode_utf8(rec@.b)));
    }
    out
}

/// Reads one unsigned integer starting at `i`, exactly as
/// [`spec_parse_uint`] describes.
fn parse_uint(s: &[u8], i: usize) -> (r: Result<(u32, usize), RecordError>)
    requires
        i <= s@.len(),
    ensures
        r matches Ok((a, j)) ==> spec_parse_uint(s@, i as int) == Ok::<(u32, int), RecordError>(
            (a, j as int),
        ) && i < j <= s@.len(),
        r matches Err(e) ==> spec_parse_uint(s@, i as int) == Err::<(u32, int), RecordError>(e),
{
    if i >= s.len() {
        return Err(RecordError::Truncated);
    }
    let t = s[i];
    if t <= 0x7f {
        Ok((t as u32, i + 1))
    } else if t == TAG_U8 {
        if s.len() - i >= 2 {
            Ok((s[i + 1] as u32, i + 2))
        } else {
            Err(RecordError::Truncated)
        }
    } else if t == TAG_U16 {
        if s.len() - i >= 3 {
            Ok(((s[i + 1] as u32) * 0x100 + (s[i + 2] as u32), i + 3))
        } else {
            Err(RecordError::Truncated)
        }
    } else if t == TAG_U32 {
        if s.len() - i >= 5 {
            Ok((
                (s[i + 1] as u32) * 0x1000000 + (s[i + 2] as u32) * 0x10000 + (s[i
                    + 3] as u32) * 0x100 + (s[i + 4] as u32),
                i + 5,
            ))
        } else {
            Err(RecordError::Truncated)
        }
    } else {
        Err(RecordError::UnexpectedTag)
    }
}

/// Reads one length-framed text run starting at `i`, exactly as
/// [`spec_parse_str`] describes; hands back an owned copy of the run.
fn parse_str(s: &[u8], i: usize) -> (r: Result<(Vec<u8>, usize), RecordError>)
    requires
        i <= s@.len(),
    ensures
        r matches Ok((b, j)) ==> spec_parse_str(s@, i as int) matches Ok(sp) && sp.0 == b@
            && sp.1 == j as int && i < j <= s@.len(),
        r matches Err(e) ==> spec_parse_str(s@, i as int) == Err::<(Seq<u8>, int), RecordError>(
            e,
        ),
{
    if i >= s.len() {
        return Err(RecordError::Truncated);
    }
    let t = s[i];
    let n: usize;
    let j: usize;
    if 0xa0 <= t && t <= 0xbf {
        n = (t - 0xa0) as usize;
        j = i + 1;
    } else if t == TAG_STR8 {
        if s.len() - i >= 2 {
            n = s[i + 1] as usize;
            j = i + 2;
        } else {
            return Err(RecordError::Truncated);
        }
    } else if t == TAG_STR16 {
        if s.len() - i >= 3 {
            n = (s[i + 1] as usize) * 0x100 + (s[i + 2] as usize);
            j = i + 3;
        } else {
            return Err(RecordError::Truncated);
        }
    } else if t == TAG_STR32 {
        if s.len() - i >= 5 {
            n = (s[i + 1] as usize) * 0x1000000 + (s[i + 2] as usize) * 0x10000 + (s[i
                + 3] as usize) * 0x100 + (s[i + 4] as usize);
            j = i + 5;
        } else {
            return Err(RecordError::Truncated);
        }
    } else {
        return Err(RecordError::UnexpectedTag);
    }
    if n <= s.len() - j {
        let run: &[u8] = vstd::slice::slice_subrange(s, j, j + n);
        Ok((vstd::slice::slice_to_vec(run), j + n))
    } else {
        Err(RecordError::Truncated)
    }
}

/// Host-side decoding of a self-describing region into an owned [`AB`],
/// validating the tag structure and the text field; any failure traps with
/// [`TrapError::MalformedRecord`] and the reason.
pub fn decode_record_selfdescribing(slice: &[u8]) -> (res: Result<AB, TrapError>)
    ensures
        res is Ok <==> spec_decode_ab(slice@) is Ok,
        res matches Ok(ab) ==> spec_decode_ab(slice@) matches Ok(v) && ab@.a == v.a && ab@.b
            == v.b,
        res matches Err(e) ==> spec_decode_ab(slice@) matches Err(e2) && e == e2,
{
    if slice.len() == 0 {
        return Err(TrapError::MalformedRecord(RecordError::Truncated));
    }
    if slice[0] != TAG_PAIR {
        return Err(TrapError::MalformedRecord(RecordError::UnexpectedTag));
    }
    let (a, i) = match parse_uint(slice, 1) {
        Ok(p) => p,
        Err(e) => {
            return Err(TrapError::MalformedRecord(e));
        },
    };
    let (b_bytes, j) = match parse_str(slice, i) {
        Ok(p) => p,
        Err(e) => {
            return Err(TrapError::MalformedRecord(e));
        },
    };
    if j != slice.len() {
        return Err(TrapError::MalformedRecord(RecordError::TrailingBytes));
    }
    match decode_text(b_bytes.as_slice()) {
        Ok(b) => Ok(AB { a, b }),
        Err(_) => Err(TrapError::MalformedRecord(RecordError::InvalidText)),
    }
}

/// A nonnegative 32-bit value is exactly its four base-256 digits
/// reassembled big-endian.
proof fn lemma_u32_digits(x: int)
    requires
        0 <= x <= 0xffff_ffff,
    ensures
        (x / 0x100 / 0x100 / 0x100) * 0x1000000 + (x / 0x100 / 0x100 % 0x100) * 0x10000 + (x
            / 0x100 % 0x100) * 0x100 + (x % 0x100) == x,
        0 <= x / 0x100 / 0x100 / 0x100 < 0x100,
{
    lemma_fundamental_div_mod(x, 0x100);
    lemma_fundamental_div_mod(x / 0x100, 0x100);
    lemma_fundamental_div_mod(x / 0x100 / 0x100, 0x100);
}

/// Parsing an integer framed by the encoder, wherever it sits in a larger
/// region, yields the integer and stops right after it.
proof fn lemma_uint_round(s: Seq<u8>, i: int, a: u32)
    requires
        0 <= i,
        i + spec_uint_bytes(a).len() <= s.len(),
        s.subrange(i, i + spec_uint_bytes(a).len()) == spec_uint_bytes(a),
    ensures
        spec_parse_uint(s, i) == Ok::<(u32, int), RecordError>((a, i + spec_uint_bytes(a).len())),
{
    let u = spec_uint_bytes(a);
    assert forall|k: int| 0 <= k < u.len() implies s[i + k] == u[k] by {
        assert(s.subrange(i, i + u.len() as int)[k] == u[k]);
    }
    if a <= 0x7f {
        assert(s[i + 0] == u[0]);
    } else if a <= 0xff {
        assert(s[i + 0] == u[0]);
        assert(s[i + 1] == u[1]);
    } else if a <= 0xffff {
        assert(s[i + 0] == u[0]);
        assert(s[i + 1] == u[1]);
        assert(s[i + 2] == u[2]);
        lemma_fundamental_div_mod(a as int, 0x100);
        assert(s[i + 1] * 0x100 + s[i + 2] == a);
    } else {
        assert(s[i + 0] == u[0]);
        assert(s[i + 1] == u[1]);
        assert(s[i + 2] == u[2]);
        assert(s[i + 3] == u[3]);
        assert(s[i + 4] == u[4]);
        lemma_u32_digits(a as int);
        assert(s[i + 1] * 0x1000000 + s[i + 2] * 0x10000 + s[i + 3] * 0x100 + s[i + 4] == a);
    }
}

/// Parsing a text run framed by the encoder, wherever it sits in a larger
/// region, yields the run and stops right after it.
proof fn lemma_str_round(s: Seq<u8>, i: int, b: Seq<u8>)
    requires
        0 <= i,
        b.len() <= 0xffff_ffff,
        i + spec_str_bytes(b).len() <= s.len(),
        s.subrange(i, i + spec_str_bytes(b).len()) == spec_str_bytes(b),
    ensures
        spec_parse_str(s, i) == Ok::<(Seq<u8>, int), RecordError>(
            (b, i + spec_str_bytes(b).len()),
        ),
{
    let w = spec_str_bytes(b);
    let n = b.len() as int;
    assert forall|k: int| 0 <= k < w.len() implies s[i + k] == w[k] by {
        assert(s.subrange(i, i + w.len() as int)[k] == w[k]);
    }
    let h: int = if n <= 31 {
        1
    } else if n <= 0xff {
        2
    } else if n <= 0xffff {
        3
    } else {
        5
    };
    if n <= 31 {
        assert(s[i + 0] == w[0]);
        assert(s[i] == (0xa0 + n) as u8);
        assert(0xa0 <= s[i] <= 0xbf);
        assert((s[i] - 0xa0) as int == n);
    } else if n <= 0xff {
        assert(s[i + 0] == w[0]);
        assert(s[i + 1] == w[1]);
        assert(s[i + 1] as int == n);
    } else if n <= 0xffff {
        assert(s[i + 0] == w[0]);
        assert(s[i + 1] == w[1]);
        assert(s[i + 2] == w[2]);
        lemma_fundamental_div_mod(n, 0x100);
        assert(s[i + 1] * 0x100 + s[i + 2] == n);
    } else {
        assert(s[i + 0] == w[0]);
        assert(s[i + 1] == w[1]);
        assert(s[i + 2] == w[2]);
        assert(s[i + 3] == w[3]);
        assert(s[i + 4] == w[4]);
        lemma_u32_digits(n);
        assert(s[i + 1] * 0x1000000 + s[i + 2] * 0x10000 + s[i + 3] * 0x100 + s[i + 4] == n);
    }
    assert forall|k: int| 0 <= k < n implies s[i + h + k] == b[k] by {
        assert(s[i + (h + k)] == w[h + k]);
        assert(w[h + k] == b[k]);
    }
    assert(s.subrange(i + h, i + h + n) =~= b);
}

/// Round trip for self-describing records: any `AB` whose text fits the
/// widest length frame decodes, from its own wire image, back to exactly its
/// two fields.
pub proof fn lemma_record_round_trip(a: u32, b: Seq<char>)
    requires
        encode_utf8(b).len() <= 0xffff_ffff,
    ensures
        spec_decode_ab(spec_encode_ab(a, encode_utf8(b))) == Ok::<AbV, TrapError>(AbV { a, b }),
{
    let bb = encode_utf8(b);
    let s = spec_encode_ab(a, bb);
    let u = spec_uint_bytes(a);
    let w = spec_str_bytes(bb);
    assert(s.len() == 1 + u.len() + w.len());
    assert(s[0] == TAG_PAIR);
    assert(s.subrange(1, 1 + u.len() as int) =~= u);
    lemma_uint_round(s, 1, a);
    assert(s.subrange(1 + u.len() as int, 1 + u.len() + w.len() as int) =~= w);
    lemma_str_round(s, 1 + u.len() as int, bb);
    encode_utf8_valid_utf8(b);
    encode_utf8_decode_utf8(b);
}

} // verus!
