//! The fixed-layout record crossing: a [`CD`] travels as its exact wire
//! image, `4 + CD_CAPACITY` bytes with every position pinned.  Neither side
//! may rely on a compiler's in-memory layout; the bytes are packed and
//! unpacked field by field against this explicit contract.
//!
//! Wire shape: the signed field `c` as 4 little-endian bytes, then the text
//! field `d` as its UTF-8 bytes padded with [`CD_PAD`] bytes up to
//! [`CD_CAPACITY`]; on decode the text ends at the first padding byte.  The
//! padding byte is one UTF-8 never uses, so every text up to capacity —
//! zero bytes included — survives the image exactly.

use vstd::prelude::*;
use vstd::bytes::{spec_u32_from_le_bytes, spec_u32_to_le_bytes, u32_from_le_bytes, u32_to_le_bytes,
    lemma_auto_spec_u32_to_from_le_bytes};
use vstd::utf8::{decode_utf8, encode_utf8, encode_utf8_decode_utf8, encode_utf8_valid_utf8,
    valid_utf8};
use crate::errors::TrapError;
use crate::model::{CD, CD_CAPACITY, CdV};
use crate::text::{decode_text, encode_text, lemma_valid_utf8_bytes_bounded};

verus! {

/// Exact byte size of a [`CD`] on the wire.
pub const CD_WIRE_SIZE: usize = 4 + CD_CAPACITY;

/// The byte that pads the text buffer out to its capacity.  UTF-8 never
/// produces a byte in `0xf8..=0xff`, so the padding cannot be mistaken for
/// text and no text can be mistaken for padding.
pub const CD_PAD: u8 = 0xff;

/// The wire image of a [`CD`] whose text field encodes to `d_bytes`.
pub open spec fn spec_cd_bytes(c: i32, d_bytes: Seq<u8>) -> Seq<u8>
    recommends
        d_bytes.len() <= CD_CAPACITY,
{
    spec_u32_to_le_bytes(c as u32) + d_bytes + Seq::new(
        (CD_CAPACITY - d_bytes.len()) as nat,
        |i: int| CD_PAD,
    )
}

/// Length of the prefix of `buf` before its first padding byte: the extent
/// of the text inside the padded buffer.
pub open spec fn pad_span(buf: Seq<u8>) -> int
    decreases buf.len(),
{
    if buf.len() == 0 || buf[0] == CD_PAD {
        0
    } else {
        1 + pad_span(buf.subrange(1, buf.len() as int))
    }
}

/// `pad_span` is pinned by pointwise facts: all bytes before `i` are text
/// bytes and `i` is the end or a padding byte.
proof fn lemma_pad_span(buf: Seq<u8>, i: int)
    requires
        0 <= i <= buf.len(),
        forall|k: int| 0 <= k < i ==> buf[k] != CD_PAD,
        i == buf.len() || buf[i] == CD_PAD,
    ensures
        pad_span(buf) == i,
    decreases i,
{
    if i == 0 {
    } else {
        let tail = buf.subrange(1, buf.len() as int);
        lemma_pad_span(tail, i - 1);
    }
}

/// The host-side meaning of a fixed-layout region: reject any region that is
/// not exactly the wire size, unpack `c`, cut the text at the first padding
/// byte, and insist it is UTF-8.
pub open spec fn spec_decode_cd(s: Seq<u8>) -> Result<CdV, TrapError> {
    if s.len() != CD_WIRE_SIZE {
        Err(TrapError::SizeMismatch)
    } else {
        let c = spec_u32_from_le_bytes(s.subrange(0, 4)) as i32;
        let buf = s.subrange(4, CD_WIRE_SIZE as int);
        let d_bytes = buf.subrange(0, pad_span(buf));
        if valid_utf8(d_bytes) {
            Ok(CdV { c, d: decode_utf8(d_bytes) })
        } else {
            Err(TrapError::InvalidUtf8)
        }
    }
}

/// Guest-side encoding of a [`CD`] into its pinned wire image.  A text field
/// longer than the capacity fails here, at encode time, with
/// [`TrapError::SizeMismatch`]: it has no wire image at all.
pub fn encode_record_fixed(rec: &CD) -> (res: Result<Vec<u8>, TrapError>)
    ensures
        res is Ok <==> encode_utf8(rec@.d).len() <= CD_CAPACITY,
        res matches Ok(v) ==> v@ == spec_cd_bytes(rec@.c, encode_utf8(rec@.d)) && v@.len()
            == CD_WIRE_SIZE,
        res is Err ==> res == Err::<Vec<u8>, TrapError>(TrapError::SizeMismatch),
{
    let mut d_bytes = encode_text(rec.d.as_str());
    if d_bytes.len() > CD_CAPACITY {
        return Err(TrapError::SizeMismatch);
    }
    let mut out = u32_to_le_bytes(rec.c as u32);
    let ghost prefix = out@ + d_bytes@;
    out.append(&mut d_bytes);
    while out.len() < CD_WIRE_SIZE
        invariant
            prefix.len() <= out@.len() <= CD_WIRE_SIZE,
            prefix.len() <= CD_WIRE_SIZE,
            out@ == prefix + Seq::new((out@.len() - prefix.len()) as nat, |i: int| CD_PAD),
        decreases CD_WIRE_SIZE - out@.len(),
    {
        out.push(CD_PAD);
        proof {
            assert(out@ =~= prefix + Seq::new((out@.len() - prefix.len()) as nat, |i: int| CD_PAD));
        }
    }
    proof {
        assert(out@ =~= spec_cd_bytes(rec@.c, encode_utf8(rec@.d)));
    }
    Ok(out)
}

/// Host-side decoding of a fixed-layout region into an owned [`CD`].  The
/// region's length must equal the wire size exactly — a mismatch traps with
/// [`TrapError::SizeMismatch`] — and the text must be UTF-8.
pub fn decode_record_fixed(slice: &[u8]) -> (res: Result<CD, TrapError>)
    ensures
        res is Ok <==> spec_decode_cd(slice@) is Ok,
        res matches Ok(cd) ==> spec_decode_cd(slice@) matches Ok(v) && cd@.c == v.c && cd@.d
            == v.d,
        res matches Err(e) ==> spec_decode_cd(slice@) matches Err(e2) && e == e2,
{
    if slice.len() != CD_WIRE_SIZE {
        return Err(TrapError::SizeMismatch);
    }
    let c_bytes: &[u8] = vstd::slice::slice_subrange(slice, 0, 4);
    let c = u32_from_le_bytes(c_bytes) as i32;
    let buf: &[u8] = vstd::slice::slice_subrange(slice, 4, CD_WIRE_SIZE);
    let mut span: usize = 0;
    while span < buf.len() && *vstd::slice::slice_index_get(buf, span) != CD_PAD
        invariant
            span <= buf@.len(),
            forall|k: int| 0 <= k < span ==> buf@[k] != CD_PAD,
        decreases buf@.len() - span,
    {
        span = span + 1;
    }
    proof {
        lemma_pad_span(buf@, span as int);
    }
    let d_bytes: &[u8] = vstd::slice::slice_subrange(buf, 0, span);
    match decode_text(d_bytes) {
        Ok(d) => Ok(CD { c, d }),
        Err(_) => Err(TrapError::InvalidUtf8),
    }
}

/// Round trip for fixed-layout records: any `CD` whose text fits the
/// capacity decodes, from its own wire image, back to exactly its two
/// fields.  No text byte can collide with the padding, so this holds with
/// no further condition; the capacity bound is what encoding itself
/// enforces.
pub proof fn lemma_fixed_round_trip(c: i32, d: Seq<char>)
    requires
        encode_utf8(d).len() <= CD_CAPACITY,
    ensures
        spec_decode_cd(spec_cd_bytes(c, encode_utf8(d))) == Ok::<CdV, TrapError>(CdV { c, d }),
{
    let db = encode_utf8(d);
    let s = spec_cd_bytes(c, db);
    lemma_auto_spec_u32_to_from_le_bytes();
    assert(s.len() == CD_WIRE_SIZE);
    assert(s.subrange(0, 4) =~= spec_u32_to_le_bytes(c as u32));
    assert(spec_u32_from_le_bytes(s.subrange(0, 4)) == c as u32);
    assert((c as u32) as i32 == c) by (bit_vector);
    let buf = s.subrange(4, CD_WIRE_SIZE as int);
    assert(forall|k: int| 0 <= k < db.len() ==> buf[k] == db[k]);
    assert(buf.len() == CD_CAPACITY);
    encode_utf8_valid_utf8(d);
    lemma_valid_utf8_bytes_bounded(db);
    lemma_pad_span(buf, db.len() as int);
    assert(buf.subrange(0, db.len() as int) =~= db);
    encode_utf8_decode_utf8(d);
}

} // verus!
