//! The record values that cross the boundary.  Both sides of the boundary
//! must hold these exact definitions: the wire formats in [`crate::record`]
//! and [`crate::fixed`] are stated against them field by field.

use vstd::prelude::*;
use vstd::utf8::encode_utf8;

verus! {

/// Byte capacity of the inline text buffer of [`CD`]'s wire form.  The same
/// constant must be pinned on both sides of the boundary.
pub const CD_CAPACITY: usize = 32;

/// A self-describing record: its text field has no fixed size, so it crosses
/// the boundary in a tagged binary encoding (see [`crate::record`]).
#[derive(Clone, Debug, PartialEq, Eq)]
pub struct AB {
    /// An unsigned 32-bit field.
    pub a: u32,
    /// A text field of unbounded length.
    pub b: String,
}

/// The mathematical value of an [`AB`]: the integer and the text's characters.
pub struct AbV {
    pub a: u32,
    pub b: Seq<char>,
}

impl View for AB {
    type V = AbV;

    open spec fn view(&self) -> AbV {
        AbV { a: self.a, b: self.b@ }
    }
}

/// A fixed-layout record: every field has a pinned size, so it crosses the
/// boundary as an exact byte image (see [`crate::fixed`]).  Its text field is
/// bounded by [`CD_CAPACITY`] bytes of UTF-8; the bound is enforced where the
/// record is built or encoded, not silently truncated.
#[derive(Clone, Debug, PartialEq, Eq)]
pub struct CD {
    /// A signed 32-bit field.
    pub c: i32,
    /// A short text field; at most [`CD_CAPACITY`] bytes of UTF-8.
    pub d: String,
}

/// The mathematical value of a [`CD`].
pub struct CdV {
    pub c: i32,
    pub d: Seq<char>,
}

impl View for CD {
    type V = CdV;

    open spec fn view(&self) -> CdV {
        CdV { c: self.c, d: self.d@ }
    }
}

impl CD {
    /// Builds a record from its parts.  The text must fit the pinned
    /// capacity: a longer one has no wire image, so the bound is demanded
    /// already at construction, not first at encode time.
    pub fn from(c: i32, d: &str) -> (r: Self)
        requires
            encode_utf8(d@).len() <= CD_CAPACITY,
        ensures
            r@.c == c,
            r@.d == d@,
    {
        Self { c, d: d.to_owned() }
    }
}

} // verus!
