//! The error kinds a boundary crossing can raise.  Every decoder failure is a
//! trap: it aborts the guest call in progress and is never retried, because a
//! malformed crossing means the two sides disagree on the contract.

use vstd::prelude::*;

verus! {

/// Why a self-describing record failed to decode: the diagnostic carried by
/// [`TrapError::MalformedRecord`].
#[derive(Clone, Copy, Debug, PartialEq, Eq, Structural)]
pub enum RecordError {
    /// The region ended before the framing said it would.
    Truncated,
    /// A tag byte does not belong to the record's wire grammar.
    UnexpectedTag,
    /// A text field holds bytes that are not valid UTF-8.
    InvalidText,
    /// Bytes remain after the record's last field.
    TrailingBytes,
}

/// A boundary-contract violation.  Each variant is fatal for the call (or, for
/// the binding variants, for instantiation): there is no recovery path.
#[derive(Clone, Copy, Debug, PartialEq, Eq, Structural)]
pub enum TrapError {
    /// The guest instance exposes no linear memory to decode from.
    NoMemoryExport,
    /// A region's `offset + length` exceeds the memory size (which also
    /// covers 32-bit wrap-around of the addition).
    OutOfBounds,
    /// A text region holds bytes that are not valid UTF-8.
    InvalidUtf8,
    /// A self-describing record failed to decode; carries the diagnostic.
    MalformedRecord(RecordError),
    /// A fixed-layout region whose length is not the record's exact wire
    /// size, or a fixed-layout text field longer than its pinned capacity.
    SizeMismatch,
    /// Host registration and guest import declarations disagree on order or
    /// signature, so calls would be misrouted.
    BindingOrderMismatch,
}

impl TrapError {
    /// A short reason phrase, for reporting a trap to the host's caller.
    pub fn describe(&self) -> &'static str {
        match self {
            TrapError::NoMemoryExport => "failed to get caller's exported memory",
            TrapError::OutOfBounds => "pointer or length out of range",
            TrapError::InvalidUtf8 => "invalid utf-8",
            TrapError::MalformedRecord(_) => "invalid record data",
            TrapError::SizeMismatch => "struct size not equal to slice length",
            TrapError::BindingOrderMismatch => "import bindings out of order",
        }
    }
}

} // verus!
