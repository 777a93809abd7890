//! Marshalling and validation layer for crossing a linear-memory sandbox
//! boundary.
//!
//! A guest module runs inside a sandbox whose only shared state with the host
//! is a flat byte buffer, its linear memory.  Values cross the boundary either
//! directly (32-bit integers) or as `(offset, length)` claims into that
//! memory.  This crate provides the guest-side encoders that place values into
//! memory, the host-side decoders that validate a claimed region and rebuild a
//! host-native value from it, and the binding table that wires host functions
//! to the guest's declared imports in order.
//!
//! One boundary convention holds throughout: a non-integer value always
//! crosses as an `(offset, length)` pair of raw 32-bit arguments claiming a
//! region of linear memory — there is no slice-like argument form.  The host
//! believes no claim before [`memory::slice_of`] has validated it.

pub mod binding;
pub mod errors;
pub mod fixed;
pub mod guest;
pub mod memory;
pub mod model;
pub mod record;
pub mod text;

pub use errors::{RecordError, TrapError};
pub use memory::{LinearMemory, Region};
pub use model::{AB, CD};
