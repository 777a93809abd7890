//! The guest's linear memory and the bounds-checked view into it.
//!
//! The host never holds a pointer into the guest; it holds the memory handle
//! and `(offset, length)` claims.  [`slice_of`] is the single place where a
//! claim is turned into bytes, and it validates the claim first: every decode
//! path routes through it.

use vstd::prelude::*;
use crate::errors::TrapError;

verus! {

/// Largest byte size a linear memory may have: offsets and lengths travel
/// across the boundary as 32-bit values, so the memory they index must be
/// addressable by them.
pub const MEMORY_LIMIT: u64 = 0xffff_ffff;

/// An `(offset, length)` claim about a byte range inside a linear memory.
/// It is always interpreted against the memory of the call in progress and
/// is worthless once that call returns.
#[derive(Clone, Copy, Debug, PartialEq, Eq, Structural)]
pub struct Region {
    /// First byte of the claimed range.
    pub offset: u32,
    /// Number of bytes claimed.
    pub length: u32,
}

/// The flat, byte-addressable memory of one guest instance: the only state
/// the two sides share.  The guest reads and writes it freely; the host may
/// only look at it through [`slice_of`].
pub struct LinearMemory {
    data: Vec<u8>,
}

/// `mem` with `bytes` written at `at`, everything else unchanged.
pub open spec fn spec_write(mem: Seq<u8>, at: int, bytes: Seq<u8>) -> Seq<u8>
    recommends
        0 <= at,
        at + bytes.len() <= mem.len(),
{
    mem.subrange(0, at) + bytes + mem.subrange(at + bytes.len(), mem.len() as int)
}

/// What a write does, pointwise: the written range holds the new bytes and
/// every other position is untouched.
pub proof fn lemma_spec_write_frame(m: Seq<u8>, at: int, bytes: Seq<u8>)
    requires
        0 <= at,
        at + bytes.len() <= m.len(),
    ensures
        spec_write(m, at, bytes).len() == m.len(),
        spec_write(m, at, bytes).subrange(at, at + bytes.len()) == bytes,
        forall|k: int|
            0 <= k < m.len() && !(at <= k < at + bytes.len()) ==> spec_write(m, at, bytes)[k]
                == m[k],
{
    assert(spec_write(m, at, bytes).subrange(at, at + bytes.len()) =~= bytes);
}

impl LinearMemory {
    /// The bytes the memory currently holds.
    pub closed spec fn view(&self) -> Seq<u8> {
        self.data@
    }

    /// The memory stays addressable by 32-bit offsets.
    pub open spec fn wf(&self) -> bool {
        self@.len() <= MEMORY_LIMIT
    }

    /// A fresh memory of `size` zeroed bytes.
    pub fn new(size: u32) -> (m: LinearMemory)
        ensures
            m.wf(),
            m@ == Seq::new(size as nat, |i: int| 0u8),
    {
        let mut data: Vec<u8> = Vec::new();
        let mut i: u32 = 0;
        while i < size
            invariant
                i <= size,
                data@ == Seq::new(i as nat, |j: int| 0u8),
            decreases size - i,
        {
            data.push(0u8);
            i = i + 1;
            proof {
                assert(data@ =~= Seq::new(i as nat, |j: int| 0u8));
            }
        }
        LinearMemory { data }
    }

    /// Current size in bytes.
    pub fn size(&self) -> (n: u32)
        requires
            self.wf(),
        ensures
            n == self@.len(),
    {
        self.data.len() as u32
    }

    /// Grows the memory by `extra` zeroed bytes, as the guest's allocator
    /// would; fails without growing when the result would no longer be
    /// 32-bit addressable.
    pub fn grow(&mut self, extra: u32) -> (r: Result<(), TrapError>)
        requires
            old(self).wf(),
        ensures
            final(self).wf(),
            r is Ok <==> old(self)@.len() + extra <= MEMORY_LIMIT,
            r is Ok ==> final(self)@ == old(self)@ + Seq::new(extra as nat, |i: int| 0u8),
            r is Err ==> final(self)@ == old(self)@ && r == Err::<(), TrapError>(
                TrapError::OutOfBounds,
            ),
    {
        if extra as u64 > MEMORY_LIMIT - self.data.len() as u64 {
            return Err(TrapError::OutOfBounds);
        }
        let ghost base = self.data@;
        let mut i: u32 = 0;
        while i < extra
            invariant
                i <= extra,
                self.data@ == base + Seq::new(i as nat, |j: int| 0u8),
            decreases extra - i,
        {
            self.data.push(0u8);
            i = i + 1;
            proof {
                assert(self.data@ =~= base + Seq::new(i as nat, |j: int| 0u8));
            }
        }
        Ok(())
    }

    /// Writes `bytes` at `offset`, the guest-side primitive behind every
    /// encoder.  Fails without touching the memory when the range does not
    /// fit; never grows the memory.
    pub fn write(&mut self, offset: u32, bytes: &[u8]) -> (r: Result<(), TrapError>)
        requires
            old(self).wf(),
        ensures
            final(self).wf(),
            r is Ok <==> offset + bytes@.len() <= old(self)@.len(),
            r is Ok ==> final(self)@ == spec_write(old(self)@, offset as int, bytes@),
            r is Err ==> final(self)@ == old(self)@ && r == Err::<(), TrapError>(
                TrapError::OutOfBounds,
            ),
    {
        if offset as usize > self.data.len() || bytes.len() > self.data.len() - offset as usize {
            return Err(TrapError::OutOfBounds);
        }
        let ghost base = self.data@;
        let mut j: usize = 0;
        while j < bytes.len()
            invariant
                j <= bytes@.len(),
                offset + bytes@.len() <= base.len(),
                base.len() <= MEMORY_LIMIT,
                self.data@.len() == base.len(),
                forall|k: int|
                    0 <= k < base.len() ==> self.data@[k] == if offset <= k < offset + j {
                        bytes@[k - offset]
                    } else {
                        base[k]
                    },
            decreases bytes@.len() - j,
        {
            let at = offset as usize + j;
            self.data[at] = bytes[j];
            j = j + 1;
        }
        proof {
            assert(self.data@ =~= spec_write(base, offset as int, bytes@));
        }
        Ok(())
    }
}

/// Turns a claimed region of `mem` into an owned copy of its bytes, after
/// validating the claim with 32-bit arithmetic that must not silently wrap:
/// the range must lie fully inside the current memory.  This is the only
/// operation that hands guest memory to the host, and the only errors it can
/// raise are bounds errors.
pub fn slice_of(mem: &LinearMemory, offset: u32, length: u32) -> (r: Result<Vec<u8>, TrapError>)
    requires
        mem.wf(),
    ensures
        r is Ok <==> offset + length <= mem@.len(),
        r matches Ok(s) ==> s@ == mem@.subrange(offset as int, offset as int + length as int),
        r is Err ==> r == Err::<Vec<u8>, TrapError>(TrapError::OutOfBounds),
{
    let end: u64 = offset as u64 + length as u64;
    if end > mem.data.len() as u64 {
        return Err(TrapError::OutOfBounds);
    }
    let whole: &[u8] = mem.data.as_slice();
    let part: &[u8] = vstd::slice::slice_subrange(whole, offset as usize, end as usize);
    Ok(vstd::slice::slice_to_vec(part))
}

/// Turns a claimed region into bytes; see [`slice_of`].
pub fn slice_of_region(mem: &LinearMemory, r: Region) -> (res: Result<Vec<u8>, TrapError>)
    requires
        mem.wf(),
    ensures
        res is Ok <==> r.offset + r.length <= mem@.len(),
        res matches Ok(s) ==> s@ == mem@.subrange(r.offset as int, r.offset as int + r.length as int),
        res is Err ==> res == Err::<Vec<u8>, TrapError>(TrapError::OutOfBounds),
{
    slice_of(mem, r.offset, r.length)
}

/// The memory handle associated with an in-progress call, or
/// [`TrapError::NoMemoryExport`] when the guest instance exposes none.
pub fn memory_of(export: Option<&LinearMemory>) -> (r: Result<&LinearMemory, TrapError>)
    ensures
        r is Ok <==> export is Some,
        r matches Ok(m) ==> m == export.unwrap(),
        r is Err ==> r == Err::<&LinearMemory, TrapError>(TrapError::NoMemoryExport),
{
    match export {
        Some(m) => Ok(m),
        None => Err(TrapError::NoMemoryExport),
    }
}

} // verus!
