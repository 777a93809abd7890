//! Bounds behaviour of the memory view: every decode path goes through
//! `slice_of`, so its accept/reject line is checked exactly.

use hostcall::errors::TrapError;
use hostcall::memory::{memory_of, slice_of, slice_of_region, LinearMemory, Region};

fn patterned(size: u32) -> LinearMemory {
    let mut mem = LinearMemory::new(size);
    let bytes: Vec<u8> = (0..size as usize).map(|i| (i % 251) as u8).collect();
    mem.write(0, &bytes).unwrap();
    mem
}

#[test]
fn slice_inside_bounds_returns_exact_bytes() {
    let mem = patterned(64);
    let s = slice_of(&mem, 10, 20).unwrap();
    assert_eq!(s.len(), 20);
    for (k, b) in s.iter().enumerate() {
        assert_eq!(*b, ((10 + k) % 251) as u8);
    }
}

#[test]
fn slice_at_exact_end_is_ok() {
    let mem = patterned(64);
    let s = slice_of(&mem, 60, 4).unwrap();
    assert_eq!(s, vec![60, 61, 62, 63]);
    let whole = slice_of(&mem, 0, 64).unwrap();
    assert_eq!(whole.len(), 64);
    let empty = slice_of(&mem, 64, 0).unwrap();
    assert_eq!(empty.len(), 0);
}

#[test]
fn slice_past_end_is_out_of_bounds() {
    let mem = patterned(64);
    assert_eq!(slice_of(&mem, 60, 5), Err(TrapError::OutOfBounds));
    assert_eq!(slice_of(&mem, 64, 1), Err(TrapError::OutOfBounds));
    assert_eq!(slice_of(&mem, 65, 0), Err(TrapError::OutOfBounds));
}

#[test]
fn slice_with_32_bit_wraparound_is_out_of_bounds() {
    // offset + length wraps a 32-bit accumulator; the check must not.
    let mem = patterned(64);
    assert_eq!(slice_of(&mem, u32::MAX, 2), Err(TrapError::OutOfBounds));
    assert_eq!(slice_of(&mem, 0xffff_fff0, 0x20), Err(TrapError::OutOfBounds));
    assert_eq!(slice_of(&mem, u32::MAX, u32::MAX), Err(TrapError::OutOfBounds));
}

#[test]
fn write_rejects_out_of_range_without_touching_memory() {
    let mut mem = LinearMemory::new(8);
    assert_eq!(mem.write(6, &[1, 2, 3]), Err(TrapError::OutOfBounds));
    assert_eq!(slice_of(&mem, 0, 8).unwrap(), vec![0; 8]);
    assert_eq!(mem.write(6, &[1, 2]), Ok(()));
    assert_eq!(slice_of(&mem, 0, 8).unwrap(), vec![0, 0, 0, 0, 0, 0, 1, 2]);
}

#[test]
fn grow_appends_zeroed_bytes() {
    let mut mem = LinearMemory::new(4);
    mem.write(0, &[9, 9, 9, 9]).unwrap();
    assert_eq!(mem.grow(4), Ok(()));
    assert_eq!(mem.size(), 8);
    assert_eq!(slice_of(&mem, 0, 8).unwrap(), vec![9, 9, 9, 9, 0, 0, 0, 0]);
}

#[test]
fn a_region_is_just_a_claim_until_validated() {
    let mem = patterned(32);
    let good = Region { offset: 8, length: 8 };
    assert_eq!(slice_of_region(&mem, good), slice_of(&mem, 8, 8));
    let bad = Region { offset: 30, length: 8 };
    assert_eq!(slice_of_region(&mem, bad), Err(TrapError::OutOfBounds));
}

#[test]
fn memory_of_requires_an_exported_memory() {
    let mem = LinearMemory::new(4);
    assert!(memory_of(Some(&mem)).is_ok());
    assert_eq!(memory_of(None).err(), Some(TrapError::NoMemoryExport));
}
