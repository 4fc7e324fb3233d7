//! Little-endian integers as they lie in a sequence of bytes.

use vstd::prelude::*;

verus! {

/// The 32-bit value whose four bytes start at `at`, least significant first.
pub open spec fn le_u32(data: Seq<u8>, at: int) -> u32 {
    (data[at] as int + data[at + 1] as int * 0x100 + data[at + 2] as int * 0x1_0000 + data[at
        + 3] as int * 0x100_0000) as u32
}

/// The 64-bit value whose eight bytes start at `at`, least significant first.
pub open spec fn le_u64(data: Seq<u8>, at: int) -> u64 {
    (le_u32(data, at) as int + le_u32(data, at + 4) as int * 0x1_0000_0000) as u64
}

/// A slice is no longer than `usize` can count.
pub(crate) proof fn lemma_len_fits(data: &[u8])
    ensures
        data@.len() <= usize::MAX,
{
    vstd::slice::axiom_spec_len(data);
}

/// Reads the 32-bit value at `at`.
pub(crate) fn read_u32(data: &[u8], at: usize) -> (value: u32)
    requires
        at + 4 <= data@.len(),
    ensures
        value == le_u32(data@, at as int),
{
    let b0: u32 = data[at] as u32;
    let b1: u32 = data[at + 1] as u32;
    let b2: u32 = data[at + 2] as u32;
    let b3: u32 = data[at + 3] as u32;
    b0 + b1 * 0x100 + b2 * 0x1_0000 + b3 * 0x100_0000
}

/// Reads the 64-bit value at `at`.
pub(crate) fn read_u64(data: &[u8], at: usize) -> (value: u64)
    requires
        at + 8 <= data@.len(),
    ensures
        value == le_u64(data@, at as int),
{
    proof {
        lemma_len_fits(data);
    }
    let low: u64 = read_u32(data, at) as u64;
    let high: u64 = read_u32(data, at + 4) as u64;
    low + high * 0x1_0000_0000
}

} // verus!
