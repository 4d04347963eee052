//! Big-endian 32-bit words, as the IDX headers hold them.

use vstd::prelude::*;

verus! {

/// Number of bytes in one header field.
pub const WORD_LEN: usize = 4;

/// The value of the four bytes of `bytes` that start at `at`, most significant
/// byte first.
pub open spec fn be_u32(bytes: Seq<u8>, at: int) -> u32
    recommends
        0 <= at,
        at + WORD_LEN <= bytes.len(),
{
    (bytes[at] * 0x100_0000 + bytes[at + 1] * 0x1_0000 + bytes[at + 2] * 0x100
        + bytes[at + 3]) as u32
}

/// Reads the big-endian word that starts at `at`.
pub fn read_be_u32(bytes: &[u8], at: usize) -> (word: u32)
    requires
        at + WORD_LEN <= bytes@.len(),
    ensures
        word == be_u32(bytes@, at as int),
{
    let b0: u32 = bytes[at] as u32;
    let b1: u32 = bytes[at + 1] as u32;
    let b2: u32 = bytes[at + 2] as u32;
    let b3: u32 = bytes[at + 3] as u32;
    b0 * 0x100_0000 + b1 * 0x1_0000 + b2 * 0x100 + b3
}

} // verus!
