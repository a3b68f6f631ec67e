//! The size of the virtual machine's memory, as given on the command line.

use vstd::prelude::*;

verus! {

/// The number of 32-bit words in `kib` KiB of memory, kept to its low 32
/// bits: `(kib * 256) mod 2^32`.
pub fn memory_words(kib: u64) -> (words: usize)
    requires
        kib * 256 <= u64::MAX,
    ensures
        words == (kib * 256) % 0x1_0000_0000,
{
    let total: u64 = kib * 256;
    let low: u64 = total & 0xFFFF_FFFF;
    assert(total & 0xFFFF_FFFF == total % 0x1_0000_0000) by (bit_vector);
    low as usize
}

} // verus!
