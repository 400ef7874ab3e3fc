//! Replacing one 2 MiB identity mapping by 512 4 KiB mappings of the same
//! range, so that single pages can then be remapped.
use vstd::prelude::*;

verus! {

/// Bytes in a 2 MiB page.
pub const HUGE: u64 = 0x20_0000;
/// Bytes in a 4 KiB page.
pub const SMALL: u64 = 0x1000;
/// Present, writable and global: write-back memory.
pub const SPLIT_FLAGS: u64 = 0x1 | 0x2 | 0x100;

/// The 4 KiB pages that replace the 2 MiB page holding `addr`: the `i`-th
/// maps virtual `base + i * 4096` to the same physical address.
pub open spec fn split_spec(addr: u64) -> Seq<(u64, u64)> {
    let base = addr - addr % HUGE;
    Seq::new(512, |i: int| ((base + i * SMALL) as u64, (base + i * SMALL) as u64))
}

/// The (virtual, physical) pairs, in order, that a split of the 2 MiB page
/// holding `addr` maps, each with [`SPLIT_FLAGS`].
pub fn split_huge_2m(addr: u64) -> (pages: Vec<(u64, u64)>)
    ensures
        pages@ == split_spec(addr),
{
    assert(addr & !0x1F_FFFFu64 == addr - addr % 0x20_0000 && (addr & !0x1F_FFFFu64) + 511 * 0x1000
        <= u64::MAX) by (bit_vector);
    let base: u64 = addr & !0x1F_FFFFu64;
    let mut pages: Vec<(u64, u64)> = Vec::new();
    let mut i: u64 = 0;
    while i < 512
        invariant
            base == addr - addr % HUGE,
            base + 511 * SMALL <= u64::MAX,
            i <= 512,
            pages@.len() == i,
            forall|k: int| 0 <= k < i ==> pages@[k] == split_spec(addr)[k],
        decreases 512 - i,
    {
        let a = base + i * SMALL;
        pages.push((a, a));
        i = i + 1;
    }
    assert(pages@ =~= split_spec(addr));
    pages
}

} // verus!
