//! The page-fault report's walk of the page tables for the faulting
//! address: which entry to read at each level, and when to stop (an entry
//! not present, or a large page). The caller reads the entries.
use vstd::prelude::*;

verus! {

proof fn lemma_walk_bits(e: u64, va: u64)
    by (bit_vector)
    ensures
        e & !0xfffu64 <= 0xFFFF_FFFF_FFFF_F000u64,
        (va >> 39u64) & 0x1ff <= 0x1ff,
        (va >> 30u64) & 0x1ff <= 0x1ff,
        (va >> 21u64) & 0x1ff <= 0x1ff,
        (va >> 12u64) & 0x1ff <= 0x1ff,
{
}

/// Where the walk reads the top-level entry for `va`, given CR3.
pub fn first_read(cr3: u64, va: u64) -> (a: u64)
    ensures
        a == ((cr3 & !0xfffu64) + 8 * ((va >> 39u64) & 0x1ff)) as u64,
{
    proof {
        lemma_walk_bits(cr3, va);
    }
    (cr3 & !0xfffu64) + 8 * ((va >> 39u64) & 0x1ff)
}

/// After reading entry `e` at `level` (0 = PML4, 1 = PDPT, 2 = PD), where
/// to read the next level's entry: only when `e` is present and, below the
/// top level, not a large page. The entries not read are reported as 0.
pub fn next_read(va: u64, level: u8, e: u64) -> (r: Option<u64>)
    requires
        level < 3,
    ensures
        ({
            let go = e & 1 != 0 && (level == 0 || e & 0x80 == 0);
            let idx = if level == 0 {
                (va >> 30u64) & 0x1ff
            } else if level == 1 {
                (va >> 21u64) & 0x1ff
            } else {
                (va >> 12u64) & 0x1ff
            };
            r == if go {
                Some(((e & !0xfffu64) + 8 * idx) as u64)
            } else {
                None::<u64>
            }
        }),
{
    let go = e & 1 != 0 && (level == 0 || e & 0x80 == 0);
    if !go {
        return None;
    }
    let idx = if level == 0 {
        (va >> 30u64) & 0x1ff
    } else if level == 1 {
        (va >> 21u64) & 0x1ff
    } else {
        (va >> 12u64) & 0x1ff
    };
    proof {
        lemma_walk_bits(e, va);
    }
    Some((e & !0xfffu64) + 8 * idx)
}

} // verus!
