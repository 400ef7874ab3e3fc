//! The boot frame pool seeded from the boot information: a bump pointer
//! that refuses, rather than wraps, on overflow.
use vstd::prelude::*;
use crate::bootinfo::BootInfo;
use crate::early::PhysFrame;

verus! {

/// The pool `[next, end)`; `next == 0` means not seeded.
pub struct EarlyPool {
    next: u64,
    end: u64,
}

/// Taking `bytes` from `[next, end)`, refusing when unseeded, when the sum
/// overflows, or when it passes `end`.
pub open spec fn pool_take(next: u64, end: u64, bytes: u64) -> Option<(u64, u64)> {
    if next == 0 || next + bytes > u64::MAX || next + bytes > end {
        None
    } else {
        Some((next, (next + bytes) as u64))
    }
}

/// Whether `x` is a multiple of 4 KiB.
pub fn is_page_aligned(x: u64) -> (r: bool)
    ensures
        r == (x % 4096 == 0),
{
    assert(x & 0xFFFu64 == x % 4096) by (bit_vector);
    (x & 0xfff) == 0
}

/// The range that seeds the pool: for now the fixed window 48 MiB..56 MiB,
/// whatever the memory map says.
pub fn choose_early_pool_from_bootinfo(_boot: &BootInfo) -> (r: (u64, u64))
    ensures
        r == (0x0030_0000u64, 0x0038_0000u64),
{
    (0x0030_0000u64, 0x0038_0000u64)
}

impl EarlyPool {
    pub closed spec fn next_spec(&self) -> u64 {
        self.next
    }

    pub closed spec fn end_spec(&self) -> u64 {
        self.end
    }

    /// An unseeded pool.
    pub fn new() -> (p: EarlyPool)
        ensures
            p.next_spec() == 0,
            p.end_spec() == 0,
    {
        EarlyPool { next: 0, end: 0 }
    }
}

/// Seeds the pool from the boot information.
pub fn early_init_from_bootinfo(pool: &mut EarlyPool, boot: &BootInfo)
    ensures
        final(pool).next_spec() == 0x0030_0000,
        final(pool).end_spec() == 0x0038_0000,
{
    let (start, end) = choose_early_pool_from_bootinfo(boot);
    pool.next = start;
    pool.end = end;
}

/// `n` consecutive frames.
pub fn alloc_frames(pool: &mut EarlyPool, n: usize) -> (r: Option<PhysFrame>)
    requires
        n * 0x1000 <= u64::MAX,
    ensures
        final(pool).end_spec() == old(pool).end_spec(),
        match pool_take(old(pool).next_spec(), old(pool).end_spec(), (n * 0x1000) as u64) {
            None => r is None && final(pool).next_spec() == old(pool).next_spec(),
            Some((f, m)) => r == Some(PhysFrame(f)) && final(pool).next_spec() == m,
        },
{
    let bytes = (n as u64) * 0x1000;
    let cur = pool.next;
    let end = pool.end;
    if cur == 0 {
        return None;
    }
    let top = match cur.checked_add(bytes) {
        Some(t) => t,
        None => return None,
    };
    if top > end {
        return None;
    }
    pool.next = top;
    Some(PhysFrame(cur))
}

/// One frame.
pub fn alloc_frame(pool: &mut EarlyPool) -> (r: Option<PhysFrame>)
    ensures
        final(pool).end_spec() == old(pool).end_spec(),
        match pool_take(old(pool).next_spec(), old(pool).end_spec(), 0x1000) {
            None => r is None && final(pool).next_spec() == old(pool).next_spec(),
            Some((f, m)) => r == Some(PhysFrame(f)) && final(pool).next_spec() == m,
        },
{
    alloc_frames(pool, 1)
}

/// The heap is set up elsewhere; this step does nothing.
pub fn heap_init() {
}

} // verus!
