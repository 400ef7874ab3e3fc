//! The early frame pool: a bump allocator over one seeded physical range,
//! handing out runs of 4 KiB frames.
use vstd::prelude::*;

verus! {

/// A 4 KiB physical frame, by its address.
#[derive(Clone, Copy, Debug, PartialEq, Eq)]
pub struct PhysFrame(pub u64);

/// A bump pointer over `[next, end)`; `next == 0` means not seeded.
pub struct TinyBump {
    next: u64,
    end: u64,
}

/// Allocating `bytes` from `[next, end)`: the frame at `next` and the new
/// bump pointer, or `None` when the pool is unseeded or too small.
pub open spec fn bump_take(next: u64, end: u64, bytes: u64) -> Option<(u64, u64)> {
    if next == 0 || next + bytes > end {
        None
    } else {
        Some((next, (next + bytes) as u64))
    }
}

impl TinyBump {
    pub closed spec fn next_spec(&self) -> u64 {
        self.next
    }

    pub closed spec fn end_spec(&self) -> u64 {
        self.end
    }

    /// An unseeded pool.
    pub fn new() -> (t: TinyBump)
        ensures
            t.next_spec() == 0,
            t.end_spec() == 0,
    {
        TinyBump { next: 0, end: 0 }
    }

    /// Seeds the pool with `[start_phys, end_phys)`; both ends are page aligned.
    pub fn seed(&mut self, start_phys: u64, end_phys: u64)
        requires
            start_phys % 0x1000 == 0,
            end_phys % 0x1000 == 0,
        ensures
            final(self).next_spec() == start_phys,
            final(self).end_spec() == end_phys,
    {
        self.next = start_phys;
        self.end = end_phys;
    }

    /// Takes `frames` consecutive frames.
    pub fn take_frames(&mut self, frames: usize) -> (r: Option<PhysFrame>)
        requires
            frames * 0x1000 <= u64::MAX,
            old(self).next_spec() == 0 || old(self).next_spec() + frames * 0x1000 <= u64::MAX,
        ensures
            final(self).end_spec() == old(self).end_spec(),
            match bump_take(old(self).next_spec(), old(self).end_spec(), (frames * 0x1000) as u64) {
                None => r is None && final(self).next_spec() == old(self).next_spec(),
                Some((f, n)) => r == Some(PhysFrame(f)) && final(self).next_spec() == n,
            },
    {
        let bytes = (frames as u64) * 0x1000;
        let cur = self.next;
        if cur == 0 || cur + bytes > self.end {
            return None;
        }
        self.next = cur + bytes;
        Some(PhysFrame(cur))
    }
}

/// Two allocations in a row from the pool do not overlap, and both lie
/// inside the seeded range.
pub proof fn lemma_bump_disjoint(next: u64, end: u64, b1: u64, b2: u64)
    requires
        bump_take(next, end, b1) is Some,
        bump_take(bump_take(next, end, b1)->Some_0.1, end, b2) is Some,
    ensures
        ({
            let (f1, n1) = bump_take(next, end, b1)->Some_0;
            let (f2, n2) = bump_take(n1, end, b2)->Some_0;
            &&& f1 + b1 <= f2
            &&& next <= f1
            &&& f2 + b2 <= end
        }),
{
}

/// Seeds the early pool.
pub fn early_seed(pool: &mut TinyBump, start_phys: u64, end_phys: u64)
    requires
        start_phys % 0x1000 == 0,
        end_phys % 0x1000 == 0,
    ensures
        final(pool).next_spec() == start_phys,
        final(pool).end_spec() == end_phys,
{
    pool.seed(start_phys, end_phys)
}

/// One frame from the early pool.
pub fn early_alloc_frame(pool: &mut TinyBump) -> (r: Option<PhysFrame>)
    requires
        old(pool).next_spec() == 0 || old(pool).next_spec() + 0x1000 <= u64::MAX,
    ensures
        final(pool).end_spec() == old(pool).end_spec(),
        match bump_take(old(pool).next_spec(), old(pool).end_spec(), 0x1000) {
            None => r is None && final(pool).next_spec() == old(pool).next_spec(),
            Some((f, n)) => r == Some(PhysFrame(f)) && final(pool).next_spec() == n,
        },
{
    pool.take_frames(1)
}

/// `n` consecutive frames from the early pool.
pub fn early_alloc_frames(pool: &mut TinyBump, n: usize) -> (r: Option<PhysFrame>)
    requires
        n * 0x1000 <= u64::MAX,
        old(pool).next_spec() == 0 || old(pool).next_spec() + n * 0x1000 <= u64::MAX,
    ensures
        final(pool).end_spec() == old(pool).end_spec(),
        match bump_take(old(pool).next_spec(), old(pool).end_spec(), (n * 0x1000) as u64) {
            None => r is None && final(pool).next_spec() == old(pool).next_spec(),
            Some((f, m)) => r == Some(PhysFrame(f)) && final(pool).next_spec() == m,
        },
{
    pool.take_frames(n)
}

/// One frame, through the early pool.
pub fn alloc_frame(pool: &mut TinyBump) -> (r: Option<PhysFrame>)
    requires
        old(pool).next_spec() == 0 || old(pool).next_spec() + 0x1000 <= u64::MAX,
    ensures
        final(pool).end_spec() == old(pool).end_spec(),
        match bump_take(old(pool).next_spec(), old(pool).end_spec(), 0x1000) {
            None => r is None && final(pool).next_spec() == old(pool).next_spec(),
            Some((f, n)) => r == Some(PhysFrame(f)) && final(pool).next_spec() == n,
        },
{
    early_alloc_frame(pool)
}

/// `n` consecutive frames, through the early pool.
pub fn alloc_frames(pool: &mut TinyBump, n: usize) -> (r: Option<PhysFrame>)
    requires
        n * 0x1000 <= u64::MAX,
        old(pool).next_spec() == 0 || old(pool).next_spec() + n * 0x1000 <= u64::MAX,
    ensures
        final(pool).end_spec() == old(pool).end_spec(),
        match bump_take(old(pool).next_spec(), old(pool).end_spec(), (n * 0x1000) as u64) {
            None => r is None && final(pool).next_spec() == old(pool).next_spec(),
            Some((f, m)) => r == Some(PhysFrame(f)) && final(pool).next_spec() == m,
        },
{
    early_alloc_frames(pool, n)
}

} // verus!
