//! The bump heap behind the boot-time global allocator: it hands out
//! aligned blocks from `[start, end)` in order and never frees.
use vstd::prelude::*;

verus! {

/// The heap's range and its bump pointer.
#[derive(Clone, Copy, Debug, PartialEq, Eq)]
pub struct Bump {
    pub start: usize,
    pub end: usize,
    pub next: usize,
}

/// The heap, once set up.
pub struct BumpHeap {
    pub inner: Option<Bump>,
}

/// Where a block of `size` bytes aligned to `align` goes: the bump pointer
/// rounded up to the alignment; the block fits when it ends by `end` (the
/// end saturates rather than wraps).
pub open spec fn place(b: Bump, size: usize, align: usize) -> Option<(usize, usize)> {
    let at = ((b.next + (align - 1)) as usize) & !((align - 1) as usize);
    let stop = if at + size > usize::MAX {
        usize::MAX
    } else {
        (at + size) as usize
    };
    if stop <= b.end {
        Some((at, stop))
    } else {
        None
    }
}

/// An alignment a layout can have.
pub open spec fn align_ok(align: usize) -> bool {
    align >= 1 && align & ((align - 1) as usize) == 0
}

impl BumpHeap {
    /// No heap yet: every allocation fails.
    pub fn new() -> (h: BumpHeap)
        ensures
            h.inner is None,
    {
        BumpHeap { inner: None }
    }

    /// Sets the heap to the `len` bytes at `paddr`.
    pub fn init(&mut self, paddr: usize, len: usize)
        requires
            paddr + len <= usize::MAX,
        ensures
            final(self).inner == Some(Bump { start: paddr, end: (paddr + len) as usize, next: paddr }),
    {
        self.inner = Some(Bump { start: paddr, end: paddr + len, next: paddr });
    }

    /// A block of `size` bytes aligned to `align` (see `place`); 0 (the null
    /// pointer) when there is no heap or no room.
    pub fn alloc_block(&mut self, size: usize, align: usize) -> (p: usize)
        requires
            align_ok(align),
            old(self).inner matches Some(b) ==> b.next + (align - 1) <= usize::MAX,
        ensures
            match old(self).inner {
                None => p == 0 && final(self).inner is None,
                Some(b) => match place(b, size, align) {
                    Some((at, stop)) => p == at && final(self).inner == Some(Bump { next: stop, ..b }),
                    None => p == 0 && final(self).inner == Some(b),
                },
            },
    {
        match self.inner {
            Some(b) => {
                let next = (b.next + (align - 1)) & !(align - 1);
                let end = next.saturating_add(size);
                if end <= b.end {
                    self.inner = Some(Bump { next: end, ..b });
                    return next;
                }
                0
            },
            None => 0,
        }
    }

    /// Freeing does nothing.
    pub fn dealloc(&mut self, _ptr: usize, _size: usize, _align: usize)
        ensures
            final(self).inner == old(self).inner,
    {
    }
}

/// Sets up the heap (the global allocator's `init`).
pub fn init(heap: &mut BumpHeap, paddr: usize, len: usize)
    requires
        paddr + len <= usize::MAX,
    ensures
        final(heap).inner == Some(Bump { start: paddr, end: (paddr + len) as usize, next: paddr }),
{
    heap.init(paddr, len)
}

/// A block handed out is aligned, lies inside the heap from the old bump
/// pointer on, and the pointer moves past it, so the next block cannot
/// overlap it.
pub proof fn lemma_place(b: Bump, size: usize, align: usize)
    requires
        align_ok(align),
        b.next + (align - 1) <= usize::MAX,
    ensures
        place(b, size, align) matches Some((at, stop)) ==> {
            &&& at & ((align - 1) as usize) == 0
            &&& b.next <= at
            &&& at + size <= usize::MAX ==> at + size == stop
            &&& stop <= b.end
        },
{
    let a = align;
    let x = (b.next + (a - 1)) as usize;
    let m = (a - 1) as usize;
    assert((x & !m) & m == 0 && (x & !m) <= x && x - (x & !m) == x & m && x & m <= m) by (bit_vector);
}

} // verus!
