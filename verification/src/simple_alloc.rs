//! The page-frame bump allocator used while paging is set up: it hands out
//! the 4 KiB pages of `[next, end)` in order and skips reserved ones.
use vstd::prelude::*;
use crate::early::PhysFrame;
use crate::reserved::{ReservedTable, Resv, reserved_spec, is_reserved_page};

verus! {

/// The highest physical address plus one (52-bit physical addresses).
pub const PHYS_LIMIT: u64 = 0x0010_0000_0000_0000;

/// The bump pointer and the end of its range.
#[derive(Clone, Copy, Debug, PartialEq, Eq)]
pub struct TinyBump {
    pub next: u64,
    pub end: u64,
}

/// The allocator's range lies in the physical address space.
pub open spec fn bump_ok(b: TinyBump) -> bool {
    b.next <= PHYS_LIMIT && b.end <= PHYS_LIMIT
}

/// Taking a frame: the first page from `next` on that fits below `end` and
/// is not reserved, and where the bump pointer ends up.
pub open spec fn bump_scan(t: Seq<Resv>, next: u64, end: u64) -> (Option<u64>, u64)
    decreases end - next,
{
    if next + 0x1000 > end {
        (None, next)
    } else if reserved_spec(t, next, 0x1000) {
        bump_scan(t, (next + 0x1000) as u64, end)
    } else {
        (Some(next), (next + 0x1000) as u64)
    }
}

impl TinyBump {
    /// An allocator over `[start, end)`.
    pub fn new(start: u64, end: u64) -> (b: TinyBump)
        ensures
            b.next == start && b.end == end,
    {
        TinyBump { next: start, end }
    }

    /// Whole pages left between the pointer and the end.
    pub fn remaining_pages(&self) -> (n: usize)
        ensures
            n == if self.end <= self.next {
                0usize
            } else {
                ((self.end - self.next) / 0x1000) as usize
            },
    {
        if self.end <= self.next {
            0
        } else {
            ((self.end - self.next) / 0x1000) as usize
        }
    }

    /// Takes the next page that is not reserved (see `bump_scan`).
    pub fn allocate_frame(&mut self, resv: &ReservedTable) -> (r: Option<PhysFrame>)
        requires
            bump_ok(*old(self)),
        ensures
            bump_ok(*final(self)),
            final(self).end == old(self).end,
            ({
                let (f, n) = bump_scan(resv@, old(self).next, old(self).end);
                &&& final(self).next == n
                &&& r == match f {
                    Some(a) => Some(PhysFrame(a & !0xFFFu64)),
                    None => None::<PhysFrame>,
                }
            }),
    {
        while self.next + 0x1000 <= self.end
            invariant
                bump_ok(*self),
                self.end == old(self).end,
                bump_scan(resv@, old(self).next, old(self).end) == bump_scan(resv@, self.next, self.end),
            decreases self.end - self.next,
        {
            let cand = self.next;
            self.next = self.next.saturating_add(0x1000);
            if is_reserved_page(resv, cand) {
                continue;
            }
            return Some(PhysFrame(cand & !0xFFFu64));
        }
        None
    }
}

/// A frame taken from the allocator is not reserved, lies in the range the
/// pointer still covered, and the pointer moves past it; the next frame is
/// taken above it, so no frame is handed out twice.
pub proof fn lemma_bump_frame(t: Seq<Resv>, next: u64, end: u64)
    requires
        next <= PHYS_LIMIT,
        end <= PHYS_LIMIT,
    ensures
        bump_scan(t, next, end).0 matches Some(a) ==> {
            &&& next <= a
            &&& a + 0x1000 <= end
            &&& !reserved_spec(t, a, 0x1000)
            &&& bump_scan(t, next, end).1 == a + 0x1000
        },
        bump_scan(t, next, end).1 >= next,
    decreases end - next,
{
    if next + 0x1000 <= end && reserved_spec(t, next, 0x1000) {
        lemma_bump_frame(t, (next + 0x1000) as u64, end);
    }
}

} // verus!
