//! The table of reserved physical ranges (firmware, kernel image,
//! framebuffer, MMIO, the AP trampoline) that the frame allocators skip.
use vstd::prelude::*;
use crate::bootinfo::{BootInfo, MemoryRegion};

verus! {

#[verifier::external_type_specification]
#[verifier::external_body]
#[verifier::reject_recursive_types(T)]
pub struct ExHeaplessVec<T, const N: usize>(heapless::Vec<T, N>);

/// What a reserved range holds.
#[derive(Clone, Copy, Debug, PartialEq, Eq)]
pub enum ResvKind {
    /// A firmware memory-map entry of this type.
    Firmware(u32),
    /// The kernel image.
    Kernel,
    /// The linear framebuffer.
    Framebuffer,
    /// Device MMIO.
    Mmio,
    /// The AP start-up trampoline.
    Trampoline,
    Other(u32),
}

/// A reserved physical range `[start, end)`.
#[derive(Clone, Copy, Debug, PartialEq, Eq)]
pub struct Resv {
    pub start: u64,
    pub end: u64,
    pub kind: ResvKind,
}

pub const MAX_RESV: usize = 128;

/// The ranges that a `heapless::Vec` of reserved ranges holds, in order.
pub uninterp spec fn resv_entries(v: heapless::Vec<Resv, 128>) -> Seq<Resv>;

/// `heapless::Vec::new`: an empty vector.
#[verifier::external_body]
fn resv_vec_new() -> (v: heapless::Vec<Resv, 128>)
    ensures
        resv_entries(v) == Seq::<Resv>::empty(),
{
    heapless::Vec::new()
}

/// `heapless::Vec::push`: appends the item when fewer than 128 are held and
/// answers whether it did; a full vector is left as it was.
#[verifier::external_body]
fn resv_vec_push(v: &mut heapless::Vec<Resv, 128>, item: Resv) -> (ok: bool)
    ensures
        ok == (resv_entries(*old(v)).len() < 128),
        resv_entries(*final(v)) == if ok { resv_entries(*old(v)).push(item) } else { resv_entries(*old(v)) },
{
    v.push(item).is_ok()
}

/// `heapless::Vec::len`: the number of items, at most 128.
#[verifier::external_body]
fn resv_vec_len(v: &heapless::Vec<Resv, 128>) -> (n: usize)
    ensures
        n == resv_entries(*v).len(),
        n <= 128,
{
    v.len()
}

/// `heapless::Vec::as_slice` and an index into it: the item at `i`.
#[verifier::external_body]
fn resv_vec_get(v: &heapless::Vec<Resv, 128>, i: usize) -> (r: Resv)
    requires
        i < resv_entries(*v).len(),
    ensures
        r == resv_entries(*v)[i as int],
{
    v.as_slice()[i]
}

/// `x` rounded down to a multiple of 4 KiB.
pub open spec fn page_down(x: u64) -> u64 {
    (x - x % 4096) as u64
}

/// `x` rounded up to a multiple of 4 KiB.
pub open spec fn page_up(x: u64) -> u64 {
    if x % 4096 == 0 { x } else { (x - x % 4096 + 4096) as u64 }
}

/// Rounds down to a multiple of 4 KiB.
pub fn align_down(x: u64) -> (r: u64)
    ensures
        r == page_down(x),
{
    assert(x & !0xFFFu64 == x - x % 4096) by (bit_vector);
    x & !0xFFF
}

/// Rounds up to a multiple of 4 KiB.
pub fn align_up(x: u64) -> (r: u64)
    requires
        x + 0xFFF <= u64::MAX,
    ensures
        r == page_up(x),
{
    let y = x + 0xFFF;
    assert(y & !0xFFFu64 == if x % 4096 == 0 { x } else { (x - x % 4096 + 4096) as u64 }) by (bit_vector)
        requires
            y == x + 0xFFFu64,
    ;
    y & !0xFFF
}

/// The table after reserving `[start, start + len)`: the range widened to
/// whole pages is appended unless it is empty or the table is full.
pub open spec fn reserve_spec(t: Seq<Resv>, start: u64, len: u64, kind: ResvKind) -> Seq<Resv> {
    if len == 0 || t.len() >= MAX_RESV {
        t
    } else {
        t.push(Resv { start: page_down(start), end: page_up((start + len) as u64), kind })
    }
}

/// Some page of `[phys, phys + len)` (widened to whole pages) is reserved.
pub open spec fn reserved_spec(t: Seq<Resv>, phys: u64, len: u64) -> bool {
    len != 0 && exists|i: int|
        0 <= i < t.len() && page_down(phys) < #[trigger] t[i].end && page_up((phys + len) as u64) > t[i].start
}

/// A range can be reserved and asked about without overflowing.
pub open spec fn range_ok(start: u64, len: u64) -> bool {
    start + len + 0xFFF <= u64::MAX
}

/// The reserved ranges.
pub struct ReservedTable {
    entries: heapless::Vec<Resv, 128>,
}

impl ReservedTable {
    pub closed spec fn view(&self) -> Seq<Resv> {
        resv_entries(self.entries)
    }

    /// An empty table.
    pub fn new() -> (t: ReservedTable)
        ensures
            t@ == Seq::<Resv>::empty(),
    {
        ReservedTable { entries: resv_vec_new() }
    }
}

/// Empties the table.
pub fn reset(t: &mut ReservedTable)
    ensures
        final(t)@ == Seq::<Resv>::empty(),
{
    t.entries = resv_vec_new();
}

/// Reserves `[start, start + len)`, widened to whole pages. An empty range
/// is accepted and changes nothing; `false` when the table is full.
pub fn reserve_range(t: &mut ReservedTable, start: u64, len: u64, kind: ResvKind) -> (ok: bool)
    requires
        len == 0 || range_ok(start, len),
    ensures
        final(t)@ == reserve_spec(old(t)@, start, len, kind),
        ok == (len == 0 || old(t)@.len() < MAX_RESV),
{
    if len == 0 {
        return true;
    }
    let s = align_down(start);
    let e = align_up(start + len);
    resv_vec_push(&mut t.entries, Resv { start: s, end: e, kind })
}

/// Whether any page of `[phys, phys + len)` is reserved.
pub fn is_reserved_range(t: &ReservedTable, phys: u64, len: u64) -> (r: bool)
    requires
        len == 0 || range_ok(phys, len),
    ensures
        r == reserved_spec(t@, phys, len),
{
    if len == 0 {
        return false;
    }
    let s = align_down(phys);
    let e = align_up(phys + len);
    let n = resv_vec_len(&t.entries);
    let mut i: usize = 0;
    while i < n
        invariant
            i <= n,
            n == t@.len(),
            len != 0,
            range_ok(phys, len),
            s == page_down(phys),
            e == page_up((phys + len) as u64),
            forall|j: int| 0 <= j < i ==> !(s < #[trigger] t@[j].end && e > t@[j].start),
        decreases n - i,
    {
        let r = resv_vec_get(&t.entries, i);
        if s < r.end && e > r.start {
            assert(page_down(phys) < t@[i as int].end && page_up((phys + len) as u64) > t@[i as int].start);
            return true;
        }
        i = i + 1;
    }
    false
}

/// Whether the 4 KiB page at `phys` is reserved.
pub fn is_reserved_page(t: &ReservedTable, phys: u64) -> (r: bool)
    requires
        range_ok(phys, 0x1000),
    ensures
        r == reserved_spec(t@, phys, 0x1000),
{
    is_reserved_range(t, phys, 0x1000)
}

/// A range that was reserved reads back as reserved, as does any range that
/// overlaps it.
pub proof fn lemma_reserved_reads_back(t: Seq<Resv>, start: u64, len: u64, kind: ResvKind, phys: u64, plen: u64)
    requires
        range_ok(start, len),
        range_ok(phys, plen),
        len > 0,
        plen > 0,
        t.len() < MAX_RESV,
        phys < start + len,
        start < phys + plen,
    ensures
        reserved_spec(reserve_spec(t, start, len, kind), phys, plen),
{
    let t2 = reserve_spec(t, start, len, kind);
    assert(t2[t.len() as int].start == page_down(start));
    assert(page_down(phys) < t2[t.len() as int].end);
}

/// Reserving never forgets an earlier reservation.
pub proof fn lemma_reserve_keeps(t: Seq<Resv>, start: u64, len: u64, kind: ResvKind, phys: u64, plen: u64)
    requires
        reserved_spec(t, phys, plen),
    ensures
        reserved_spec(reserve_spec(t, start, len, kind), phys, plen),
{
    let t2 = reserve_spec(t, start, len, kind);
    let i = choose|i: int| 0 <= i < t.len() && page_down(phys) < #[trigger] t[i].end && page_up((phys + plen) as u64) > t[i].start;
    assert(t2[i] == t[i]);
}

/// The firmware entries that `init` reserves: every entry that is not usable
/// RAM and does not overlap the low pool `[lo, hi)`.
pub open spec fn reserve_map(t: Seq<Resv>, map: Seq<MemoryRegion>, lo: u64, hi: u64) -> Seq<Resv>
    decreases map.len(),
{
    if map.len() == 0 {
        t
    } else {
        let t1 = reserve_map(t, map.drop_last(), lo, hi);
        let mr = map.last();
        let mr_hi = if mr.phys_start + mr.len <= u64::MAX { (mr.phys_start + mr.len) as u64 } else { u64::MAX };
        let overlaps = !(mr_hi <= lo || mr.phys_start >= hi);
        if mr.typ != 1 && !overlaps {
            reserve_spec(t1, mr.phys_start, mr.len, ResvKind::Firmware(mr.typ))
        } else {
            t1
        }
    }
}

/// The boot information can be reserved without overflow.
pub open spec fn boot_ranges_ok(b: &BootInfo, kernel_size: u64) -> bool {
    &&& b.low32_pool_paddr + b.low32_pool_len <= u64::MAX
    &&& forall|i: int|
        0 <= i < b.memory_map@.len() && #[trigger] b.memory_map@[i].typ != 1 && b.memory_map@[i].len != 0
            ==> range_ok(b.memory_map@[i].phys_start, b.memory_map@[i].len)
    &&& (b.framebuffer.addr != 0 && b.framebuffer.pitch != 0 && b.framebuffer.height != 0) ==> range_ok(
        b.framebuffer.addr,
        (b.framebuffer.pitch * b.framebuffer.height) as u64,
    )
    &&& range_ok(0, b.low32_pool_paddr)
    &&& b.early_heap_paddr + b.early_heap_len + 0x10_0000 + 0xFFF <= u64::MAX
    &&& kernel_size == 0 || range_ok(b.kernel_phys_base, kernel_size)
}

/// What `init` leaves in the table.
pub open spec fn init_spec(b: &BootInfo, kernel_size: u64) -> Seq<Resv> {
    let lo = b.low32_pool_paddr;
    let hi = (b.low32_pool_paddr + b.low32_pool_len) as u64;
    let t0 = reserve_map(Seq::empty(), b.memory_map@, lo, hi);
    let fb = b.framebuffer;
    let t1 = if fb.addr != 0 && fb.pitch != 0 {
        reserve_spec(t0, fb.addr, (fb.pitch * fb.height) as u64, ResvKind::Framebuffer)
    } else {
        t0
    };
    let t2 = reserve_spec(t1, 0, lo, ResvKind::Firmware(0));
    let t3 = reserve_spec(t2, (b.early_heap_paddr + b.early_heap_len) as u64, 0x10_0000, ResvKind::Firmware(0));
    let t4 = reserve_spec(t3, 0x8000, 0x1000, ResvKind::Trampoline);
    let t5 = reserve_spec(t4, 0xFEE0_0000, 0x1000, ResvKind::Mmio);
    let t6 = reserve_spec(t5, 0xFEC0_0000, 0x1000, ResvKind::Mmio);
    reserve_spec(t6, b.kernel_phys_base, kernel_size, ResvKind::Kernel)
}

/// Fills the table from the boot information: firmware-owned memory outside
/// the low pool, the framebuffer, the memory below the low pool, the
/// megabyte after the early heap, the AP trampoline, the local and I/O APIC
/// pages, and the kernel image of `kernel_size` bytes.
pub fn init(t: &mut ReservedTable, b: &BootInfo, kernel_size: u64)
    requires
        boot_ranges_ok(b, kernel_size),
    ensures
        final(t)@ == init_spec(b, kernel_size),
{
    reset(t);
    let l32_lo = b.low32_pool_paddr;
    let l32_hi = l32_lo + b.low32_pool_len;
    let mut i: usize = 0;
    while i < b.memory_map.len()
        invariant
            i <= b.memory_map@.len(),
            boot_ranges_ok(b, kernel_size),
            l32_lo == b.low32_pool_paddr,
            l32_hi == b.low32_pool_paddr + b.low32_pool_len,
            t@ == reserve_map(Seq::empty(), b.memory_map@.subrange(0, i as int), l32_lo, l32_hi),
        decreases b.memory_map@.len() - i,
    {
        let mr = b.memory_map[i];
        let mr_lo = mr.phys_start;
        let mr_hi = mr.phys_start.saturating_add(mr.len);
        let overlaps_low32 = !(mr_hi <= l32_lo || mr_lo >= l32_hi);
        assert(b.memory_map@.subrange(0, i + 1).drop_last() =~= b.memory_map@.subrange(0, i as int));
        if mr.typ != 1 && !overlaps_low32 {
            let _ = reserve_range(t, mr.phys_start, mr.len, ResvKind::Firmware(mr.typ));
        }
        i = i + 1;
    }
    assert(b.memory_map@.subrange(0, b.memory_map@.len() as int) =~= b.memory_map@);
    let fb = b.framebuffer;
    if fb.addr != 0 && fb.pitch != 0 {
        assert((fb.pitch as u64) * (fb.height as u64) <= 0xFFFF_FFFF * 0xFFFF_FFFF) by (nonlinear_arith);
        let fb_len = (fb.pitch as u64) * (fb.height as u64);
        assert(fb.height == 0 ==> fb_len == 0) by (nonlinear_arith)
            requires
                fb_len == (fb.pitch as u64) * (fb.height as u64),
        ;
        let _ = reserve_range(t, fb.addr, fb_len, ResvKind::Framebuffer);
    }
    let _ = reserve_range(t, 0, b.low32_pool_paddr, ResvKind::Firmware(0));
    let _ = reserve_range(t, b.early_heap_paddr + b.early_heap_len, 0x10_0000, ResvKind::Firmware(0));
    let _ = reserve_range(t, 0x8000, 0x1000, ResvKind::Trampoline);
    let _ = reserve_range(t, 0xFEE0_0000, 0x1000, ResvKind::Mmio);
    let _ = reserve_range(t, 0xFEC0_0000, 0x1000, ResvKind::Mmio);
    let _ = reserve_range(t, b.kernel_phys_base, kernel_size, ResvKind::Kernel);
}

} // verus!
