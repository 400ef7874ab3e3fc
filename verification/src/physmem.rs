//! Physical memory bookkeeping: the frame allocators set up from the boot
//! information, the list of usable RAM ranges that backs them once they
//! run dry, and the virtual windows for MMIO and anonymous mappings. The
//! page-table writes themselves are done by the caller, one page at a time,
//! with the frames and addresses decided here.
use vstd::prelude::*;
use crate::bootinfo::{BootInfo, MemoryRegion, USABLE_RAM};
use crate::early::PhysFrame;
use crate::reserved::{ReservedTable, Resv, reserved_spec, is_reserved_page};
use crate::simple_alloc::{TinyBump, bump_ok, bump_scan, PHYS_LIMIT};

verus! {

pub const PAGE_SIZE: usize = 4096;

/// Base of the window for anonymous mappings.
pub const VMAP_BASE: u64 = 0xffff_e000_0000_0000;

/// Base of the kernel heap window.
pub const KHEAP_START: u64 = 0xffff_c000_0000_0000;

/// Size of the kernel heap window.
pub const KHEAP_SIZE: usize = 33554432;

/// Base of the MMIO window.
pub const MMIO_BASE: u64 = 0xffff_d000_0000_0000;

/// Capacity of the usable-range list.
pub const MAX_USABLE: usize = 256;

/// The ranges `[start, end)` that a `heapless::Vec` of usable ranges holds.
pub uninterp spec fn usable_entries(v: heapless::Vec<(u64, u64), 256>) -> Seq<(u64, u64)>;

/// `heapless::Vec::new`: an empty vector.
#[verifier::external_body]
fn usable_vec_new() -> (v: heapless::Vec<(u64, u64), 256>)
    ensures
        usable_entries(v) == Seq::<(u64, u64)>::empty(),
{
    heapless::Vec::new()
}

/// `heapless::Vec::push`: appends the item when fewer than 256 are held and
/// answers whether it did; a full vector is left as it was.
#[verifier::external_body]
fn usable_vec_push(v: &mut heapless::Vec<(u64, u64), 256>, item: (u64, u64)) -> (ok: bool)
    ensures
        ok == (usable_entries(*old(v)).len() < 256),
        usable_entries(*final(v)) == if ok {
            usable_entries(*old(v)).push(item)
        } else {
            usable_entries(*old(v))
        },
{
    v.push(item).is_ok()
}

/// `heapless::Vec::pop`: removes and returns the last item, if any. The
/// vector never holds more than its capacity.
#[verifier::external_body]
fn usable_vec_pop(v: &mut heapless::Vec<(u64, u64), 256>) -> (r: Option<(u64, u64)>)
    ensures
        usable_entries(*old(v)).len() <= 256,
        usable_entries(*old(v)).len() == 0 ==> r is None && usable_entries(*final(v)) == usable_entries(
            *old(v),
        ),
        usable_entries(*old(v)).len() > 0 ==> r == Some(usable_entries(*old(v)).last())
            && usable_entries(*final(v)) == usable_entries(*old(v)).drop_last(),
{
    v.pop()
}

/// The usable RAM ranges, taken from the back.
pub struct UsableList {
    entries: heapless::Vec<(u64, u64), 256>,
}

impl UsableList {
    pub closed spec fn view(&self) -> Seq<(u64, u64)> {
        usable_entries(self.entries)
    }

    /// An empty list.
    pub fn new() -> (l: UsableList)
        ensures
            l@ == Seq::<(u64, u64)>::empty(),
    {
        UsableList { entries: usable_vec_new() }
    }
}

/// What the memory code keeps: the direct-map offset, the two frame
/// allocators, the next free addresses of the two windows and whether the
/// heap is up.
pub struct MemState {
    pub phys_to_virt: u64,
    pub frame_alloc: Option<TinyBump>,
    pub low32: Option<TinyBump>,
    pub next_vmap: u64,
    pub next_mmio: u64,
    pub heap_ready: bool,
}

/// Keeps bits 0..=51, the physical address bits.
pub open spec fn pa_mask_spec(x: u64) -> u64 {
    x & 0x000F_FFFF_FFFF_FFFFu64
}

/// Keeps bits 0..=51, the physical address bits.
pub fn pa_mask_52(x: u64) -> (r: u64)
    ensures
        r == pa_mask_spec(x),
        r < PHYS_LIMIT,
{
    assert(x & 0x000F_FFFF_FFFF_FFFFu64 < 0x0010_0000_0000_0000u64) by (bit_vector);
    x & 0x000F_FFFF_FFFF_FFFFu64
}

/// `x` rounded down to a multiple of the power of two `a`.
pub fn align_down(x: u64, a: u64) -> (r: u64)
    requires
        a > 0,
    ensures
        r == x & !((a - 1) as u64),
{
    x & !(a - 1)
}

/// `x` rounded up to a multiple of the power of two `a`.
pub fn align_up(x: u64, a: u64) -> (r: u64)
    requires
        a > 0,
        x + (a - 1) <= u64::MAX,
    ensures
        r == ((x + (a - 1)) as u64) & !((a - 1) as u64),
{
    (x + (a - 1)) & !(a - 1)
}

/// The boot information's pools fit in the address space.
pub open spec fn boot_pools_ok(boot: &BootInfo) -> bool {
    &&& boot.early_heap_paddr + boot.early_heap_len + 0xFFF <= u64::MAX
    &&& boot.low32_pool_len >= 0x1000 ==> boot.low32_pool_paddr + boot.low32_pool_len + 0xFFF
        <= u64::MAX
}

/// A pool `[paddr, paddr + len)` widened to whole pages.
pub open spec fn pool_of(paddr: u64, len: u64) -> TinyBump {
    TinyBump {
        next: paddr & !0xFFFu64,
        end: (((paddr + len) as u64 + 0xFFF) as u64) & !0xFFFu64,
    }
}

/// Sets up memory from the boot information: the direct-map offset (which
/// must be page aligned; `None` otherwise, and the caller halts), the frame
/// pool over the early heap, and the low pool where the loader gave one of
/// at least a page.
pub fn init(boot: &BootInfo) -> (r: Option<MemState>)
    requires
        boot_pools_ok(boot),
    ensures
        (boot.hhdm_base & 0xFFF != 0) ==> r is None,
        (boot.hhdm_base & 0xFFF == 0) ==> (r matches Some(m) && m.phys_to_virt == boot.hhdm_base
            && m.frame_alloc == Some(pool_of(boot.early_heap_paddr, boot.early_heap_len)) && m.low32
            == if boot.low32_pool_len >= 0x1000 {
            Some(pool_of(boot.low32_pool_paddr, boot.low32_pool_len))
        } else {
            None::<TinyBump>
        } && m.next_vmap == VMAP_BASE && m.next_mmio == MMIO_BASE && !m.heap_ready),
{
    let off = boot.hhdm_base;
    if (off & 0xfff) != 0 {
        return None;
    }
    let start = align_down(boot.early_heap_paddr, 0x1000);
    let end = align_up(boot.early_heap_paddr + boot.early_heap_len, 0x1000);
    let low32 = if boot.low32_pool_len >= 0x1000 {
        let lstart = align_down(boot.low32_pool_paddr, 0x1000);
        let lend = align_up(boot.low32_pool_paddr + boot.low32_pool_len, 0x1000);
        Some(TinyBump::new(lstart, lend))
    } else {
        None
    };
    Some(
        MemState {
            phys_to_virt: off,
            frame_alloc: Some(TinyBump::new(start, end)),
            low32,
            next_vmap: VMAP_BASE,
            next_mmio: MMIO_BASE,
            heap_ready: false,
        },
    )
}

/// The usable range a memory-map entry contributes, if any: usable RAM
/// shrunk to whole pages, when a page remains.
pub open spec fn usable_range(mr: MemoryRegion) -> Option<(u64, u64)> {
    if mr.typ != USABLE_RAM {
        None
    } else {
        let s = ((mr.phys_start + 0xfff) as u64) & !0xfffu64;
        let e = ((mr.phys_start + mr.len) as u64) & !0xfffu64;
        if e <= s {
            None
        } else {
            Some((s, e))
        }
    }
}

/// The list built from the first `k` memory-map entries (ranges past the
/// capacity are dropped).
pub open spec fn usable_of(map: Seq<MemoryRegion>, k: int) -> Seq<(u64, u64)>
    decreases k,
{
    if k <= 0 {
        Seq::empty()
    } else {
        let prev = usable_of(map, k - 1);
        match usable_range(map[k - 1]) {
            Some(r) => if prev.len() < MAX_USABLE {
                prev.push(r)
            } else {
                prev
            },
            None => prev,
        }
    }
}

/// Usable entries fit in the address space.
pub open spec fn mmap_ok(map: Seq<MemoryRegion>) -> bool {
    forall|i: int|
        0 <= i < map.len() && (#[trigger] map[i]).typ == USABLE_RAM ==> map[i].phys_start + 0xfff
            <= u64::MAX && map[i].phys_start + map[i].len <= u64::MAX
}

/// Rebuilds the usable list from the memory map.
pub fn seed_usable_from_mmap(list: &mut UsableList, boot: &BootInfo)
    requires
        mmap_ok(boot.memory_map@),
    ensures
        final(list)@ == usable_of(boot.memory_map@, boot.memory_map@.len() as int),
{
    list.entries = usable_vec_new();
    let n = boot.memory_map.len();
    let mut i: usize = 0;
    while i < n
        invariant
            i <= n,
            n == boot.memory_map@.len(),
            mmap_ok(boot.memory_map@),
            list@ == usable_of(boot.memory_map@, i as int),
        decreases n - i,
    {
        let mr = boot.memory_map[i];
        if mr.typ == USABLE_RAM {
            assert(boot.memory_map@[i as int].typ == USABLE_RAM);
            let s = (mr.phys_start + 0xfff) & !0xfffu64;
            let e = (mr.phys_start + mr.len) & !0xfffu64;
            if e > s {
                let _ = usable_vec_push(&mut list.entries, (s, e));
            }
        }
        i += 1;
    }
}

/// The first page of `[s, e)` that is not reserved.
pub open spec fn first_free(t: Seq<Resv>, s: u64, e: u64) -> Option<u64>
    decreases e - s,
{
    if s + 0x1000 > e {
        None
    } else if !reserved_spec(t, s, 0x1000) {
        Some(s)
    } else {
        first_free(t, (s + 0x1000) as u64, e)
    }
}

/// Taking a frame from the usable list: ranges are taken from the back; the
/// first free page of a range is handed out and the rest of the range put
/// back; a range with no free page is dropped.
pub open spec fn fallback_spec(list: Seq<(u64, u64)>, t: Seq<Resv>) -> (Option<u64>, Seq<(u64, u64)>)
    decreases list.len(),
{
    if list.len() == 0 {
        (None, list)
    } else {
        let (s, e) = list.last();
        let rest = list.drop_last();
        match first_free(t, s, e) {
            Some(c) => (Some(c), if c + 0x1000 < e {
                rest.push(((c + 0x1000) as u64, e))
            } else {
                rest
            }),
            None => fallback_spec(rest, t),
        }
    }
}

/// Every range lies in the physical address space.
pub open spec fn ranges_ok(list: Seq<(u64, u64)>) -> bool {
    forall|i: int| 0 <= i < list.len() ==> (#[trigger] list[i]).0 <= PHYS_LIMIT && list[i].1 <= PHYS_LIMIT
}

/// One frame from the usable list (see `fallback_spec`).
pub fn fallback_take_frame(list: &mut UsableList, resv: &ReservedTable) -> (r: Option<PhysFrame>)
    requires
        ranges_ok(old(list)@),
    ensures
        ranges_ok(final(list)@),
        ({
            let (f, l) = fallback_spec(old(list)@, resv@);
            &&& final(list)@ == l
            &&& r == match f {
                Some(a) => Some(PhysFrame(a & !0xFFFu64)),
                None => None::<PhysFrame>,
            }
        }),
{
    loop
        invariant
            ranges_ok(list@),
            fallback_spec(list@, resv@) == fallback_spec(old(list)@, resv@),
        decreases list@.len(),
    {
        let ghost before = list@;
        let popped = usable_vec_pop(&mut list.entries);
        let (s0, e) = match popped {
            None => {
                return None;
            },
            Some(p) => p,
        };
        assert(before[before.len() - 1] == (s0, e));
        assert forall|i: int| 0 <= i < list@.len() implies (#[trigger] list@[i]).0 <= PHYS_LIMIT
            && list@[i].1 <= PHYS_LIMIT by {
            assert(list@[i] == before[i]);
        }
        let mut s = s0;
        while s + 0x1000 <= e
            invariant
                s <= PHYS_LIMIT,
                e <= PHYS_LIMIT,
                first_free(resv@, s0, e) == first_free(resv@, s, e),
                ranges_ok(list@),
                0 < before.len() <= 256,
                before[before.len() - 1] == (s0, e),
                list@ == before.drop_last(),
                fallback_spec(before, resv@) == fallback_spec(old(list)@, resv@),
            decreases e - s,
        {
            let cand = s;
            s = s + 0x1000;
            if !is_reserved_page(resv, cand) {
                assert(first_free(resv@, cand, e) == Some(cand));
                assert(fallback_spec(before, resv@).0 == Some(cand));
                if s < e {
                    let _ = usable_vec_push(&mut list.entries, (s, e));
                }
                return Some(PhysFrame(cand & !0xFFFu64));
            }
        }
    }
}

/// A frame for the page-table code: from the frame pool while it lasts,
/// then from the usable list.
pub fn guard_allocate_frame(state: &mut MemState, list: &mut UsableList, resv: &ReservedTable) -> (r: Option<PhysFrame>)
    requires
        old(state).frame_alloc matches Some(b) && bump_ok(b),
        ranges_ok(old(list)@),
    ensures
        ranges_ok(final(list)@),
        final(state).phys_to_virt == old(state).phys_to_virt,
        final(state).low32 == old(state).low32,
        final(state).next_vmap == old(state).next_vmap,
        final(state).next_mmio == old(state).next_mmio,
        final(state).heap_ready == old(state).heap_ready,
        ({
            let b = old(state).frame_alloc->Some_0;
            let (f, n) = bump_scan(resv@, b.next, b.end);
            let (g, l) = fallback_spec(old(list)@, resv@);
            &&& final(state).frame_alloc == Some(TinyBump { next: n, ..b })
            &&& match f {
                Some(a) => r == Some(PhysFrame(a & !0xFFFu64)) && final(list)@ == old(list)@,
                None => final(list)@ == l && r == match g {
                    Some(a) => Some(PhysFrame(a & !0xFFFu64)),
                    None => None::<PhysFrame>,
                },
            }
        }),
{
    let mut b = state.frame_alloc.unwrap();
    let got = b.allocate_frame(resv);
    state.frame_alloc = Some(b);
    match got {
        Some(pf) => Some(pf),
        None => fallback_take_frame(list, resv),
    }
}

/// Mapping `len` bytes of device memory at `pa`: the pages of the span
/// widened to whole pages (inside the 52-bit space) go to the next free
/// addresses of the MMIO window. Returns the address that corresponds to
/// `pa` and the `(virtual, physical)` page pairs to map uncached.
pub open spec fn mmio_span(pa: u64, len: u64) -> (u64, u64) {
    (pa_mask_spec(pa) & !0xFFFu64, pa_mask_spec((pa + len + 0xFFF) as u64) & !0xFFFu64)
}

/// Reserves the MMIO window for `len` bytes at `pa` (see `mmio_span`).
pub fn map_mmio(state: &mut MemState, pa: u64, len: u64) -> (r: (u64, Vec<(u64, u64)>))
    requires
        pa + len + 0xFFF <= u64::MAX,
        mmio_span(pa, len).1 >= mmio_span(pa, len).0,
        old(state).next_mmio + (mmio_span(pa, len).1 - mmio_span(pa, len).0) <= u64::MAX,
        old(state).next_mmio + (pa - mmio_span(pa, len).0) <= u64::MAX,
    ensures
        ({
            let (pa0, pend) = mmio_span(pa, len);
            let size = pend - pa0;
            let va0 = old(state).next_mmio;
            &&& final(state).next_mmio == va0 + size
            &&& r.0 == va0 + (pa - pa0)
            &&& r.1@.len() == size / 0x1000
            &&& forall|k: int|
                0 <= k < r.1@.len() ==> #[trigger] r.1@[k] == ((va0 + k * 0x1000) as u64, (pa0 + k
                    * 0x1000) as u64)
        }),
        final(state).phys_to_virt == old(state).phys_to_virt,
        final(state).frame_alloc == old(state).frame_alloc,
        final(state).low32 == old(state).low32,
        final(state).next_vmap == old(state).next_vmap,
        final(state).heap_ready == old(state).heap_ready,
{
    let pa0 = pa_mask_52(pa) & !0xFFFu64;
    let pend = pa_mask_52(pa + len + 0xFFF) & !0xFFFu64;
    assert(pa_mask_spec(pa) & !0xFFFu64 <= pa) by (bit_vector);
    assert((pa_mask_spec(pa) & !0xFFFu64) % 0x1000 == 0) by (bit_vector);
    assert((pa_mask_spec((pa + len + 0xFFF) as u64) & !0xFFFu64) % 0x1000 == 0) by (bit_vector);
    let size = pend - pa0;
    let off = pa - pa0;
    let va0 = state.next_mmio;
    state.next_mmio = va0 + size;
    let mut pages: Vec<(u64, u64)> = Vec::new();
    let mut pa_cur = pa0;
    let mut va_cur = va0;
    let mut k: u64 = 0;
    while pa_cur < pend
        invariant
            pa0 % 0x1000 == 0,
            pend % 0x1000 == 0,
            pa0 <= pend,
            va0 + (pend - pa0) <= u64::MAX,
            pa_cur == pa0 + k * 0x1000,
            va_cur == va0 + k * 0x1000,
            pa_cur <= pend,
            pages@.len() == k,
            forall|j: int|
                0 <= j < k ==> #[trigger] pages@[j] == ((va0 + j * 0x1000) as u64, (pa0 + j * 0x1000) as u64),
        decreases pend - pa_cur,
    {
        pages.push((va_cur, pa_cur));
        assert(pend - pa_cur >= 0x1000) by {
            assert((pend - pa_cur) % 0x1000 == 0) by {
                vstd::arithmetic::div_mod::lemma_sub_mod_noop(pend as int, pa_cur as int, 0x1000);
            }
        }
        pa_cur = pa_cur + 0x1000;
        va_cur = va_cur + 0x1000;
        k = k + 1;
    }
    assert(k == (pend - pa0) / 0x1000) by {
        assert(pend - pa0 == k * 0x1000);
    }
    (va0 + off, pages)
}

/// Reserves `pages` pages of the anonymous-mapping window. `None` when the
/// size overflows or the frame pool is not set up (the window moves on in
/// the second case). The caller then maps each page to a frame from
/// `guard_allocate_frame`.
pub fn vmap_alloc_pages(state: &mut MemState, pages: usize) -> (r: Option<u64>)
    ensures
        pages * 4096 > usize::MAX ==> r is None && final(state).next_vmap == old(state).next_vmap,
        pages * 4096 <= usize::MAX ==> {
            &&& final(state).next_vmap == vstd::wrapping::u64_specs::wrapping_add(
                old(state).next_vmap,
                (pages * 4096) as u64,
            )
            &&& r == if old(state).frame_alloc is Some {
                Some(old(state).next_vmap)
            } else {
                None::<u64>
            }
        },
        final(state).phys_to_virt == old(state).phys_to_virt,
        final(state).frame_alloc == old(state).frame_alloc,
        final(state).low32 == old(state).low32,
        final(state).next_mmio == old(state).next_mmio,
        final(state).heap_ready == old(state).heap_ready,
{
    let bytes = match pages.checked_mul(PAGE_SIZE) {
        Some(b) => b as u64,
        None => {
            return None;
        },
    };
    let base = state.next_vmap;
    state.next_vmap = state.next_vmap.wrapping_add(bytes);
    if state.frame_alloc.is_none() {
        return None;
    }
    Some(base)
}

/// The pages an anonymous mapping of `pages` pages at `base` covers, in
/// order: the caller backs each with a frame of its own.
pub fn vmap_page_list(base: u64, pages: usize) -> (r: Vec<u64>)
    requires
        base + pages * 4096 <= u64::MAX,
    ensures
        r@.len() == pages,
        forall|k: int| 0 <= k < pages ==> #[trigger] r@[k] == base + k * 4096,
{
    let mut r: Vec<u64> = Vec::new();
    let mut k: usize = 0;
    while k < pages
        invariant
            k <= pages,
            base + pages * 4096 <= u64::MAX,
            r@.len() == k,
            forall|j: int| 0 <= j < k ==> #[trigger] r@[j] == base + j * 4096,
        decreases pages - k,
    {
        assert(base + k * 4096 < base + pages * 4096) by (nonlinear_arith)
            requires
                k < pages,
        ;
        r.push(base + (k as u64) * 4096);
        k = k + 1;
    }
    r
}

/// A zeroed page from the low pool: its direct-map and physical addresses
/// (the caller zeroes it through the first). `None` when the low pool was
/// not set up or has no page left (the caller panics).
pub fn alloc_one_phys_page_hhdm(state: &mut MemState, resv: &ReservedTable) -> (r: Option<(u64, u64)>)
    requires
        old(state).low32 matches Some(b) ==> bump_ok(b) && b.end + old(state).phys_to_virt <= u64::MAX,
    ensures
        final(state).phys_to_virt == old(state).phys_to_virt,
        final(state).frame_alloc == old(state).frame_alloc,
        final(state).next_vmap == old(state).next_vmap,
        final(state).next_mmio == old(state).next_mmio,
        final(state).heap_ready == old(state).heap_ready,
        old(state).low32 is None ==> r is None && final(state).low32 is None,
        old(state).low32 matches Some(b) ==> ({
            let (f, n) = bump_scan(resv@, b.next, b.end);
            &&& final(state).low32 == Some(TinyBump { next: n, ..b })
            &&& r == match f {
                Some(a) => Some((((a & !0xFFFu64) + old(state).phys_to_virt) as u64, a & !0xFFFu64)),
                None => None::<(u64, u64)>,
            }
        }),
{
    let mut b = match state.low32 {
        Some(b) => b,
        None => {
            return None;
        },
    };
    let pf = b.allocate_frame(resv);
    state.low32 = Some(b);
    proof {
        crate::simple_alloc::lemma_bump_frame(resv@, old(state).low32->Some_0.next, old(state).low32->Some_0.end);
    }
    match pf {
        Some(f) => {
            let pa = f.0;
            assert(pa <= bump_scan(resv@, old(state).low32->Some_0.next, old(state).low32->Some_0.end).0->Some_0) by {
                let a = bump_scan(resv@, old(state).low32->Some_0.next, old(state).low32->Some_0.end).0->Some_0;
                assert(a & !0xFFFu64 <= a) by (bit_vector);
            }
            Some((pa + state.phys_to_virt, pa))
        },
        None => None,
    }
}

/// The pages to back for the heap span `[start, end)`: from the page holding
/// `start` up to `end` rounded up.
pub fn span_pages(start: u64, end: u64) -> (r: (u64, u64))
    requires
        end + 0xfff <= u64::MAX,
    ensures
        r == (start & !0xfffu64, ((end + 0xfff) as u64) & !0xfffu64),
{
    (start & !0xfffu64, (end + 0xfff) & !0xfffu64)
}

/// When the heap has no fitting block, it grows by 1 MiB past what is
/// mapped.
pub fn heap_grow(mapped_end: u64) -> (r: (u64, u64))
    ensures
        r == (mapped_end, if mapped_end + 0x10_0000 > u64::MAX {
            u64::MAX
        } else {
            (mapped_end + 0x10_0000) as u64
        }),
{
    (mapped_end, mapped_end.saturating_add(0x10_0000))
}

/// The span an allocation of `size` bytes at `p` touches (at least a byte).
pub fn touched_span(p: u64, size: u64) -> (r: (u64, u64))
    ensures
        ({
            let s = if size > 1 {
                size
            } else {
                1
            };
            r == (p, if p + s > u64::MAX {
                u64::MAX
            } else {
                (p + s) as u64
            })
        }),
{
    let s = if size > 1 {
        size
    } else {
        1
    };
    (p, p.saturating_add(s))
}

proof fn lemma_first_free(t: Seq<Resv>, s: u64, e: u64)
    requires
        s <= PHYS_LIMIT,
        e <= PHYS_LIMIT,
    ensures
        first_free(t, s, e) matches Some(c) ==> s <= c && c + 0x1000 <= e && !reserved_spec(t, c, 0x1000),
    decreases e - s,
{
    if s + 0x1000 <= e && reserved_spec(t, s, 0x1000) {
        lemma_first_free(t, (s + 0x1000) as u64, e);
    }
}

/// A frame taken from the usable list is not reserved and lies inside one
/// of the ranges the list held; the list afterwards still covers only
/// addresses inside the ranges it held.
pub proof fn lemma_fallback_frame(list: Seq<(u64, u64)>, t: Seq<Resv>)
    requires
        ranges_ok(list),
    ensures
        fallback_spec(list, t).0 matches Some(c) ==> !reserved_spec(t, c, 0x1000) && exists|i: int|
            0 <= i < list.len() && (#[trigger] list[i]).0 <= c && c + 0x1000 <= list[i].1,
    decreases list.len(),
{
    if list.len() > 0 {
        let (s, e) = list.last();
        lemma_first_free(t, s, e);
        let rest = list.drop_last();
        assert forall|i: int| 0 <= i < rest.len() implies (#[trigger] rest[i]).0 <= PHYS_LIMIT
            && rest[i].1 <= PHYS_LIMIT by {
            assert(rest[i] == list[i]);
        }
        lemma_fallback_frame(rest, t);
        match first_free(t, s, e) {
            Some(c) => {
                assert(list[list.len() - 1].0 <= c && c + 0x1000 <= list[list.len() - 1].1);
            },
            None => {
                if let Some(c) = fallback_spec(rest, t).0 {
                    let i = choose|i: int| 0 <= i < rest.len() && (#[trigger] rest[i]).0 <= c && c + 0x1000 <= rest[i].1;
                    assert(list[i] == rest[i]);
                }
            },
        }
    }
}

/// Page `a` is one of the pages of a range of `list`: it lies inside the
/// range, a whole number of pages from its start.
pub open spec fn page_in_list(list: Seq<(u64, u64)>, a: int) -> bool {
    exists|i: int|
        0 <= i < list.len() && (#[trigger] list[i]).0 <= a && a + 0x1000 <= list[i].1 && (a - list[i].0) % 0x1000
            == 0
}

/// `d > 0` a multiple of a page is at least a page.
proof fn lemma_page_step(d: int)
    requires
        d > 0,
        d % 0x1000 == 0,
    ensures
        d >= 0x1000,
        (d - 0x1000) % 0x1000 == 0,
{
    vstd::arithmetic::div_mod::lemma_fundamental_div_mod(d, 0x1000);
    assert(d >= 0x1000) by (nonlinear_arith)
        requires
            d == 0x1000 * (d / 0x1000) + d % 0x1000,
            d % 0x1000 == 0,
            d > 0,
    ;
    vstd::arithmetic::div_mod::lemma_mod_add_multiples_vanish(d - 0x1000, 0x1000);
}

/// A free page `a` of the range `[s, e)` is found by `first_free`, which
/// then answers a free page of the range at or before `a`.
proof fn lemma_first_free_finds(t: Seq<Resv>, s: u64, e: u64, a: int)
    requires
        s <= a,
        a + 0x1000 <= e,
        (a - s) % 0x1000 == 0,
        !reserved_spec(t, a as u64, 0x1000),
    ensures
        first_free(t, s, e) matches Some(c) && s <= c <= a && (c - s) % 0x1000 == 0 && !reserved_spec(
            t,
            c,
            0x1000,
        ),
    decreases e - s,
{
    if reserved_spec(t, s, 0x1000) {
        assert(a != s);
        lemma_page_step(a - s);
        let s2 = (s + 0x1000) as u64;
        lemma_first_free_finds(t, s2, e, a);
        let c = first_free(t, s2, e)->Some_0;
        vstd::arithmetic::div_mod::lemma_mod_add_multiples_vanish(c - s2, 0x1000);
    } else {
        vstd::arithmetic::div_mod::lemma_small_mod(0, 0x1000);
    }
}

/// What `first_free` answers is a free page of the range.
proof fn lemma_first_free_page(t: Seq<Resv>, s: u64, e: u64)
    ensures
        first_free(t, s, e) matches Some(c) ==> s <= c && c + 0x1000 <= e && (c - s) % 0x1000 == 0
            && !reserved_spec(t, c, 0x1000),
    decreases e - s,
{
    if s + 0x1000 <= e && reserved_spec(t, s, 0x1000) {
        let s2 = (s + 0x1000) as u64;
        lemma_first_free_page(t, s2, e);
        if let Some(c) = first_free(t, s2, e) {
            vstd::arithmetic::div_mod::lemma_mod_add_multiples_vanish(c - s2, 0x1000);
        }
    } else if s + 0x1000 <= e {
        vstd::arithmetic::div_mod::lemma_small_mod(0, 0x1000);
    }
}

/// Taking a frame from the usable list loses no free memory: whenever the
/// list holds an unreserved page `a`, a frame is taken, and unless it is
/// `a` itself, `a` is still a page of the list afterwards. The frame taken
/// is always an unreserved page of the list.
pub proof fn lemma_take_keeps_free(list: Seq<(u64, u64)>, t: Seq<Resv>, a: int)
    requires
        ranges_ok(list),
        page_in_list(list, a),
        !reserved_spec(t, a as u64, 0x1000),
    ensures
        fallback_spec(list, t).0 matches Some(c) && page_in_list(list, c as int) && !reserved_spec(t, c, 0x1000),
        fallback_spec(list, t).0 != Some(a as u64) ==> page_in_list(fallback_spec(list, t).1, a),
    decreases list.len(),
{
    let i = choose|i: int|
        0 <= i < list.len() && (#[trigger] list[i]).0 <= a && a + 0x1000 <= list[i].1 && (a - list[i].0) % 0x1000
            == 0;
    let (s, e) = list.last();
    let n = list.len() - 1;
    let rest = list.drop_last();
    lemma_first_free_page(t, s, e);
    assert forall|j: int| 0 <= j < rest.len() implies (#[trigger] rest[j]).0 <= PHYS_LIMIT && rest[j].1
        <= PHYS_LIMIT by {
        assert(rest[j] == list[j]);
    }
    if i == n {
        lemma_first_free_finds(t, s, e, a);
        let c = first_free(t, s, e)->Some_0;
        assert(page_in_list(list, c as int)) by {
            assert(list[n].0 <= c && c + 0x1000 <= list[n].1 && (c - list[n].0) % 0x1000 == 0);
        }
        if c != a {
            vstd::arithmetic::div_mod::lemma_sub_mod_noop(a - s, c - s, 0x1000);
            assert((a - c) % 0x1000 == 0) by {
                assert((a - s) - (c - s) == a - c);
                vstd::arithmetic::div_mod::lemma_small_mod(0, 0x1000);
            }
            lemma_page_step(a - c);
            let l2 = rest.push(((c + 0x1000) as u64, e));
            assert(l2[rest.len() as int] == ((c + 0x1000) as u64, e));
            assert(page_in_list(l2, a)) by {
                assert(l2[rest.len() as int].0 <= a && a + 0x1000 <= l2[rest.len() as int].1 && (a
                    - l2[rest.len() as int].0) % 0x1000 == 0);
            }
        }
    } else {
        assert(rest[i] == list[i]);
        match first_free(t, s, e) {
            Some(c) => {
                assert(page_in_list(list, c as int)) by {
                    assert(list[n].0 <= c && c + 0x1000 <= list[n].1 && (c - list[n].0) % 0x1000 == 0);
                }
                let l2 = if c + 0x1000 < e {
                    rest.push(((c + 0x1000) as u64, e))
                } else {
                    rest
                };
                assert(l2[i] == list[i]);
                assert(page_in_list(l2, a)) by {
                    assert(l2[i].0 <= a && a + 0x1000 <= l2[i].1 && (a - l2[i].0) % 0x1000 == 0);
                }
            },
            None => {
                assert(page_in_list(rest, a)) by {
                    assert(rest[i].0 <= a && a + 0x1000 <= rest[i].1 && (a - rest[i].0) % 0x1000 == 0);
                }
                lemma_take_keeps_free(rest, t, a);
                let c = fallback_spec(rest, t).0->Some_0;
                let k = choose|k: int|
                    0 <= k < rest.len() && (#[trigger] rest[k]).0 <= c && c + 0x1000 <= rest[k].1 && (c
                        - rest[k].0) % 0x1000 == 0;
                assert(list[k] == rest[k]);
                assert(page_in_list(list, c as int)) by {
                    assert(list[k].0 <= c && c + 0x1000 <= list[k].1 && (c - list[k].0) % 0x1000 == 0);
                }
            },
        }
    }
}

/// Device mappings never share a virtual page: once `map_mmio` has mapped
/// `len1` bytes at `pa1` from the window address `va0`, page `k1` of that
/// mapping lies below page `k2` of whatever the window hands out next.
pub proof fn lemma_mmio_pages_disjoint(va0: u64, pa1: u64, len1: u64, k1: int, k2: int)
    requires
        mmio_span(pa1, len1).1 >= mmio_span(pa1, len1).0,
        0 <= k1 < (mmio_span(pa1, len1).1 - mmio_span(pa1, len1).0) / 0x1000,
        0 <= k2,
    ensures
        ({
            let size1 = mmio_span(pa1, len1).1 - mmio_span(pa1, len1).0;
            va0 + k1 * 0x1000 + 0x1000 <= (va0 + size1) + k2 * 0x1000
        }),
{
    let (a, b) = mmio_span(pa1, len1);
    assert(a % 0x1000 == 0 && b % 0x1000 == 0) by (bit_vector)
        requires
            a == pa_mask_spec(pa1) & !0xFFFu64,
            b == pa_mask_spec((pa1 + len1 + 0xFFF) as u64) & !0xFFFu64,
    ;
    let size1 = b - a;
    assert(size1 % 0x1000 == 0) by {
        vstd::arithmetic::div_mod::lemma_sub_mod_noop(b as int, a as int, 0x1000);
    }
    assert(k1 * 0x1000 + 0x1000 <= size1) by (nonlinear_arith)
        requires
            size1 % 0x1000 == 0,
            0 <= k1 < size1 / 0x1000,
    ;
    assert(0 <= k2 * 0x1000) by (nonlinear_arith)
        requires
            0 <= k2,
    ;
}

} // verus!
