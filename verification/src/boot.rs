//! The loader's arithmetic: firmware memory types, the kernel image layout
//! from its loadable segments, page-table indices and entries, and the
//! chunking of the direct map into 1 GiB, 2 MiB and 4 KiB pages. The
//! firmware calls and the page-table writes are the caller's.
use vstd::prelude::*;
use crate::bootinfo::MemoryRegion;

verus! {

pub const PTE_P: u64 = 1;
pub const PTE_RW: u64 = 2;
/// A 2 MiB or 1 GiB page.
pub const PTE_PS: u64 = 0x80;
pub const ADDR_MASK: u64 = 0x000F_FFFF_FFFF_F000;

pub const GIB: u64 = 0x4000_0000;
pub const TWO_MIB: u64 = 0x20_0000;

/// `x` rounded up to a multiple of the power of two `a` (at least 1).
pub open spec fn align_up_spec(x: u64, a: u64) -> u64 {
    let m: u64 = if a > 1 {
        a
    } else {
        1
    };
    ((x + m - 1) as u64) & !((m - 1) as u64)
}

/// `x` rounded up to a multiple of the power of two `a` (at least 1).
pub fn align_up(x: u64, a: u64) -> (r: u64)
    requires
        x + (if a > 1 {
            a
        } else {
            1
        }) - 1 <= u64::MAX,
    ensures
        r == align_up_spec(x, a),
{
    let m = if a > 1 {
        a
    } else {
        1
    };
    (x + (m - 1)) & !(m - 1)
}

/// `x` rounded down to a multiple of the power of two `a`.
pub fn align_down(x: u64, a: u64) -> (r: u64)
    requires
        a >= 1,
    ensures
        r == x & !((a - 1) as u64),
{
    x & !(a - 1)
}

/// Whether `x` is a multiple of the power of two `a`.
pub fn is_aligned(x: u64, a: u64) -> (b: bool)
    requires
        a >= 1,
    ensures
        b == (x & ((a - 1) as u64) == 0),
{
    (x & (a - 1)) == 0
}

/// The four page-table indices of a virtual address.
pub fn pml4_index(va: u64) -> (i: usize)
    ensures
        i == ((va >> 39u64) & 0x1ff) as usize,
        i < 512,
{
    proof {
        lemma_index_bits(va);
    }
    ((va >> 39u64) & 0x1ff) as usize
}

pub fn pdpt_index(va: u64) -> (i: usize)
    ensures
        i == ((va >> 30u64) & 0x1ff) as usize,
        i < 512,
{
    proof {
        lemma_index_bits(va);
    }
    ((va >> 30u64) & 0x1ff) as usize
}

pub fn pd_index(va: u64) -> (i: usize)
    ensures
        i == ((va >> 21u64) & 0x1ff) as usize,
        i < 512,
{
    proof {
        lemma_index_bits(va);
    }
    ((va >> 21u64) & 0x1ff) as usize
}

pub fn pt_index(va: u64) -> (i: usize)
    ensures
        i == ((va >> 12u64) & 0x1ff) as usize,
        i < 512,
{
    proof {
        lemma_index_bits(va);
    }
    ((va >> 12u64) & 0x1ff) as usize
}

proof fn lemma_index_bits(va: u64)
    by (bit_vector)
    ensures
        (va >> 39u64) & 0x1ff < 512,
        (va >> 30u64) & 0x1ff < 512,
        (va >> 21u64) & 0x1ff < 512,
        (va >> 12u64) & 0x1ff < 512,
{
}

/// The four indices together name the address's page: put back in place
/// they give bits 12..47 of the address.
pub proof fn lemma_indices(va: u64)
    ensures
        (((va >> 39u64) & 0x1ff) << 39u64) | (((va >> 30u64) & 0x1ff) << 30u64) | (((va >> 21u64)
            & 0x1ff) << 21u64) | (((va >> 12u64) & 0x1ff) << 12u64) == va & 0x0000_FFFF_FFFF_F000u64,
{
    assert((((va >> 39u64) & 0x1ff) << 39u64) | (((va >> 30u64) & 0x1ff) << 30u64) | (((va
        >> 21u64) & 0x1ff) << 21u64) | (((va >> 12u64) & 0x1ff) << 12u64) == va
        & 0x0000_FFFF_FFFF_F000u64) by (bit_vector);
}

/// An entry pointing to a next-level table at `phys`.
pub fn table_entry(phys: u64) -> (e: u64)
    ensures
        e == phys | PTE_P | PTE_RW,
{
    phys | PTE_P | PTE_RW
}

/// A 4 KiB page entry for `phys`.
pub fn page_entry(phys: u64) -> (e: u64)
    ensures
        e == (phys & ADDR_MASK) | PTE_P | PTE_RW,
{
    (phys & ADDR_MASK) | PTE_P | PTE_RW
}

/// A 2 MiB or 1 GiB page entry for `phys`.
pub fn huge_entry(phys: u64) -> (e: u64)
    ensures
        e == (phys & ADDR_MASK) | PTE_P | PTE_RW | PTE_PS,
{
    (phys & ADDR_MASK) | PTE_P | PTE_RW | PTE_PS
}

/// What walking through an entry finds.
#[derive(Clone, Copy, Debug, PartialEq, Eq)]
pub enum Walk {
    /// Not present: a zeroed table must be allocated and linked.
    Alloc,
    /// The next table, at this physical address.
    Next(u64),
    /// A large page where a table was wanted: the walk fails.
    Huge,
}

/// Walking an entry; `check_huge` is set below the top two levels.
pub fn walk_entry(e: u64, check_huge: bool) -> (w: Walk)
    ensures
        w == if e & PTE_P == 0 {
            Walk::Alloc
        } else if check_huge && e & PTE_PS != 0 {
            Walk::Huge
        } else {
            Walk::Next(e & ADDR_MASK)
        },
{
    if e & PTE_P == 0 {
        Walk::Alloc
    } else if check_huge && e & PTE_PS != 0 {
        Walk::Huge
    } else {
        Walk::Next(e & ADDR_MASK)
    }
}

/// The kernel's memory type for a firmware memory type: conventional 1,
/// loader code 2 and data 3, boot services code 4 and data 5, runtime
/// services code 6 and data 7, ACPI reclaimable 8, anything else 0.
pub open spec fn kernel_type(t: u32) -> u32 {
    if t == 7 {
        1
    } else if t == 1 {
        2
    } else if t == 2 {
        3
    } else if t == 3 {
        4
    } else if t == 4 {
        5
    } else if t == 5 {
        6
    } else if t == 6 {
        7
    } else if t == 9 {
        8
    } else {
        0
    }
}

/// The kernel's memory type for a firmware memory type.
pub fn uefi_type_to_kernel(t: u32) -> (k: u32)
    ensures
        k == kernel_type(t),
{
    match t {
        7 => 1,
        1 => 2,
        2 => 3,
        3 => 4,
        4 => 5,
        5 => 6,
        6 => 7,
        9 => 8,
        _ => 0,
    }
}

/// How firmware memory types carry over to the kernel's map, for every
/// firmware type `t`: conventional memory (7) becomes usable RAM (1);
/// loader code and data (1, 2) become 2 and 3; boot-services code and data
/// (3, 4) become 4 and 5; runtime-services code and data (5, 6) become 6
/// and 7; ACPI reclaimable memory (9) becomes 8; every other type becomes 0.
/// Each kernel type comes from exactly one firmware type.
pub proof fn lemma_kernel_types(t: u32)
    ensures
        (kernel_type(t) == 1) == (t == 7),
        (kernel_type(t) == 2) == (t == 1),
        (kernel_type(t) == 3) == (t == 2),
        (kernel_type(t) == 4) == (t == 3),
        (kernel_type(t) == 5) == (t == 4),
        (kernel_type(t) == 6) == (t == 5),
        (kernel_type(t) == 7) == (t == 6),
        (kernel_type(t) == 8) == (t == 9),
        (kernel_type(t) == 0) == !(1 <= t <= 7 || t == 9),
        kernel_type(t) <= 8,
{
}

/// The kernel's memory-map entry for a firmware descriptor.
pub fn memory_region(phys_start: u64, page_count: u64, ty: u32, attr: u64) -> (r: MemoryRegion)
    requires
        page_count * 4096 <= u64::MAX,
    ensures
        r == (MemoryRegion {
            phys_start,
            virt_start: 0,
            len: (page_count * 4096) as u64,
            typ: kernel_type(ty),
            attr,
        }),
{
    MemoryRegion { phys_start, virt_start: 0, len: page_count * 4096, typ: uefi_type_to_kernel(ty), attr }
}

/// The end of a region, saturating.
pub open spec fn region_end(r: MemoryRegion) -> u64 {
    if r.phys_start + r.len > u64::MAX {
        u64::MAX
    } else {
        (r.phys_start + r.len) as u64
    }
}

/// The highest region end among the first `k` regions (0 for none).
pub open spec fn phys_max_spec(rs: Seq<MemoryRegion>, k: int) -> u64
    decreases k,
{
    if k <= 0 {
        0
    } else {
        let m = phys_max_spec(rs, k - 1);
        let e = region_end(rs[k - 1]);
        if e > m {
            e
        } else {
            m
        }
    }
}

/// The highest physical address the memory map reaches.
pub fn phys_max(rs: &Vec<MemoryRegion>) -> (m: u64)
    ensures
        m == phys_max_spec(rs@, rs@.len() as int),
{
    let mut m: u64 = 0;
    let n = rs.len();
    let mut i: usize = 0;
    while i < n
        invariant
            i <= n,
            n == rs@.len(),
            m == phys_max_spec(rs@, i as int),
        decreases n - i,
    {
        let r = rs[i];
        let e = if r.phys_start > u64::MAX - r.len {
            u64::MAX
        } else {
            r.phys_start + r.len
        };
        if e > m {
            m = e;
        }
        i += 1;
    }
    m
}

/// A program header as the layout needs it.
#[derive(Clone, Copy, Debug, PartialEq, Eq)]
pub struct LoadSeg {
    pub is_load: bool,
    pub vaddr: u64,
    pub mem_size: u64,
    pub align: u64,
}

/// The running layout over the first `k` headers: lowest start, highest
/// page-rounded end and largest alignment (at least a page) of the loadable
/// segments that occupy memory.
pub open spec fn layout_spec(segs: Seq<LoadSeg>, k: int) -> (u64, u64, u64)
    decreases k,
{
    if k <= 0 {
        (u64::MAX, 0, 0)
    } else {
        let (mn, mx, al) = layout_spec(segs, k - 1);
        let s = segs[k - 1];
        if !s.is_load || s.mem_size == 0 {
            (mn, mx, al)
        } else {
            let end = align_up_spec((s.vaddr + s.mem_size) as u64, 0x1000);
            let a = if s.align > 0x1000 {
                s.align
            } else {
                0x1000
            };
            (if s.vaddr < mn {
                s.vaddr
            } else {
                mn
            }, if end > mx {
                end
            } else {
                mx
            }, if a > al {
                a
            } else {
                al
            })
        }
    }
}

/// Loadable segments fit in the address space.
pub open spec fn segs_ok(segs: Seq<LoadSeg>) -> bool {
    forall|i: int|
        0 <= i < segs.len() && (#[trigger] segs[i]).is_load ==> segs[i].vaddr + segs[i].mem_size
            + 0xFFF <= u64::MAX
}

/// The image layout `(min, max, align)`; `None` when no loadable segment
/// occupies memory (the loader stops: "no PT_LOAD").
pub fn elf_layout(segs: &Vec<LoadSeg>) -> (r: Option<(u64, u64, u64)>)
    requires
        segs_ok(segs@),
    ensures
        ({
            let l = layout_spec(segs@, segs@.len() as int);
            r == if l.0 == u64::MAX {
                None::<(u64, u64, u64)>
            } else {
                Some(l)
            }
        }),
{
    let mut mn: u64 = u64::MAX;
    let mut mx: u64 = 0;
    let mut al: u64 = 0;
    let n = segs.len();
    let mut i: usize = 0;
    while i < n
        invariant
            i <= n,
            n == segs@.len(),
            segs_ok(segs@),
            (mn, mx, al) == layout_spec(segs@, i as int),
        decreases n - i,
    {
        let s = segs[i];
        if s.is_load && s.mem_size != 0 {
            assert(segs@[i as int].is_load);
            let end = align_up(s.vaddr + s.mem_size, 0x1000);
            let a = if s.align > 0x1000 {
                s.align
            } else {
                0x1000
            };
            if s.vaddr < mn {
                mn = s.vaddr;
            }
            if end > mx {
                mx = end;
            }
            if a > al {
                al = a;
            }
        }
        i += 1;
    }
    if mn == u64::MAX {
        return None;
    }
    Some((mn, mx, al))
}

/// Pages to reserve for an image spanning `[min, max)` aligned to `align`:
/// its size plus an alignment's and a page's slack, rounded up to pages.
pub fn image_pages(min: u64, max: u64, align: u64) -> (p: u64)
    requires
        min <= max,
        (max - min) + align + 0x1000 + 0xFFF <= u64::MAX,
    ensures
        p == ((max - min) + align + 0x1000 + 0xFFF) / 0x1000,
{
    let total = max - min;
    let reserve = total + align + 0x1000;
    (reserve + 0xFFF) / 0x1000
}

/// Where a segment at `vaddr` is copied when the image is loaded at
/// `load_base`.
pub fn segment_dst(load_base: u64, min: u64, vaddr: u64) -> (d: u64)
    requires
        min <= vaddr,
        load_base + (vaddr - min) <= u64::MAX,
    ensures
        d == load_base + (vaddr - min),
{
    load_base + (vaddr - min)
}

/// The kernel's initial stack pointer for `pages` pages at `base`: the top,
/// 16-byte aligned, less 8 as the SysV entry expects.
pub fn stack_top_sysv(base: u64, pages: u64) -> (t: u64)
    requires
        base + pages * 4096 <= u64::MAX,
    ensures
        t == vstd::wrapping::u64_specs::wrapping_sub(((base + pages * 4096) as u64) & !0xFu64, 8),
{
    let top = base + pages * 4096;
    (top & !0xFu64).wrapping_sub(8)
}

/// How far pages of `size` bytes can map the direct map from `phys` on:
/// while at least a page remains before `max` and both the physical and the
/// virtual address are aligned to it.
pub open spec fn greedy_end(hhdm: u64, phys: u64, max: u64, size: u64) -> u64
    decreases max - phys,
{
    if size > 0 && phys < max && max - phys >= size && phys & ((size - 1) as u64) == 0 && ((hhdm
        + phys) as u64) & ((size - 1) as u64) == 0 && phys + size <= max {
        greedy_end(hhdm, (phys + size) as u64, max, size)
    } else {
        phys
    }
}

/// The direct map of `[0, max)` at `hhdm`: 1 GiB pages from 0 to the first
/// returned address, 2 MiB pages from there to the second, 4 KiB pages from
/// there to `max`.
pub fn hhdm_plan(hhdm: u64, max: u64) -> (r: (u64, u64))
    requires
        hhdm + max <= u64::MAX,
    ensures
        r.0 == greedy_end(hhdm, 0, max, GIB),
        r.1 == greedy_end(hhdm, r.0, max, TWO_MIB),
        r.0 <= r.1,
{
    let mut phys: u64 = 0;
    while phys < max
        invariant
            hhdm + max <= u64::MAX,
            phys <= max,
            greedy_end(hhdm, 0, max, GIB) == greedy_end(hhdm, phys, max, GIB),
        ensures
            phys <= max,
            greedy_end(hhdm, 0, max, GIB) == phys,
        decreases max - phys,
    {
        if max - phys >= GIB && is_aligned(phys, GIB) && is_aligned(hhdm + phys, GIB) {
            phys = phys + GIB;
        } else {
            break;
        }
    }
    let end_1g = phys;
    while phys < max
        invariant
            hhdm + max <= u64::MAX,
            end_1g <= phys <= max,
            greedy_end(hhdm, end_1g, max, TWO_MIB) == greedy_end(hhdm, phys, max, TWO_MIB),
        ensures
            end_1g <= phys <= max,
            greedy_end(hhdm, end_1g, max, TWO_MIB) == phys,
        decreases max - phys,
    {
        if max - phys >= TWO_MIB && is_aligned(phys, TWO_MIB) && is_aligned(hhdm + phys, TWO_MIB) {
            phys = phys + TWO_MIB;
        } else {
            break;
        }
    }
    (end_1g, phys)
}

/// The page of the direct map that holds physical address `p`, given the
/// ends `end_1g` and `end_2m` of the 1 GiB and 2 MiB parts: its physical
/// start and its size.
pub open spec fn hhdm_page(end_1g: u64, end_2m: u64, p: u64) -> (int, int) {
    let q = p as int;
    if p < end_1g {
        (q - q % (GIB as int), GIB as int)
    } else if p < end_2m {
        (q - q % (TWO_MIB as int), TWO_MIB as int)
    } else {
        (q - q % 4096, 4096)
    }
}

/// The greedy run of `size`-byte pages from `s`: it ends between `s` and
/// `m`, a whole number of pages after `s`, and when it takes any page `s`
/// and `hhdm + s` are both aligned to `size`.
proof fn lemma_greedy(h: u64, s: u64, m: u64, size: u64)
    requires
        size > 0,
        s <= m,
        h + m <= u64::MAX,
    ensures
        s <= greedy_end(h, s, m, size) <= m,
        (greedy_end(h, s, m, size) - s) % (size as int) == 0,
        greedy_end(h, s, m, size) > s ==> s & ((size - 1) as u64) == 0 && ((h + s) as u64) & ((size - 1) as u64)
            == 0,
    decreases m - s,
{
    if size > 0 && s < m && m - s >= size && s & ((size - 1) as u64) == 0 && ((h + s) as u64) & ((size - 1) as u64)
        == 0 && s + size <= m {
        lemma_greedy(h, (s + size) as u64, m, size);
        let r = greedy_end(h, (s + size) as u64, m, size);
        assert((r - s) % (size as int) == 0) by {
            vstd::arithmetic::div_mod::lemma_mod_add_multiples_vanish(r - s - size, size as int);
        }
    } else {
        vstd::arithmetic::div_mod::lemma_small_mod(0, size as nat);
    }
}

/// Where the low bits under a 1 GiB or 2 MiB mask are clear, the value is a
/// multiple of the page size.
proof fn lemma_mask_aligned(x: u64)
    by (bit_vector)
    ensures
        x & ((GIB - 1) as u64) == 0 ==> x % GIB == 0,
        x & ((TWO_MIB - 1) as u64) == 0 ==> x % TWO_MIB == 0,
{
}

/// The page of size `n` holding `p`, inside a run `[a, b)` of whole pages.
proof fn lemma_page_in_run(p: int, n: int, a: int, b: int)
    requires
        n > 0,
        a % n == 0,
        b % n == 0,
        a <= p < b,
    ensures
        a <= p - p % n,
        p - p % n + n <= b,
        (p - p % n) % n == 0,
        p - p % n <= p < p - p % n + n,
{
    vstd::arithmetic::div_mod::lemma_fundamental_div_mod(p, n);
    vstd::arithmetic::div_mod::lemma_fundamental_div_mod(a, n);
    vstd::arithmetic::div_mod::lemma_fundamental_div_mod(b, n);
    vstd::arithmetic::div_mod::lemma_mod_bound(p, n);
    let q = p / n;
    assert(p - p % n == n * q);
    assert((n * q) % n == 0) by {
        vstd::arithmetic::mul::lemma_mul_is_commutative(n, q);
        vstd::arithmetic::div_mod::lemma_mod_multiples_basic(q, n);
    }
    assert(a / n <= q) by (nonlinear_arith)
        requires
            a == n * (a / n),
            p == n * q + p % n,
            0 <= p % n < n,
            a <= p,
            n > 0,
    ;
    assert(q < b / n) by (nonlinear_arith)
        requires
            b == n * (b / n),
            p == n * q + p % n,
            0 <= p % n < n,
            p < b,
            n > 0,
    ;
    assert(n * (a / n) <= n * q && n * q + n <= n * (b / n)) by (nonlinear_arith)
        requires
            a / n <= q,
            q < b / n,
            n > 0,
    ;
}

/// `x` a multiple of `k * n` is a multiple of `n`.
proof fn lemma_multiple_of_factor(x: int, n: int, k: int)
    requires
        n > 0,
        k > 0,
        x % (k * n) == 0,
    ensures
        x % n == 0,
{
    assert(k * n > 0) by (nonlinear_arith)
        requires
            k > 0,
            n > 0,
    ;
    vstd::arithmetic::div_mod::lemma_fundamental_div_mod(x, k * n);
    let q = x / (k * n);
    assert(x == n * (k * q)) by (nonlinear_arith)
        requires
            x == (k * n) * q + x % (k * n),
            x % (k * n) == 0,
    ;
    vstd::arithmetic::div_mod::lemma_mod_multiples_basic(k * q, n);
    vstd::arithmetic::mul::lemma_mul_is_commutative(n, k * q);
}

/// The direct map covers memory below `max`, page by page: every physical
/// address `p` below `max` lies in one page of the map (`hhdm_page`), which
/// is aligned to its size and mapped at `hhdm` plus its start, so the map
/// sends `hhdm + p` to `p`. Its 1 GiB pages lie before the end `hhdm_plan`
/// gives for them, its 2 MiB pages between the two ends, its 4 KiB pages
/// after the second end and before `max`; huge pages are aligned in
/// virtual memory too.
pub proof fn lemma_hhdm_covers(hhdm: u64, max: u64, p: u64)
    requires
        hhdm + max <= u64::MAX,
        p < max,
    ensures
        ({
            let e1 = greedy_end(hhdm, 0, max, GIB) as int;
            let e2 = greedy_end(hhdm, e1 as u64, max, TWO_MIB) as int;
            let (pa, size) = hhdm_page(e1 as u64, e2 as u64, p);
            &&& e1 % (GIB as int) == 0 && e2 % (TWO_MIB as int) == 0
            &&& pa <= p < pa + size
            &&& pa % size == 0
            &&& size == GIB ==> pa + GIB <= e1 && (hhdm + pa) % (GIB as int) == 0
            &&& size == TWO_MIB ==> e1 <= pa && pa + TWO_MIB <= e2 && (hhdm + pa) % (TWO_MIB as int) == 0
            &&& size == 4096 ==> e2 <= pa < max
        }),
{
    lemma_greedy(hhdm, 0, max, GIB);
    let e1u = greedy_end(hhdm, 0, max, GIB);
    lemma_greedy(hhdm, e1u, max, TWO_MIB);
    let e2u = greedy_end(hhdm, e1u, max, TWO_MIB);
    let e1 = e1u as int;
    let e2 = e2u as int;
    let g = GIB as int;
    let t = TWO_MIB as int;
    let q = p as int;
    let hi = hhdm as int;
    assert(e1 % t == 0) by {
        lemma_multiple_of_factor(e1, t, 512);
    }
    assert(e2 % t == 0) by {
        vstd::arithmetic::div_mod::lemma_mod_adds(e2 - e1, e1, t);
    }
    assert(e2 % 4096 == 0) by {
        lemma_multiple_of_factor(e2, 4096, 512);
    }
    if p < e1u {
        lemma_page_in_run(q, g, 0, e1);
        let pa = q - q % g;
        lemma_mask_aligned(hhdm);
        assert(hi % g == 0);
        assert((hi + pa) % g == 0) by {
            vstd::arithmetic::div_mod::lemma_mod_adds(hi, pa, g);
        }
    } else if p < e2u {
        lemma_page_in_run(q, t, e1, e2);
        let pa = q - q % t;
        lemma_mask_aligned((hhdm + e1u) as u64);
        assert((hi + e1) % t == 0);
        assert((pa - e1) % t == 0) by {
            vstd::arithmetic::div_mod::lemma_sub_mod_noop(pa, e1, t);
        }
        assert((hi + pa) % t == 0) by {
            vstd::arithmetic::div_mod::lemma_mod_adds(hi + e1, pa - e1, t);
        }
    } else {
        let mi = max as int;
        let m4 = mi - mi % 4096 + 4096;
        vstd::arithmetic::div_mod::lemma_mod_bound(mi, 4096);
        assert(m4 % 4096 == 0) by {
            vstd::arithmetic::div_mod::lemma_fundamental_div_mod(mi, 4096);
            assert(m4 == 4096 * (mi / 4096 + 1)) by (nonlinear_arith)
                requires
                    mi == 4096 * (mi / 4096) + mi % 4096,
                    m4 == mi - mi % 4096 + 4096,
            ;
            vstd::arithmetic::div_mod::lemma_mod_multiples_basic(mi / 4096 + 1, 4096);
            vstd::arithmetic::mul::lemma_mul_is_commutative(4096, mi / 4096 + 1);
        }
        lemma_page_in_run(q, 4096, e2, m4);
    }
}

/// Whether the identity page at `va` stays clear of the kernel image
/// `[min, max)`.
pub fn ident_page_wanted(va: u64, min: u64, max: u64) -> (b: bool)
    requires
        va + 0x1000 <= u64::MAX,
    ensures
        b == (va + 0x1000 <= min || va >= max),
{
    va + 0x1000 <= min || va >= max
}

/// The ranges the loader maps for the kernel at `[min, max)`: the image
/// below 2 MiB and above (both offset to the load address), the identity
/// map below 2 MiB around the image, and the end of the identity map above.
#[derive(Clone, Copy, Debug, PartialEq, Eq)]
pub struct ExecPlan {
    pub low: Option<(u64, u64)>,
    pub rest: (u64, u64),
    pub ident_below: Option<(u64, u64)>,
    pub ident_above: Option<(u64, u64)>,
    pub ident_end: u64,
}

/// The mapping plan of the loader's page tables.
pub fn exec_plan(min: u64, max: u64, ident_bytes: u64) -> (p: ExecPlan)
    requires
        ident_bytes + 0xFFF <= u64::MAX,
    ensures
        p.low == if min < TWO_MIB {
            Some((min, if max < TWO_MIB { max } else { TWO_MIB }))
        } else {
            None::<(u64, u64)>
        },
        p.rest == (if TWO_MIB > min { TWO_MIB } else { min }, max),
        p.ident_below == if 0 < (if min < TWO_MIB { min } else { TWO_MIB }) {
            Some((0x1000u64, if min < TWO_MIB { min } else { TWO_MIB }))
        } else {
            None::<(u64, u64)>
        },
        p.ident_above == if max < TWO_MIB {
            Some((max, TWO_MIB))
        } else {
            None::<(u64, u64)>
        },
        p.ident_end == align_up_spec(ident_bytes, 0x1000),
{
    let low = if min < TWO_MIB {
        Some((min, if max < TWO_MIB { max } else { TWO_MIB }))
    } else {
        None
    };
    let rest = (if TWO_MIB > min { TWO_MIB } else { min }, max);
    let id0 = if min < TWO_MIB { min } else { TWO_MIB };
    let ident_below = if 0 < id0 {
        Some((0x1000u64, id0))
    } else {
        None
    };
    let ident_above = if max < TWO_MIB {
        Some((max, TWO_MIB))
    } else {
        None
    };
    ExecPlan { low, rest, ident_below, ident_above, ident_end: align_up(ident_bytes, 0x1000) }
}

/// The physical page the kernel's page at `va` maps to: the load offset
/// applied with wrap-around, masked to a physical page.
pub fn offset_phys(va: u64, load_base: u64, min: u64) -> (p: u64)
    ensures
        p == vstd::wrapping::u64_specs::wrapping_sub(
            vstd::wrapping::u64_specs::wrapping_add(va, load_base),
            min,
        ) & ADDR_MASK,
{
    va.wrapping_add(load_base).wrapping_sub(min) & ADDR_MASK
}

/// ELF class of a 64-bit file (`e_ident[EI_CLASS]`).
pub const ELF_CLASS_64: u8 = 2;
/// ELF data encoding of a little-endian file (`e_ident[EI_DATA]`).
pub const ELF_DATA_LE: u8 = 1;
/// ELF machine number of x86-64.
pub const ELF_MACHINE_X86_64: u16 = 0x3E;

/// Whether the kernel image is a 64-bit little-endian x86-64 ELF file.
pub fn elf_header_ok(class: u8, data: u8, machine: u16) -> (ok: bool)
    ensures
        ok == (class == ELF_CLASS_64 && data == ELF_DATA_LE && machine == ELF_MACHINE_X86_64),
{
    class == ELF_CLASS_64 && data == ELF_DATA_LE && machine == ELF_MACHINE_X86_64
}

/// The largest of `s[..n]`, or 0 for none.
pub open spec fn max_of(s: Seq<u64>, n: int) -> u64
    decreases n,
{
    if n <= 0 {
        0
    } else {
        let m = max_of(s, n - 1);
        if s[n - 1] > m {
            s[n - 1]
        } else {
            m
        }
    }
}

/// The floor of the identity map: 1 GiB.
pub const IDENT_FLOOR: u64 = 0x4000_0000;

/// The end of the identity map: the highest of the ends the loader must
/// reach, at least 1 GiB, and past the I/O APIC and local APIC pages.
pub open spec fn ident_limit_spec(ends: Seq<u64>) -> u64 {
    let m = max_of(ends, ends.len() as int);
    let m1 = if m < IDENT_FLOOR { IDENT_FLOOR } else { m };
    let m2 = if m1 < 0xFEC0_1000 { 0xFEC0_1000 } else { m1 };
    if m2 < 0xFEE0_1000 { 0xFEE0_1000 } else { m2 }
}

/// How far the loader identity-maps physical memory, given the ends of the
/// trampoline, boot-info page, stack, image, early heap, memory map and
/// framebuffer.
pub fn ident_limit(ends: &[u64]) -> (hi: u64)
    ensures
        hi == ident_limit_spec(ends@),
        hi >= 0xFEE0_1000,
        forall|i: int| 0 <= i < ends@.len() ==> ends@[i] <= hi,
{
    let mut m: u64 = 0;
    let mut i: usize = 0;
    while i < ends.len()
        invariant
            i <= ends@.len(),
            m == max_of(ends@, i as int),
            forall|k: int| 0 <= k < i ==> ends@[k] <= m,
        decreases ends@.len() - i,
    {
        if ends[i] > m {
            m = ends[i];
        }
        i += 1;
    }
    if m < IDENT_FLOOR {
        m = IDENT_FLOOR;
    }
    if m < 0xFEC0_1000 {
        m = 0xFEC0_1000;
    }
    if m < 0xFEE0_1000 {
        m = 0xFEE0_1000;
    }
    m
}

} // verus!
