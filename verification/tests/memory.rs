use jotunheim::bootinfo::{BootInfo, Framebuffer, MemoryRegion};
use jotunheim::bump::{BumpHeap, Bump};
use jotunheim::early::{early_alloc_frame, early_alloc_frames, early_seed, PhysFrame, TinyBump as EarlyBump};
use jotunheim::frames::{alloc_frame, alloc_frames, choose_early_pool_from_bootinfo, early_init_from_bootinfo, is_page_aligned, EarlyPool};
use jotunheim::physmem::{
    align_down, align_up, alloc_one_phys_page_hhdm, fallback_take_frame, guard_allocate_frame, heap_grow, init, map_mmio,
    pa_mask_52, seed_usable_from_mmap, span_pages, touched_span, vmap_alloc_pages, vmap_page_list, UsableList, MMIO_BASE, VMAP_BASE,
};
use jotunheim::reserved::{is_reserved_page, is_reserved_range, reserve_range, reset, ReservedTable, ResvKind};
use jotunheim::simple_alloc::TinyBump;
use jotunheim::mapper::{active_offset_mapper, mapper_from_boot, MapperError};

fn region(start: u64, len: u64, typ: u32) -> MemoryRegion {
    MemoryRegion { phys_start: start, virt_start: 0, len, typ, attr: 0 }
}

fn boot_info(map: Vec<MemoryRegion>) -> BootInfo {
    BootInfo {
        rsdp_addr: 0xe0000,
        memory_map: map,
        framebuffer: Framebuffer { addr: 0x8000_0000, width: 800, height: 600, pitch: 3200, bpp: 32, pixel_format: 1 },
        kernel_phys_base: 0x20_0000,
        kernel_virt_base: 0xffff_ffff_8000_0000,
        early_heap_paddr: 0x100_0800,
        early_heap_len: 0x4000,
        hhdm_base: 0xffff_8000_0000_0000,
        low32_pool_paddr: 0x50_0000,
        low32_pool_len: 0x20_0000,
    }
}

#[test]
fn reserved_ranges_read_back() {
    let mut t = ReservedTable::new();
    assert!(reserve_range(&mut t, 0x1800, 0x100, ResvKind::Kernel));
    assert!(is_reserved_page(&t, 0x1000));
    assert!(is_reserved_range(&t, 0x1f00, 0x200));
    assert!(!is_reserved_page(&t, 0x2000));
    assert!(!is_reserved_page(&t, 0x0));
    assert!(reserve_range(&mut t, 0x9000, 0, ResvKind::Mmio));
    assert!(!is_reserved_page(&t, 0x9000));
    assert!(!is_reserved_range(&t, 0x1000, 0));
    assert!(reserve_range(&mut t, u64::MAX, 0, ResvKind::Mmio));
    assert!(!is_reserved_range(&t, u64::MAX, 0));
    reset(&mut t);
    assert!(!is_reserved_page(&t, 0x1000));
}

#[test]
fn reserved_table_fills_up() {
    let mut t = ReservedTable::new();
    for i in 0..128u64 {
        assert!(reserve_range(&mut t, i * 0x10000, 0x1000, ResvKind::Other(i as u32)));
    }
    assert!(!reserve_range(&mut t, 0x900_0000, 0x1000, ResvKind::Trampoline));
    assert!(!is_reserved_page(&t, 0x900_0000));
    assert!(is_reserved_page(&t, 127 * 0x10000));
}

#[test]
fn early_pool_bumps_and_refuses() {
    let mut p = EarlyBump::new();
    assert!(early_alloc_frame(&mut p).is_none());
    early_seed(&mut p, 0x10_0000, 0x10_3000);
    assert_eq!(early_alloc_frame(&mut p).map(|f| f.0), Some(0x10_0000));
    assert_eq!(early_alloc_frames(&mut p, 2).map(|f| f.0), Some(0x10_1000));
    assert!(early_alloc_frame(&mut p).is_none());
    assert_eq!(PhysFrame(0x1000).0, 0x1000);
}

#[test]
fn boot_pool_from_bootinfo() {
    let b = boot_info(vec![]);
    assert_eq!(choose_early_pool_from_bootinfo(&b), (0x30_0000, 0x38_0000));
    let mut p = EarlyPool::new();
    assert!(alloc_frame(&mut p).is_none());
    early_init_from_bootinfo(&mut p, &b);
    assert_eq!(alloc_frame(&mut p).map(|f| f.0), Some(0x30_0000));
    assert_eq!(alloc_frames(&mut p, 0x7f).map(|f| f.0), Some(0x30_1000));
    assert!(alloc_frame(&mut p).is_none());
    assert!(is_page_aligned(0x30_0000));
    assert!(!is_page_aligned(0x30_0010));
}

#[test]
fn tiny_bump_skips_reserved_pages() {
    let mut t = ReservedTable::new();
    assert!(reserve_range(&mut t, 0x20_1000, 0x1000, ResvKind::Firmware(2)));
    let mut b = TinyBump::new(0x20_0000, 0x20_3000);
    assert_eq!(b.remaining_pages(), 3);
    assert_eq!(b.allocate_frame(&t).map(|f| f.0), Some(0x20_0000));
    assert_eq!(b.allocate_frame(&t).map(|f| f.0), Some(0x20_2000));
    assert_eq!(b.allocate_frame(&t), None);
    assert_eq!(b.remaining_pages(), 0);
    assert_eq!(TinyBump::new(5, 3).remaining_pages(), 0);
}

#[test]
fn mem_init_from_bootinfo() {
    let b = boot_info(vec![]);
    let m = init(&b).expect("aligned direct map");
    assert_eq!(m.phys_to_virt, 0xffff_8000_0000_0000);
    assert_eq!(m.frame_alloc, Some(TinyBump { next: 0x100_0000, end: 0x100_5000 }));
    assert_eq!(m.low32, Some(TinyBump { next: 0x50_0000, end: 0x70_0000 }));
    assert_eq!(m.next_vmap, VMAP_BASE);
    assert_eq!(m.next_mmio, MMIO_BASE);
    let mut bad = boot_info(vec![]);
    bad.hhdm_base = 0xffff_8000_0000_0010;
    assert!(init(&bad).is_none());
    let mut small = boot_info(vec![]);
    small.low32_pool_len = 0x800;
    assert_eq!(init(&small).unwrap().low32, None);
}

#[test]
fn usable_list_from_memory_map() {
    let b = boot_info(vec![
        region(0x1000, 0x9f000, 1),
        region(0x100800, 0x3000, 1),
        region(0xa0000, 0x60000, 2),
        region(0x200000, 0x800, 1),
    ]);
    let mut l = UsableList::new();
    seed_usable_from_mmap(&mut l, &b);
    let t = ReservedTable::new();
    // The list is taken from the back: the second usable entry first.
    assert_eq!(fallback_take_frame(&mut l, &t).map(|f| f.0), Some(0x101000));
    assert_eq!(fallback_take_frame(&mut l, &t).map(|f| f.0), Some(0x102000));
    assert_eq!(fallback_take_frame(&mut l, &t).map(|f| f.0), Some(0x1000));
}

#[test]
fn fallback_skips_reserved_and_runs_dry() {
    let b = boot_info(vec![region(0x1000, 0x2000, 1)]);
    let mut l = UsableList::new();
    seed_usable_from_mmap(&mut l, &b);
    let mut t = ReservedTable::new();
    assert!(reserve_range(&mut t, 0x1000, 0x1000, ResvKind::Trampoline));
    assert_eq!(fallback_take_frame(&mut l, &t).map(|f| f.0), Some(0x2000));
    assert_eq!(fallback_take_frame(&mut l, &t), None);
}

#[test]
fn guard_falls_back_to_usable_list() {
    let b = boot_info(vec![region(0x40_0000, 0x1000, 1)]);
    let mut m = init(&b).unwrap();
    m.frame_alloc = Some(TinyBump::new(0x10_0000, 0x10_1000));
    let mut l = UsableList::new();
    seed_usable_from_mmap(&mut l, &b);
    let t = ReservedTable::new();
    assert_eq!(guard_allocate_frame(&mut m, &mut l, &t).map(|f| f.0), Some(0x10_0000));
    assert_eq!(guard_allocate_frame(&mut m, &mut l, &t).map(|f| f.0), Some(0x40_0000));
    assert_eq!(guard_allocate_frame(&mut m, &mut l, &t), None);
}

#[test]
fn mmio_window_pages() {
    let b = boot_info(vec![]);
    let mut m = init(&b).unwrap();
    let (va, pages) = map_mmio(&mut m, 0xfee0_0020, 0x10);
    assert_eq!(va, MMIO_BASE + 0x20);
    assert_eq!(pages, vec![(MMIO_BASE, 0xfee0_0000)]);
    assert_eq!(m.next_mmio, MMIO_BASE + 0x1000);
    let (va2, pages2) = map_mmio(&mut m, 0xfec0_0000, 0x1001);
    assert_eq!(va2, MMIO_BASE + 0x1000);
    assert_eq!(pages2, vec![(MMIO_BASE + 0x1000, 0xfec0_0000), (MMIO_BASE + 0x2000, 0xfec0_1000)]);
}

#[test]
fn vmap_reservations() {
    let b = boot_info(vec![]);
    let mut m = init(&b).unwrap();
    assert_eq!(vmap_alloc_pages(&mut m, 2), Some(VMAP_BASE));
    assert_eq!(vmap_alloc_pages(&mut m, 1), Some(VMAP_BASE + 0x2000));
    assert_eq!(vmap_page_list(VMAP_BASE, 3), vec![VMAP_BASE, VMAP_BASE + 0x1000, VMAP_BASE + 0x2000]);
    assert!(vmap_page_list(VMAP_BASE, 0).is_empty());
    assert_eq!(vmap_alloc_pages(&mut m, usize::MAX), None);
    assert_eq!(m.next_vmap, VMAP_BASE + 0x3000);
    m.frame_alloc = None;
    assert_eq!(vmap_alloc_pages(&mut m, 1), None);
    assert_eq!(m.next_vmap, VMAP_BASE + 0x4000);
}

#[test]
fn low_page_through_direct_map() {
    let b = boot_info(vec![]);
    let mut m = init(&b).unwrap();
    let t = ReservedTable::new();
    let (va, pa) = alloc_one_phys_page_hhdm(&mut m, &t).unwrap();
    assert_eq!(pa, 0x50_0000);
    assert_eq!(va, 0xffff_8000_0050_0000);
    m.low32 = Some(TinyBump::new(0x60_0000, 0x60_0000));
    assert_eq!(alloc_one_phys_page_hhdm(&mut m, &t), None);
    m.low32 = None;
    assert_eq!(alloc_one_phys_page_hhdm(&mut m, &t), None);
}

#[test]
fn address_helpers() {
    assert_eq!(pa_mask_52(0xfff0_0000_1234_5678), 0x0000_0000_1234_5678);
    assert_eq!(align_down(0x1234, 0x1000), 0x1000);
    assert_eq!(align_up(0x1234, 0x1000), 0x2000);
    assert_eq!(align_up(0x2000, 0x1000), 0x2000);
    assert_eq!(span_pages(0x1234, 0x2001), (0x1000, 0x3000));
    assert_eq!(heap_grow(0x1000), (0x1000, 0x10_1000));
    assert_eq!(heap_grow(u64::MAX - 5), (u64::MAX - 5, u64::MAX));
    assert_eq!(touched_span(0x10, 0), (0x10, 0x11));
    assert_eq!(touched_span(0x10, 8), (0x10, 0x18));
}

#[test]
fn bump_heap_aligns_and_runs_out() {
    let mut h = BumpHeap::new();
    assert_eq!(h.alloc_block(8, 8), 0);
    jotunheim::bump::init(&mut h, 0x1001, 0x40);
    assert_eq!(h.alloc_block(8, 8), 0x1008);
    assert_eq!(h.alloc_block(1, 1), 0x1010);
    assert_eq!(h.alloc_block(16, 16), 0x1020);
    assert_eq!(h.alloc_block(32, 16), 0);
    assert_eq!(h.inner, Some(Bump { start: 0x1001, end: 0x1041, next: 0x1030 }));
    h.dealloc(0x1008, 8, 8);
    assert_eq!(h.inner.unwrap().next, 0x1030);
}

#[test]
fn mapper_checks_the_direct_map_offset() {
    let hhdm = 0xffff_8880_0000_0000u64;
    assert_eq!(active_offset_mapper(hhdm, 0x1000), Ok(hhdm + 0x1000));
    assert_eq!(active_offset_mapper(0, 0x1000), Err(MapperError::BadHhdm));
    assert_eq!(active_offset_mapper(hhdm + 8, 0x1000), Err(MapperError::BadHhdm));
    assert_eq!(active_offset_mapper(hhdm, 0x1008), Err(MapperError::L4Unaligned));
    assert_eq!(mapper_from_boot(hhdm, 0x2000), Ok(hhdm + 0x2000));
    assert_eq!(mapper_from_boot(0, 0x2000), Err(MapperError::BadHhdm));
    assert_eq!(mapper_from_boot(hhdm, 0x2001), Err(MapperError::Pml4Unaligned));
}
