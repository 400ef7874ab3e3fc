use jotunheim::acpi::{checksum_ok, discover, find_sdt_by_sig_rsdt, sdt_valid, CpuEntry, CpuId, IoApic};
use jotunheim::apic::{
    ap_init, early_init, eoi, ipi_fixed, lapic_id_from, lapic_id_plan, load_mode, open_all_irqs, paging, send_init,
    send_startup, set_svr, start_timer_hz, ApicOp, ApicState, IdSource, Mode,
};
use jotunheim::arch_gdt::{tss_stacks, GdtState, StackBases};
use jotunheim::arch_idt;
use jotunheim::boot::{
    elf_layout, exec_plan, hhdm_plan, huge_entry, image_pages, pd_index, pdpt_index, phys_max, pml4_index, pt_index,
    stack_top_sysv, uefi_type_to_kernel, walk_entry, LoadSeg, Walk, elf_header_ok, ident_limit,
};
use jotunheim::bootinfo::MemoryRegion;
use jotunheim::debug::{fault_action, serve, serve_done, DebugGate, FaultAction};
use jotunheim::fault_walk::{first_read, next_read};
use jotunheim::mmio_map::enforce_apic_mmio_flags;
use jotunheim::rsp::Outcome;
use jotunheim::serial::{writer_bytes, SerialState};
use jotunheim::simd::{restore_with_xrstor, save_kind, xsave_mask_halves, SaveKind, XSaveCaps, apply_xcr0, choose_xcr0, cr0_for_simd, cr4_for_simd, enable_sse_avx_boot, probe, round_xsave_size, xsave_caps, SimdState};
use jotunheim::smp::{ap_stack_for, ap_stack_top, aps_to_boot, kick_sequence, KickStep, delay_iters, sipi_vector, trampoline_fits, warm_reset_vector};
use jotunheim::tables::gdt::{gdt_layout, generate, kernel_cs, kernel_ds, selector, selectors_ok, top_raw, Selectors};
use jotunheim::tables::idt::{gate_entry, idtr_for, Idt};
use jotunheim::tables::isr::{self, Stubs};
use jotunheim::tables::{access_interrupt_mut, find_or_allocate_stack_for_cpu, register_cpu, Interrupt, Registry, Slot, Stack};
use jotunheim::transport::Com2Transport;
use jotunheim::tsc::tsc_hz_estimate;
use jotunheim::ioapic::{masked_lo, max_redir, redir_lo_reg, redir_lo_regs};
use jotunheim::split_huge::{split_huge_2m, SPLIT_FLAGS};

fn put_u32(m: &mut [u8], at: usize, v: u32) {
    m[at..at + 4].copy_from_slice(&v.to_le_bytes());
}

fn put_u64(m: &mut [u8], at: usize, v: u64) {
    m[at..at + 8].copy_from_slice(&v.to_le_bytes());
}

fn fix_checksum(m: &mut [u8], start: usize, len: usize, at: usize) {
    m[at] = 0;
    let s: u8 = m[start..start + len].iter().fold(0u8, |a, b| a.wrapping_add(*b));
    m[at] = 0u8.wrapping_sub(s);
}

/// RSDP at 0x100 (revision 0), RSDT at 0x200 listing a MADT at 0x400.
fn acpi_image(lapic_override: bool) -> Vec<u8> {
    let mut m = vec![0u8; 0x1000];
    m[0x100..0x108].copy_from_slice(b"RSD PTR ");
    put_u32(&mut m, 0x110, 0x200);
    fix_checksum(&mut m, 0x100, 20, 0x108);
    m[0x200..0x204].copy_from_slice(b"RSDT");
    put_u32(&mut m, 0x204, 40);
    put_u32(&mut m, 0x224, 0x400);
    fix_checksum(&mut m, 0x200, 40, 0x209);
    let mut e = 0x42c;
    m[0x400..0x404].copy_from_slice(b"APIC");
    put_u32(&mut m, 0x424, 0xfee0_0000);
    // processor local APIC: id 0 enabled, id 1 disabled
    m[e..e + 8].copy_from_slice(&[0, 8, 0, 0, 1, 0, 0, 0]);
    e += 8;
    m[e..e + 8].copy_from_slice(&[0, 8, 1, 1, 0, 0, 0, 0]);
    e += 8;
    // I/O APIC id 2 at 0xfec00000, GSI base 0
    m[e..e + 4].copy_from_slice(&[1, 12, 2, 0]);
    put_u32(&mut m, e + 4, 0xfec0_0000);
    put_u32(&mut m, e + 8, 0);
    e += 12;
    // x2APIC processor id 0x100 enabled
    m[e..e + 4].copy_from_slice(&[9, 16, 0, 0]);
    put_u32(&mut m, e + 4, 0x100);
    put_u32(&mut m, e + 8, 1);
    e += 16;
    if lapic_override {
        m[e..e + 4].copy_from_slice(&[5, 12, 0, 0]);
        put_u64(&mut m, e + 4, 0x1_fee0_0000);
        e += 12;
    }
    let len = e - 0x400;
    put_u32(&mut m, 0x404, len as u32);
    fix_checksum(&mut m, 0x400, len, 0x409);
    m
}

#[test]
fn acpi_madt_discovery() {
    let m = acpi_image(false);
    let info = discover(&m, 0x100).expect("MADT");
    assert_eq!(info.lapic_phys, 0xfee0_0000);
    assert_eq!(
        info.cpus,
        vec![
            CpuEntry { apic_id: 0, enabled: true, is_x2apic: false },
            CpuEntry { apic_id: 1, enabled: false, is_x2apic: false },
            CpuEntry { apic_id: 0x100, enabled: true, is_x2apic: true },
        ]
    );
    assert_eq!(info.ioapics, vec![IoApic { id: 2, mmio_base_phys: 0xfec0_0000, gsi_base: 0 }]);
}

#[test]
fn acpi_lapic_override() {
    let m = acpi_image(true);
    let info = discover(&m, 0x100).unwrap();
    assert_eq!(info.lapic_phys, 0x1_fee0_0000);
}

#[test]
fn acpi_rejects_bad_tables() {
    let mut m = acpi_image(false);
    assert!(discover(&m, 0).is_none());
    assert!(discover(&m, 0x108).is_none());
    m[0x101] = b'X';
    assert!(discover(&m, 0x100).is_none());
    let mut m2 = acpi_image(false);
    m2[0x430] ^= 1;
    assert!(sdt_valid(&m2, 0x400).is_none());
    assert!(discover(&m2, 0x100).is_none());
    // A table whose length cuts its last entry short is refused.
    let mut m4 = acpi_image(false);
    put_u32(&mut m4, 0x404, 0x58 - 8);
    fix_checksum(&mut m4, 0x400, 0x58 - 8, 0x409);
    assert!(sdt_valid(&m4, 0x400).is_some());
    assert!(discover(&m4, 0x100).is_none());
    let m3 = acpi_image(false);
    assert_eq!(find_sdt_by_sig_rsdt(&m3, 0x200, b"APIC"), Some((0x400, 0x58)));
    assert_eq!(find_sdt_by_sig_rsdt(&m3, 0x200, b"HPET"), None);
    assert!(checksum_ok(&[1, 0xff]));
    assert!(!checksum_ok(&[1, 1]));
}

#[test]
fn cpu_ids() {
    assert_eq!(CpuId::me(3).apic, Some(3));
    assert_eq!(CpuId::dummy().apic, None);
}

fn stubs() -> Stubs {
    Stubs { db: 0x10, bp: 0x30, gp: 0xd0, pf: 0xe0, df: 0x80, ud: 0x60, timer: 0x400, spurious: 0xff0 }
}

#[test]
fn handler_registration_order() {
    let mut reg = Registry::new();
    isr::init(&mut reg, &stubs());
    let v: Vec<(u16, u16, u64)> = reg.interrupts.iter().map(|i| (i.vector, i.ist, i.stub)).collect();
    assert_eq!(
        v,
        vec![(0x06, 0, 0x60), (0x08, 2, 0x80), (0x0e, 1, 0xe0), (0x0d, 1, 0xd0), (0x03, 3, 0x30), (0x01, 3, 0x10), (0xff, 0, 0xff0), (0x40, 0, 0x400)]
    );
    assert!(reg.stacks_ready);
    Interrupt::register_with_stack(&mut reg, 0x20, 0x2000, 4);
    assert_eq!(reg.interrupts[0], Interrupt { vector: 0x20, ist: 4, stub: 0x2000 });
    let before = reg.interrupts.clone();
    access_interrupt_mut(&mut reg, |i: Interrupt| if i.vector == 0x20 { Interrupt { ist: 5, ..i } } else { i });
    assert_eq!(reg.interrupts.len(), before.len());
    assert_eq!(reg.interrupts[0], Interrupt { vector: 0x20, ist: 5, stub: 0x2000 });
    assert_eq!(&reg.interrupts[1..], &before[1..]);
}

#[test]
fn idt_built_from_registry() {
    let mut reg = Registry::new();
    isr::init(&mut reg, &stubs());
    Interrupt::register_without_stack(&mut reg, 0x0e, 0x9999);
    let idt: Idt = jotunheim::tables::idt::init(&mut reg, 0x5555);
    assert_eq!(idt.0.len(), 256);
    assert_eq!(idt.0[0x22], gate_entry(0x5555, 0, 0));
    assert_eq!(idt.0[0x40], gate_entry(0x400, 0, 0));
    // The older registration of #PF wins over the newer one.
    assert_eq!(idt.0[0x0e], gate_entry(0xe0, 1, 0));
    let g = gate_entry(0xffff_8000_1234_5678, 9, 3);
    assert_eq!(g.offset_low, 0x5678);
    assert_eq!(g.offset_mid, 0x1234);
    assert_eq!(g.offset_high, 0xffff_8000);
    assert_eq!(g.ist, 1);
    assert_eq!(g.type_attr, 0xee);
    assert_eq!(g.selector, 8);
    let r = idtr_for(0x1000);
    assert_eq!((r.limit, r.base), (4095, 0x1000));
}

#[test]
fn cpu_stacks_registry() {
    let mut reg = Registry::new();
    jotunheim::tables::init(&mut reg);
    let s = register_cpu(&mut reg, CpuId::me(1));
    assert_eq!(s.cpu, CpuId::me(1));
    assert_eq!(s.stacks.len(), 8);
    assert_eq!(s.stacks[0].dump.len(), 0x4_0000);
    let again = find_or_allocate_stack_for_cpu(&mut reg, CpuId::me(1));
    assert_eq!(again.cpu, CpuId::me(1));
    assert_eq!(reg.stacks.len(), 1);
    let other = find_or_allocate_stack_for_cpu(&mut reg, CpuId::me(2));
    assert_eq!(other.cpu, CpuId::me(2));
    assert_eq!(reg.stacks.len(), 2);
    assert_eq!(reg.stacks[0].cpu, CpuId::me(2));
    let boot = jotunheim::tables::gdt::init(&mut reg);
    assert_eq!(boot.cpu, CpuId::dummy());
    assert_eq!(Slot::new().dump.len(), 0x4_0000);
    assert_eq!(Stack::new(CpuId::dummy()).stacks.len(), 8);
}

#[test]
fn gdt_selectors_and_tss() {
    assert_eq!(kernel_cs(), 8);
    assert_eq!(kernel_ds(), 16);
    assert!(selectors_ok(&Selectors { code: 8, data: 16, tss: 24 }));
    assert!(!selectors_ok(&Selectors { code: 0x10, data: 16, tss: 24 }));
    assert_eq!(selector(5), 40);
    assert_eq!(gdt_layout(), Selectors { code: 8, data: 16, tss: 24 });
    assert!(selectors_ok(&gdt_layout()));
    assert_eq!(top_raw(0x1000, 0x1005), 0x2000);
    let t = generate(&vec![0x1000, 0x2000, 0x3000], 0x1000);
    assert_eq!(t.privilege0, 0x2000);
    assert_eq!(t.ist, [0x3000, 0x4000, 0, 0, 0, 0, 0]);
    let b = StackBases { rsp0: 0x1_0000, df: 0x2_0000, pf: 0x3_0000, timer: 0x4_0000, gp: 0x5_0000, ud: 0x6_0000, bp: 0x7_0000, db: 0x8_0000 };
    let t2 = tss_stacks(&b);
    assert_eq!(t2.privilege0, 0x1_1000);
    assert_eq!(t2.ist, [0x2_1000, 0x3_1000, 0x4_1000, 0x5_1000, 0x6_1000, 0x7_1000, 0x8_1000]);
    let mut g = GdtState::new();
    assert!(g.needs_init());
    g.init(Selectors { code: 8, data: 16, tss: 24 });
    g.init(Selectors { code: 1, data: 2, tss: 3 });
    assert_eq!(g.code_selector(), 8);
    assert_eq!(g.data_selector(), 16);
    assert_eq!(g.tss_selector(), 24);
}

#[test]
fn boot_idt_gates() {
    let s = arch_idt::Stubs { default: 0x100, gp: 0x200, pf: 0x300, df: 0x400, ud: 0x500, timer: 0x600, spurious: 0x700, bp: 0x800, db: 0x900 };
    let t = arch_idt::init(&s, 0x28);
    assert_eq!(t.len(), 256);
    assert_eq!(t[8].ist, 1);
    assert_eq!(t[8].offset_low, 0x400);
    assert_eq!(t[0x40].ist, 3);
    assert_eq!(t[1].ist, 7);
    assert_eq!(t[0x41].offset_low, 0x100);
    assert!(t.iter().all(|e| e.selector == 0x28));
    assert_eq!(arch_idt::idtr(0x2000).limit, 4095);
}

#[test]
fn apic_modes_and_writes() {
    let mut st = ApicState { mode: 0, hhdm_base: 0 };
    let w = early_init(&mut st, 0xfee0_0900, false);
    assert_eq!(w, 0xfee0_0900 & !0x400);
    assert_eq!(st.mode, 2);
    assert_eq!(load_mode(&st, 0xfee0_0900), Mode::XApicPhys { phys: 0xfee0_0000 });
    paging(&mut st, 0xffff_8000_0000_0000);
    assert_eq!(st.mode, 3);
    let msr = 0xfee0_0800u64;
    assert_eq!(open_all_irqs(&st, msr), vec![ApicOp::WriteMmio { addr: 0xffff_8000_fee0_0080, val: 0 }]);
    assert_eq!(eoi(&st, msr), vec![ApicOp::WriteMmio { addr: 0xffff_8000_fee0_00b0, val: 0 }]);
    assert_eq!(set_svr(&st, msr, 0xff, true), vec![ApicOp::WriteMmio { addr: 0xffff_8000_fee0_00f0, val: 0x1ff }]);
    assert_eq!(
        start_timer_hz(&st, msr, 1000),
        vec![
            ApicOp::WriteMmio { addr: 0xffff_8000_fee0_03e0, val: 0b1011 },
            ApicOp::WriteMmio { addr: 0xffff_8000_fee0_0320, val: 0x20040 },
            ApicOp::WriteMmio { addr: 0xffff_8000_fee0_0380, val: 10_000 },
        ]
    );
    assert_eq!(
        send_startup(&st, msr, 3, 1),
        vec![
            ApicOp::WriteMmio { addr: 0xffff_8000_fee0_0310, val: 3 << 24 },
            ApicOp::WriteMmio { addr: 0xffff_8000_fee0_0300, val: 0x601 },
            ApicOp::WaitIcr,
        ]
    );
    let mut x2 = ApicState { mode: 0, hhdm_base: 0 };
    let w2 = early_init(&mut x2, 0xfee0_0000, true);
    assert_eq!(w2, 0xfee0_0c00);
    assert_eq!(x2.mode, 1);
    assert_eq!(
        send_init(&x2, w2, 5),
        vec![
            ApicOp::WriteMsr { msr: 0x830, val: (5u64 << 32) | 0xc500 },
            ApicOp::WaitIcr,
            ApicOp::WriteMsr { msr: 0x830, val: (5u64 << 32) | 0x8500 },
            ApicOp::WaitIcr,
        ]
    );
    assert_eq!(ipi_fixed(&x2, w2, 2, 0x40), vec![ApicOp::WriteMsr { msr: 0x830, val: (2u64 << 32) | 0x40 }]);
    assert_eq!(start_timer_hz(&x2, w2, 0)[1], ApicOp::WriteMsr { msr: 0x838, val: 100_000 });
    let mut ap = ApicState { mode: 0, hhdm_base: 0 };
    assert_eq!(ap_init(&mut ap, 0xfee0_0000, false, 0x1000), 0xfee0_0800);
    assert_eq!(ap.mode, 3);
    let unknown = ApicState { mode: 0, hhdm_base: 0 };
    assert!(open_all_irqs(&unknown, msr).is_empty());
}

#[test]
fn apic_id_reads() {
    let mut st = ApicState { mode: 3, hhdm_base: 0x1000 };
    let (write, src) = lapic_id_plan(&mut st, 0xfee0_0800, false);
    assert_eq!(write, None);
    assert_eq!(src, IdSource::Mmio { addr: 0xfee0_1020 });
    assert_eq!(lapic_id_from(src, 0x0300_0000), 3);
    let mut st2 = ApicState { mode: 2, hhdm_base: 0 };
    let (write2, src2) = lapic_id_plan(&mut st2, 0xfee0_0800, true);
    assert_eq!(write2, Some(0xfee0_0c00));
    assert_eq!(src2, IdSource::Msr { msr: 0x802 });
    assert_eq!(st2.mode, 1);
    assert_eq!(lapic_id_from(src2, 0x1_0000_0007), 7);
}

#[test]
fn simd_setup_values() {
    assert_eq!(cr0_for_simd(0x8000_003c), 0x8000_0032 | 0x2);
    assert_eq!(cr4_for_simd(0x20, true, true), 0x20 | 0x600 | 0x4_0000);
    assert_eq!(cr4_for_simd(0x20, true, false), 0x620);
    assert_eq!(choose_xcr0(0x7, true), 7);
    assert_eq!(choose_xcr0(0x7, false), 3);
    assert_eq!(choose_xcr0(0x1, true), 0);
    assert_eq!(apply_xcr0(0x4_0000, 7), (true, 7));
    assert_eq!(apply_xcr0(0, 7), (false, 3));
    assert_eq!(round_xsave_size(576), 576);
    assert_eq!(round_xsave_size(577), 640);
    assert_eq!(round_xsave_size(0), 0);
    let c = xsave_caps(0x1c00_0000, 1, 7, 0, 7, 832);
    assert!(c.has_xsave && c.has_osxsave && c.has_avx && c.has_xsaveopt);
    assert_eq!(c.xsave_size, 832);
    assert_eq!(c.xcr0_mask_supported, 7);
    let b = enable_sse_avx_boot(0x0400_0000, 0, 3, 513);
    assert!(b.has_xsave && !b.has_osxsave && !b.has_avx && !b.has_xsaveopt);
    assert_eq!(b.xsave_size, 576);
    let p = probe(0x1800_0000, 0x0400_0000, 1024, 0x7, 0x1);
    assert!(p.xsave_supported && p.avx_supported);
    assert_eq!(p.xsave_size, 1024);
    assert_eq!(p.xsave_mask, (1u64 << 32) | 7);
    let mut s = SimdState::new();
    assert!(!s.simd_ready());
    assert!(s.needs_setup());
    assert_eq!(s.record(0x1c00_0000, 1, 7, 0, 7, 832), c);
    assert!(s.simd_ready());
    assert!(!s.needs_setup());
    assert_eq!(s.caps(), c);
    // A second setup leaves the first record in place.
    assert_eq!(s.record(0x0400_0000, 0, 3, 0, 3, 513), c);
    assert_eq!(s.caps(), c);
    let mut s2 = SimdState::new();
    assert_eq!(s2.record(0x0400_0000, 0, 3, 0, 3, 513).xsave_size, 576);
}

#[test]
fn smp_plan() {
    assert_eq!(sipi_vector(0x1000), 1);
    assert_eq!(sipi_vector(0x8000), 8);
    assert_eq!(warm_reset_vector(0x1000), (0x100, 0));
    assert!(trampoline_fits(4096));
    assert!(!trampoline_fits(4097));
    let cpus = vec![
        CpuEntry { apic_id: 0, enabled: true, is_x2apic: false },
        CpuEntry { apic_id: 1, enabled: false, is_x2apic: false },
        CpuEntry { apic_id: 2, enabled: true, is_x2apic: false },
        CpuEntry { apic_id: 3, enabled: true, is_x2apic: true },
    ];
    assert_eq!(aps_to_boot(&cpus, 0), vec![2, 3]);
    assert_eq!(aps_to_boot(&cpus, 2), vec![0, 3]);
    assert_eq!(ap_stack_top(0x1000, 0x8000), 0x8ff0);
    assert_eq!(ap_stack_for(0x1000, 0x8000), Some(0x8ff0));
    assert_eq!(ap_stack_for(0, 0x8000), None);
    assert_eq!(
        kick_sequence(),
        vec![KickStep::Init, KickStep::DelayUs(10_000), KickStep::Startup, KickStep::DelayUs(200), KickStep::Startup]
    );
    assert_eq!(delay_iters(10_000), 2_000_000);
    assert_eq!(delay_iters(u64::MAX), u64::MAX);
    assert!(jotunheim::smp::pml4_reachable(0xffff_f000));
    assert!(!jotunheim::smp::pml4_reachable(0x1_0000_0000));
    let r = jotunheim::smp::ap_boot_record(1, 2, 3, 4, 5);
    assert_eq!((r.ready_flag, r.cr3, r.idt_ptr, r.entry64), (0, 1, 0, 4));
}

#[test]
fn loader_paging_and_layout() {
    let va = 0xffff_8000_4020_3000u64;
    assert_eq!(pml4_index(va), 256);
    assert_eq!(pdpt_index(va), 1);
    assert_eq!(pd_index(va), 1);
    assert_eq!(pt_index(va), 3);
    assert_eq!(huge_entry(0x4000_0123), 0x4000_0083);
    assert_eq!(walk_entry(0, true), Walk::Alloc);
    assert_eq!(walk_entry(0x2000_0083, true), Walk::Huge);
    assert_eq!(walk_entry(0x2000_0083, false), Walk::Next(0x2000_0000));
    assert_eq!(uefi_type_to_kernel(7), 1);
    assert_eq!(uefi_type_to_kernel(9), 8);
    assert_eq!(uefi_type_to_kernel(11), 0);
    let regions = vec![
        MemoryRegion { phys_start: 0, virt_start: 0, len: 0x9f000, typ: 1, attr: 0 },
        MemoryRegion { phys_start: 0x100000, virt_start: 0, len: 0x7ff00000, typ: 1, attr: 0 },
    ];
    assert_eq!(phys_max(&regions), 0x8000_0000);
    assert_eq!(phys_max(&vec![]), 0);
    let segs = vec![
        LoadSeg { is_load: true, vaddr: 0x20_0000, mem_size: 0x1234, align: 0x20_0000 },
        LoadSeg { is_load: false, vaddr: 0x1000, mem_size: 0x100, align: 0 },
        LoadSeg { is_load: true, vaddr: 0x30_0000, mem_size: 0, align: 0 },
        LoadSeg { is_load: true, vaddr: 0x21_0000, mem_size: 0x10, align: 0x1000 },
    ];
    assert_eq!(elf_layout(&segs), Some((0x20_0000, 0x21_1000, 0x20_0000)));
    assert_eq!(elf_layout(&vec![]), None);
    assert_eq!(image_pages(0x20_0000, 0x21_1000, 0x20_0000), 0x212);
    assert_eq!(stack_top_sysv(0x10_0000, 16), 0x11_0000 - 8);
    assert_eq!(hhdm_plan(0xffff_8000_0000_0000, 0x8000_0000), (0x8000_0000, 0x8000_0000));
    assert_eq!(hhdm_plan(0xffff_8000_0000_0000, 0x4060_1000), (0x4000_0000, 0x4060_0000));
    assert_eq!(hhdm_plan(0xffff_8000_0010_0000, 0x40_0000), (0, 0));
    let p = exec_plan(0x10_0000, 0x30_0000, 0x400_0000);
    assert_eq!(p.low, Some((0x10_0000, 0x20_0000)));
    assert_eq!(p.rest, (0x20_0000, 0x30_0000));
    assert_eq!(p.ident_below, Some((0x1000, 0x10_0000)));
    assert_eq!(p.ident_above, None);
    assert_eq!(p.ident_end, 0x400_0000);
}

#[test]
fn consoles() {
    let mut s = SerialState::new();
    assert!(s.com1_putc(b'x').is_empty());
    assert!(s.com1_text(b"a\n").is_none());
    s.init_com1();
    assert!(s.com1_ready());
    assert!(!s.com2_ready());
    assert_eq!(s.com1_putc(b'x'), vec![b'x']);
    assert_eq!(s.com1_write(b"ab"), b"ab".to_vec());
    assert_eq!(s.com1_getc_nb(Some(b'k')), Some(b'k'));
    assert_eq!(s.com2_getc_nb(Some(b'k')), None);
    assert_eq!(s.banner_com1("boot"), b"\n---[ boot ]---\n".to_vec());
    assert!(s.banner_com2("boot").is_empty());
    assert_eq!(s.com1_text(b"a\nb\n"), Some(b"a\r\nb\r\n".to_vec()));
    assert_eq!(writer_bytes(b""), Vec::<u8>::new());
    s.init_com2();
    assert_eq!(s.com2_write(b"z"), b"z".to_vec());
    let t = Com2Transport;
    assert!(t.can_send(0x60));
    assert!(!t.can_send(0x01));
    assert!(t.can_receive(0x61));
    assert!(!t.can_receive(0x60));
}

#[test]
fn debugger_entry() {
    let mut g = DebugGate::new();
    assert_eq!(serve(&mut g), None);
    assert!(g.active);
    assert!(matches!(serve(&mut g), Some(Outcome::Continue)));
    assert!(matches!(serve_done(&mut g, Outcome::SingleStep), Outcome::SingleStep));
    assert!(!g.active);
    assert_eq!(fault_action(true, 0x1234), FaultAction::Breakpoint(0x1234));
    assert_eq!(fault_action(false, 0x1234), FaultAction::ExitTask);
}

#[test]
fn page_fault_walk() {
    let va = 0x0000_7fff_c020_3000u64;
    assert_eq!(first_read(0x10_0fff, va), 0x10_0000 + 8 * 0xff);
    assert_eq!(next_read(va, 0, 0x20_0003), Some(0x20_0000 + 8 * 0x1ff));
    assert_eq!(next_read(va, 1, 0x30_0083), None);
    assert_eq!(next_read(va, 2, 0x40_0001), Some(0x40_0000 + 8 * 3));
    assert_eq!(next_read(va, 0, 0x20_0002), None);
}

#[test]
fn apic_page_flags() {
    let r = enforce_apic_mmio_flags();
    assert_eq!(r[0].0, 0xfec0_0000);
    assert_eq!(r[1].0, 0xfee0_0000);
    assert_eq!(r[0].1, 0x8000_0000_0000_001b);
}

#[test]
fn tsc_frequency_prefers_the_crystal_ratio() {
    // 24 MHz crystal, ratio 250 / 2: 3 GHz
    assert_eq!(tsc_hz_estimate(2, 250, 24_000_000, 0), 3_000_000_000);
    assert_eq!(tsc_hz_estimate(3, 7, 100, 2000), 233);
    // leaf 0x15 incomplete: leaf 0x16 base frequency in MHz (low 16 bits)
    assert_eq!(tsc_hz_estimate(0, 250, 24_000_000, 0xABCD_0BB8), 3_000_000_000);
    assert_eq!(tsc_hz_estimate(1, 0, 24_000_000, 2100), 2_100_000_000);
    // neither leaf: the 3 GHz default
    assert_eq!(tsc_hz_estimate(0, 0, 0, 0xFFFF_0000), 3_000_000_000);
    // largest product does not overflow
    assert_eq!(tsc_hz_estimate(1, u32::MAX, u32::MAX, 0), (u32::MAX as u64) * (u32::MAX as u64));
}

#[test]
fn ioapic_masking_touches_every_entry() {
    assert_eq!(max_redir(0x0017_0020), 0x17);
    assert_eq!(max_redir(0xFFFF_FFFF), 0xFF);
    assert_eq!(redir_lo_reg(0), 0x10);
    assert_eq!(redir_lo_reg(0x17), 0x3E);
    let regs = redir_lo_regs(0x0017_0020);
    assert_eq!(regs.len(), 24);
    assert_eq!(regs[0], 0x10);
    assert_eq!(regs[23], 0x3E);
    assert_eq!(masked_lo(0x0000_0031), 0x0001_0031);
    assert_eq!(masked_lo(0x0001_0031), 0x0001_0031);
    assert_eq!(redir_lo_regs(0).len(), 1);
}

#[test]
fn splitting_a_huge_page_maps_its_range_identically() {
    let pages = split_huge_2m(0x0040_1234);
    assert_eq!(pages.len(), 512);
    assert_eq!(pages[0], (0x0040_0000, 0x0040_0000));
    assert_eq!(pages[1], (0x0040_1000, 0x0040_1000));
    assert_eq!(pages[511], (0x005F_F000, 0x005F_F000));
    assert_eq!(SPLIT_FLAGS, 0x103);
    let top = split_huge_2m(u64::MAX);
    assert_eq!(top[511].0, 0xFFFF_FFFF_FFFF_F000);
}

#[test]
fn loader_accepts_only_x86_64_elf64_le() {
    assert!(elf_header_ok(2, 1, 0x3E));
    assert!(!elf_header_ok(1, 1, 0x3E));
    assert!(!elf_header_ok(2, 2, 0x3E));
    assert!(!elf_header_ok(2, 1, 0xB7));
}

#[test]
fn identity_map_reaches_every_loader_buffer_and_the_apics() {
    assert_eq!(ident_limit(&[0x1000, 0x20_0000, 0x4000]), 0xFEE0_1000);
    assert_eq!(ident_limit(&[0x1_2000_0000, 0x3000]), 0x1_2000_0000);
    assert_eq!(ident_limit(&[]), 0xFEE0_1000);
    assert_eq!(ident_limit(&[0xFEE0_1001]), 0xFEE0_1001);
}

#[test]
fn simd_state_is_saved_with_the_best_available_instruction() {
    let mut c = XSaveCaps {
        has_xsave: true,
        has_osxsave: true,
        has_avx: true,
        has_xsaveopt: true,
        xcr0_mask_supported: 7,
        xsave_size: 832,
        xcr0: 7,
    };
    assert_eq!(save_kind(&c, true), SaveKind::XsaveOpt);
    assert!(restore_with_xrstor(&c, true));
    assert_eq!(save_kind(&c, false), SaveKind::Fxsave);
    assert!(!restore_with_xrstor(&c, false));
    c.has_xsaveopt = false;
    assert_eq!(save_kind(&c, true), SaveKind::Xsave);
    c.has_osxsave = false;
    assert_eq!(save_kind(&c, true), SaveKind::Fxsave);
    assert!(!restore_with_xrstor(&c, true));
    assert_eq!(xsave_mask_halves(0x0000_0002_0000_0007), (7, 2));
}
