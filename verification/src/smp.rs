//! Bringing up the application processors: which CPUs to start, the
//! start-up vector and warm-reset vector of the trampoline page, and the
//! record each AP reads on entry.
use vstd::prelude::*;
use crate::acpi::CpuEntry;

verus! {

/// Physical page the real-mode trampoline is copied to.
pub const TRAMP_PHYS: u64 = 0x1000;

/// The largest trampoline that fits its page.
pub const TRAMP_MAX: usize = 4096;

/// What an AP reads when it enters 64-bit mode.
#[derive(Clone, Copy, Debug, PartialEq, Eq)]
pub struct ApBoot {
    /// Set to 1 by the trampoline just before it jumps to the entry.
    pub ready_flag: u32,
    pub _pad: u32,
    pub cr3: u64,
    pub gdt_ptr: u64,
    pub idt_ptr: u64,
    pub stack_top: u64,
    pub entry64: u64,
    pub hhdm: u64,
}

/// The start-up IPI vector: the trampoline's page number.
pub fn sipi_vector(tramp_phys: u64) -> (v: u8)
    ensures
        v == ((tramp_phys >> 12u64) & 0xFF) as u8,
{
    ((tramp_phys >> 12u64) & 0xFF) as u8
}

/// The BIOS warm-reset vector for the trampoline: segment and offset.
pub fn warm_reset_vector(tramp_phys: u64) -> (r: (u16, u16))
    ensures
        r == ((tramp_phys >> 4u64) as u16, 0u16),
{
    ((tramp_phys >> 4u64) as u16, 0)
}

/// Whether a trampoline of `len` bytes fits its page.
pub fn trampoline_fits(len: usize) -> (b: bool)
    ensures
        b == (len <= TRAMP_MAX),
{
    len <= TRAMP_MAX
}

/// Whether the top-level page table can be loaded by 32-bit code (below
/// 4 GiB).
pub fn pml4_reachable(pml4_pa: u64) -> (b: bool)
    ensures
        b == (pml4_pa < 0x1_0000_0000),
{
    pml4_pa < 0x1_0000_0000
}

/// The APs to start, in table order: enabled processors other than the
/// boot processor.
pub open spec fn aps_spec(cpus: Seq<CpuEntry>, bsp: u32) -> Seq<u32>
    decreases cpus.len(),
{
    if cpus.len() == 0 {
        Seq::empty()
    } else {
        let rest = aps_spec(cpus.drop_last(), bsp);
        let c = cpus.last();
        if c.enabled && c.apic_id != bsp {
            rest.push(c.apic_id)
        } else {
            rest
        }
    }
}

/// The APs to start (see `aps_spec`).
pub fn aps_to_boot(cpus: &Vec<CpuEntry>, bsp: u32) -> (r: Vec<u32>)
    ensures
        r@ == aps_spec(cpus@, bsp),
{
    let mut r: Vec<u32> = Vec::new();
    let n = cpus.len();
    let mut i: usize = 0;
    while i < n
        invariant
            i <= n,
            n == cpus@.len(),
            r@ == aps_spec(cpus@.subrange(0, i as int), bsp),
        decreases n - i,
    {
        let c = cpus[i];
        assert(cpus@.subrange(0, i + 1).drop_last() =~= cpus@.subrange(0, i as int));
        if c.enabled && c.apic_id != bsp {
            r.push(c.apic_id);
        }
        i += 1;
    }
    assert(cpus@.subrange(0, n as int) =~= cpus@);
    r
}

/// The top of an AP's stack of `len` bytes at `base`: its last byte,
/// 16-byte aligned down.
pub fn ap_stack_top(base: u64, len: u64) -> (t: u64)
    requires
        len >= 1,
        base + len <= u64::MAX,
    ensures
        t == ((base + len - 1) as u64) & !0xFu64,
{
    (base + len - 1) & !0xFu64
}

/// The stack top handed to an AP whose interrupt stack of `len` bytes
/// starts at `base`; `None` when the AP has no stack (`base` is 0), and the
/// AP is then skipped.
pub fn ap_stack_for(base: u64, len: u64) -> (t: Option<u64>)
    requires
        len >= 1,
        base == 0 || base + len <= u64::MAX,
    ensures
        t == if base == 0 {
            None
        } else {
            Some(((base + len - 1) as u64) & !0xFu64)
        },
{
    if base == 0 {
        None
    } else {
        Some(ap_stack_top(base, len))
    }
}

/// The record for an AP: not yet ready, no IDT pointer.
pub fn ap_boot_record(cr3: u64, gdt_ptr: u64, stack_top: u64, entry64: u64, hhdm: u64) -> (b: ApBoot)
    ensures
        b == (ApBoot { ready_flag: 0, _pad: 0, cr3, gdt_ptr, idt_ptr: 0, stack_top, entry64, hhdm }),
{
    ApBoot { ready_flag: 0, _pad: 0, cr3, gdt_ptr, idt_ptr: 0, stack_top, entry64, hhdm }
}

/// One step of waking an AP.
#[derive(Clone, Copy, Debug, PartialEq, Eq)]
pub enum KickStep {
    /// Send INIT to the AP.
    Init,
    /// Send a startup IPI with the trampoline's vector.
    Startup,
    /// Spin for this many microseconds.
    DelayUs(u64),
}

/// The wake-up sequence for an AP: INIT, 10 ms, startup, 200 us, startup.
pub fn kick_sequence() -> (v: Vec<KickStep>)
    ensures
        v@ == seq![KickStep::Init, KickStep::DelayUs(10_000), KickStep::Startup, KickStep::DelayUs(200), KickStep::Startup],
{
    let mut v: Vec<KickStep> = Vec::new();
    v.push(KickStep::Init);
    v.push(KickStep::DelayUs(10_000));
    v.push(KickStep::Startup);
    v.push(KickStep::DelayUs(200));
    v.push(KickStep::Startup);
    v
}

/// How many times the BSP polls an AP's ready flag before giving up.
pub const READY_POLLS: u64 = 200_000;

/// Spin iterations for a delay of `us` microseconds (uncalibrated).
pub fn delay_iters(us: u64) -> (n: u64)
    ensures
        n == if us * 200 > u64::MAX {
            u64::MAX
        } else {
            (us * 200) as u64
        },
{
    if us > u64::MAX / 200 {
        u64::MAX
    } else {
        us * 200
    }
}

/// Every AP started is enabled and is not the boot processor, and each
/// enabled non-boot processor of the table is started.
pub proof fn lemma_aps(cpus: Seq<CpuEntry>, bsp: u32)
    ensures
        forall|k: int|
            0 <= k < aps_spec(cpus, bsp).len() ==> exists|i: int|
                0 <= i < cpus.len() && (#[trigger] cpus[i]).enabled && cpus[i].apic_id != bsp
                    && cpus[i].apic_id == #[trigger] aps_spec(cpus, bsp)[k],
        forall|i: int|
            0 <= i < cpus.len() && (#[trigger] cpus[i]).enabled && cpus[i].apic_id != bsp
                ==> aps_spec(cpus, bsp).contains(cpus[i].apic_id),
    decreases cpus.len(),
{
    if cpus.len() > 0 {
        let init = cpus.drop_last();
        lemma_aps(init, bsp);
        let rest = aps_spec(init, bsp);
        let out = aps_spec(cpus, bsp);
        assert forall|k: int| 0 <= k < out.len() implies exists|i: int|
            0 <= i < cpus.len() && (#[trigger] cpus[i]).enabled && cpus[i].apic_id != bsp
                && cpus[i].apic_id == #[trigger] out[k] by {
            if k < rest.len() {
                assert(out[k] == rest[k]);
                let i = choose|i: int|
                    0 <= i < init.len() && (#[trigger] init[i]).enabled && init[i].apic_id != bsp
                        && init[i].apic_id == rest[k];
                assert(cpus[i] == init[i]);
            } else {
                assert(cpus[cpus.len() - 1].apic_id == out[k]);
            }
        }
        assert forall|i: int|
            0 <= i < cpus.len() && (#[trigger] cpus[i]).enabled && cpus[i].apic_id != bsp implies out.contains(
            cpus[i].apic_id) by {
            if i < init.len() {
                assert(init[i] == cpus[i]);
                assert(rest.contains(cpus[i].apic_id));
                let k = choose|k: int| 0 <= k < rest.len() && rest[k] == cpus[i].apic_id;
                assert(out[k] == rest[k]);
            } else {
                assert(out[out.len() - 1] == cpus[i].apic_id);
            }
        }
    }
}

} // verus!
