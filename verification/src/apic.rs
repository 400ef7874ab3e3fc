//! The local APIC driver's decisions: which mode the APIC runs in (x2APIC
//! through MSRs, or xAPIC through memory-mapped registers), and the
//! register writes each operation makes in that mode. The caller reads the
//! APIC base MSR and CPUID, performs the writes in order, and spins on the
//! interrupt command register where a wait is asked for.
use vstd::prelude::*;

verus! {

/// The APIC base MSR: bit 11 enables the APIC, bit 10 selects x2APIC.
pub const MSR_IA32_APIC_BASE: u32 = 0x1B;
pub const MSR_X2APIC_APICID: u32 = 0x802;
pub const MSR_X2APIC_TPR: u32 = 0x808;
pub const MSR_X2APIC_EOI: u32 = 0x80B;
pub const MSR_X2APIC_SIVR: u32 = 0x80F;
pub const MSR_X2APIC_ICR: u32 = 0x830;
pub const MSR_X2APIC_LVT_TIMER: u32 = 0x832;
pub const MSR_X2APIC_INIT_COUNT: u32 = 0x838;

/// Byte offsets of the memory-mapped registers.
pub const LAPIC_ID: u64 = 0x20;
pub const LAPIC_TPR: u64 = 0x80;
pub const LAPIC_EOI: u64 = 0xB0;
pub const LAPIC_SIVR: u64 = 0xF0;
pub const LAPIC_ICRLO: u64 = 0x300;
pub const LAPIC_ICRHI: u64 = 0x310;
pub const LAPIC_LVT_TMR: u64 = 0x320;
pub const LAPIC_INITCNT: u64 = 0x380;
pub const LAPIC_DCR: u64 = 0x3E0;

/// The physical address bits of the APIC base MSR.
pub const APIC_PHYS_MASK: u64 = 0xFFFF_F000;

/// The timer's vector.
pub const TIMER_VECTOR: u8 = 0x40;

/// The spurious-interrupt vector.
pub const SPURIOUS_VECTOR: u8 = 0xFF;

/// The APIC mode.
#[derive(Clone, Copy, Debug, PartialEq, Eq)]
pub enum Mode {
    Unknown,
    /// Registers are MSRs.
    X2Apic,
    /// Registers are memory mapped; not yet reachable through the direct map.
    XApicPhys { phys: u64 },
    /// Registers are memory mapped at `base`.
    XApic { base: u64 },
}

/// What the driver keeps: the mode's code (0 unknown, 1 x2APIC, 2 xAPIC
/// before paging, 3 xAPIC) and the direct-map base.
#[derive(Clone, Copy, Debug, PartialEq, Eq)]
pub struct ApicState {
    pub mode: u8,
    pub hhdm_base: u64,
}

/// One register access the caller performs.
#[allow(inconsistent_fields)]
#[derive(Clone, Copy, Debug, PartialEq, Eq)]
pub enum ApicOp {
    WriteMsr { msr: u32, val: u64 },
    WriteMmio { addr: u64, val: u32 },
    /// Spin until the interrupt command register's delivery bit (12) clears.
    WaitIcr,
}

/// How the local APIC id is read.
#[derive(Clone, Copy, Debug, PartialEq, Eq)]
pub enum IdSource {
    Msr { msr: u32 },
    Mmio { addr: u64 },
}

/// The mode's code.
pub open spec fn mode_code_spec(m: Mode) -> u8 {
    match m {
        Mode::Unknown => 0,
        Mode::X2Apic => 1,
        Mode::XApicPhys { .. } => 2,
        Mode::XApic { .. } => 3,
    }
}

/// Where the registers are mapped, given the base MSR.
pub open spec fn mmio_base(hhdm: u64, apic_msr: u64) -> int {
    hhdm + (apic_msr & APIC_PHYS_MASK)
}

/// The base MSR with the APIC enabled and x2APIC selected exactly when the
/// CPU supports it.
pub open spec fn enabled_base(msr: u64, has_x2: bool) -> u64 {
    if has_x2 {
        msr | 0x800u64 | 0x400u64
    } else {
        (msr | 0x800u64) & !0x400u64
    }
}

/// The mode's code.
pub fn mode_code(m: Mode) -> (c: u8)
    ensures
        c == mode_code_spec(m),
{
    match m {
        Mode::Unknown => 0,
        Mode::X2Apic => 1,
        Mode::XApicPhys { .. } => 2,
        Mode::XApic { .. } => 3,
    }
}

/// The mode a code stands for, with the addresses taken from the base MSR
/// and the direct map.
pub fn load_mode(state: &ApicState, apic_msr: u64) -> (m: Mode)
    requires
        state.mode == 3 ==> mmio_base(state.hhdm_base, apic_msr) <= u64::MAX,
    ensures
        state.mode == 1 ==> m == Mode::X2Apic,
        state.mode == 2 ==> m == (Mode::XApicPhys { phys: apic_msr & APIC_PHYS_MASK }),
        state.mode == 3 ==> m == (Mode::XApic { base: mmio_base(state.hhdm_base, apic_msr) as u64 }),
        state.mode == 0 || state.mode > 3 ==> m == Mode::Unknown,
{
    match state.mode {
        1 => Mode::X2Apic,
        2 => Mode::XApicPhys { phys: apic_msr & APIC_PHYS_MASK },
        3 => Mode::XApic { base: state.hhdm_base + (apic_msr & APIC_PHYS_MASK) },
        _ => Mode::Unknown,
    }
}

/// The base MSR value that enables the APIC (see `enabled_base`).
fn enable_bits(msr: u64, has_x2: bool) -> (r: u64)
    ensures
        r == enabled_base(msr, has_x2),
{
    let base = msr | 0x800u64;
    if has_x2 {
        base | 0x400u64
    } else {
        base & !0x400u64
    }
}

/// Phase one on the boot CPU: enables the APIC (x2APIC where the CPU has
/// it) and records the mode. Returns the value to write to the base MSR.
pub fn early_init(state: &mut ApicState, apic_msr: u64, has_x2: bool) -> (w: u64)
    ensures
        w == enabled_base(apic_msr, has_x2),
        (w & 0x400 != 0) == has_x2,
        w & 0x800 != 0,
        final(state).mode == if has_x2 {
            1u8
        } else {
            2u8
        },
        final(state).hhdm_base == old(state).hhdm_base,
{
    let base = enable_bits(apic_msr, has_x2);
    proof {
        lemma_enable_bits(apic_msr);
    }
    if base & 0x400 != 0 {
        state.mode = mode_code(Mode::X2Apic);
    } else {
        state.mode = mode_code(Mode::XApicPhys { phys: base & APIC_PHYS_MASK });
    }
    base
}

/// Phase two on the boot CPU, once the direct map is up: records its base
/// and moves an xAPIC to its mapped registers. The mode keeps no base of
/// its own: a mapped xAPIC is always reached through the direct-map base
/// recorded last (see `load_mode`).
pub fn paging(state: &mut ApicState, hhdm_base: u64)
    ensures
        final(state).hhdm_base == hhdm_base,
        final(state).mode == if old(state).mode == 2 {
            3u8
        } else {
            old(state).mode
        },
{
    state.hhdm_base = hhdm_base;
    if state.mode == 2 {
        state.mode = 3;
    }
}

/// An application processor's own setup: enables its APIC as in phase
/// one, records the direct map and picks the mapped mode directly. Returns
/// the value to write to the base MSR.
pub fn ap_init(state: &mut ApicState, apic_msr: u64, has_x2: bool, hhdm_base: u64) -> (w: u64)
    ensures
        w == enabled_base(apic_msr, has_x2),
        final(state).hhdm_base == hhdm_base,
        final(state).mode == if has_x2 {
            1u8
        } else {
            3u8
        },
{
    let base = enable_bits(apic_msr, has_x2);
    proof {
        lemma_enable_bits(apic_msr);
    }
    state.hhdm_base = hhdm_base;
    if base & 0x400 != 0 {
        state.mode = 1;
    } else {
        state.mode = 3;
    }
    base
}

/// Reading this CPU's APIC id: first the base MSR is brought to "enabled,
/// x2APIC as supported" (the returned write, if it changed), then the id is
/// read from the returned place. Where the new value selects x2APIC the mode
/// becomes x2APIC.
pub fn lapic_id_plan(state: &mut ApicState, apic_msr: u64, has_x2: bool) -> (r: (Option<u64>, IdSource))
    requires
        mmio_base(old(state).hhdm_base, enabled_base(apic_msr, has_x2)) + LAPIC_ID <= u64::MAX,
    ensures
        ({
            let nb = enabled_base(apic_msr, has_x2);
            let changed = nb != apic_msr;
            let m = if changed && has_x2 {
                1u8
            } else {
                old(state).mode
            };
            &&& r.0 == if changed {
                Some(nb)
            } else {
                None::<u64>
            }
            &&& final(state).mode == m
            &&& final(state).hhdm_base == old(state).hhdm_base
            &&& r.1 == if m == 1 {
                IdSource::Msr { msr: MSR_X2APIC_APICID }
            } else {
                IdSource::Mmio {
                    addr: (mmio_base(old(state).hhdm_base, if changed {
                        nb
                    } else {
                        apic_msr
                    }) + LAPIC_ID) as u64,
                }
            }
        }),
{
    let new_base = enable_bits(apic_msr, has_x2);
    let mut base = apic_msr;
    let mut write: Option<u64> = None;
    proof {
        lemma_enable_bits(apic_msr);
    }
    if new_base != base {
        write = Some(new_base);
        base = new_base;
        if base & 0x400 != 0 {
            state.mode = 1;
        }
    }
    if state.mode == 1 {
        (write, IdSource::Msr { msr: MSR_X2APIC_APICID })
    } else {
        proof {
            lemma_enable_bits(base);
        }
        (write, IdSource::Mmio { addr: state.hhdm_base + (base & APIC_PHYS_MASK) + LAPIC_ID })
    }
}

/// The id from the raw value read: an x2APIC id is the whole MSR's low
/// half, an xAPIC id the top byte of the id register.
pub fn lapic_id_from(src: IdSource, raw: u64) -> (id: u32)
    ensures
        src is Msr ==> id == raw as u32,
        src is Mmio ==> id == (raw as u32) >> 24u32,
{
    match src {
        IdSource::Msr { .. } => raw as u32,
        IdSource::Mmio { .. } => (raw as u32) >> 24u32,
    }
}

/// A write of `val` to the memory-mapped register at byte offset `off`.
pub open spec fn mmio_op(base: int, off: u64, val: u32) -> ApicOp {
    ApicOp::WriteMmio { addr: (base + off) as u64, val }
}

/// Whether the registers, if memory mapped, lie in the address space.
pub open spec fn mmio_fits(state: ApicState, apic_msr: u64) -> bool {
    mmio_base(state.hhdm_base, apic_msr) + 0x400 <= u64::MAX
}

fn reg(state: &ApicState, apic_msr: u64, off: u64) -> (a: u64)
    requires
        mmio_fits(*state, apic_msr),
        off < 0x400,
    ensures
        a == mmio_base(state.hhdm_base, apic_msr) + off,
{
    proof {
        lemma_enable_bits(apic_msr);
    }
    state.hhdm_base + (apic_msr & APIC_PHYS_MASK) + off
}

/// Lets every priority through on this CPU (task priority 0).
pub fn open_all_irqs(state: &ApicState, apic_msr: u64) -> (ops: Vec<ApicOp>)
    requires
        state.mode == 3 ==> mmio_fits(*state, apic_msr),
    ensures
        ops@ == if state.mode == 1 {
            seq![ApicOp::WriteMsr { msr: MSR_X2APIC_TPR, val: 0 }]
        } else if state.mode == 3 {
            seq![mmio_op(mmio_base(state.hhdm_base, apic_msr), LAPIC_TPR, 0)]
        } else {
            Seq::empty()
        },
{
    let mut ops: Vec<ApicOp> = Vec::new();
    if state.mode == 1 {
        ops.push(ApicOp::WriteMsr { msr: MSR_X2APIC_TPR, val: 0 });
    } else if state.mode == 3 {
        ops.push(ApicOp::WriteMmio { addr: reg(state, apic_msr, LAPIC_TPR), val: 0 });
    }
    ops
}

/// The spurious-vector register value: the vector, with bit 8 set to
/// enable the APIC.
pub open spec fn svr_value(vector: u8, enable: bool) -> u32 {
    (vector as u32) | if enable {
        0x100u32
    } else {
        0u32
    }
}

/// Programs the spurious-interrupt vector register. Outside the two known
/// modes the write goes to the mapped registers anyway.
pub fn set_svr(state: &ApicState, apic_msr: u64, vector: u8, enable: bool) -> (ops: Vec<ApicOp>)
    requires
        state.mode != 1 ==> mmio_fits(*state, apic_msr),
    ensures
        ops@ == if state.mode == 1 {
            seq![ApicOp::WriteMsr { msr: MSR_X2APIC_SIVR, val: svr_value(vector, enable) as u64 }]
        } else {
            seq![mmio_op(mmio_base(state.hhdm_base, apic_msr), LAPIC_SIVR, svr_value(vector, enable))]
        },
{
    let val: u32 = (vector as u32) | if enable {
        0x100u32
    } else {
        0u32
    };
    let mut ops: Vec<ApicOp> = Vec::new();
    if state.mode == 1 {
        ops.push(ApicOp::WriteMsr { msr: MSR_X2APIC_SIVR, val: val as u64 });
    } else {
        ops.push(ApicOp::WriteMmio { addr: reg(state, apic_msr, LAPIC_SIVR), val });
    }
    ops
}

/// Signals end of interrupt.
pub fn eoi(state: &ApicState, apic_msr: u64) -> (ops: Vec<ApicOp>)
    requires
        state.mode != 1 ==> mmio_fits(*state, apic_msr),
    ensures
        ops@ == if state.mode == 1 {
            seq![ApicOp::WriteMsr { msr: MSR_X2APIC_EOI, val: 0 }]
        } else {
            seq![mmio_op(mmio_base(state.hhdm_base, apic_msr), LAPIC_EOI, 0)]
        },
{
    let mut ops: Vec<ApicOp> = Vec::new();
    if state.mode == 1 {
        ops.push(ApicOp::WriteMsr { msr: MSR_X2APIC_EOI, val: 0 });
    } else {
        ops.push(ApicOp::WriteMmio { addr: reg(state, apic_msr, LAPIC_EOI), val: 0 });
    }
    ops
}

/// The interrupt command for `dest` with low half `lo`, as the x2APIC takes
/// it in one MSR write.
pub open spec fn icr64(dest: u32, lo: u64) -> u64 {
    ((dest as u64) << 32u64) | lo
}

/// The xAPIC high command word: the destination in the top byte.
pub open spec fn icr_hi(dest: u32) -> u32 {
    dest << 24u32
}

/// Sends a fixed-delivery IPI with `vector` to `dest`.
pub fn ipi_fixed(state: &ApicState, apic_msr: u64, dest: u32, vector: u8) -> (ops: Vec<ApicOp>)
    requires
        state.mode != 1 ==> mmio_fits(*state, apic_msr),
    ensures
        ops@ == if state.mode == 1 {
            seq![ApicOp::WriteMsr { msr: MSR_X2APIC_ICR, val: icr64(dest, vector as u64) }]
        } else {
            let b = mmio_base(state.hhdm_base, apic_msr);
            seq![mmio_op(b, LAPIC_ICRHI, icr_hi(dest)), mmio_op(b, LAPIC_ICRLO, vector as u32)]
        },
{
    let mut ops: Vec<ApicOp> = Vec::new();
    if state.mode == 1 {
        let hi = (dest as u64) << 32u64;
        let lo = vector as u64;
        ops.push(ApicOp::WriteMsr { msr: MSR_X2APIC_ICR, val: hi | lo });
    } else {
        ops.push(ApicOp::WriteMmio { addr: reg(state, apic_msr, LAPIC_ICRHI), val: dest << 24u32 });
        ops.push(ApicOp::WriteMmio { addr: reg(state, apic_msr, LAPIC_ICRLO), val: vector as u32 });
    }
    ops
}

/// The timer's initial count for `hz` ticks a second (a coarse constant
/// until the timer is calibrated).
pub open spec fn timer_count(hz: u32) -> u32 {
    if hz == 0 {
        100_000
    } else {
        (10_000_000u32 / hz) as u32
    }
}

/// Starts the periodic local timer on `TIMER_VECTOR`.
pub fn start_timer_hz(state: &ApicState, apic_msr: u64, hz: u32) -> (ops: Vec<ApicOp>)
    requires
        state.mode == 3 ==> mmio_fits(*state, apic_msr),
    ensures
        ops@ == if state.mode == 1 {
            seq![
                ApicOp::WriteMsr { msr: MSR_X2APIC_LVT_TIMER, val: 0x20000u64 | 0x40u64 },
                ApicOp::WriteMsr { msr: MSR_X2APIC_INIT_COUNT, val: timer_count(hz) as u64 },
            ]
        } else if state.mode == 3 {
            let b = mmio_base(state.hhdm_base, apic_msr);
            seq![
                mmio_op(b, LAPIC_DCR, 0b1011),
                mmio_op(b, LAPIC_LVT_TMR, 0x20000u32 | 0x40u32),
                mmio_op(b, LAPIC_INITCNT, timer_count(hz)),
            ]
        } else {
            Seq::empty()
        },
{
    let init: u32 = if hz == 0 {
        100_000
    } else {
        10_000_000 / hz
    };
    let mut ops: Vec<ApicOp> = Vec::new();
    if state.mode == 1 {
        ops.push(ApicOp::WriteMsr { msr: MSR_X2APIC_LVT_TIMER, val: 0x20000u64 | (TIMER_VECTOR as u64) });
        ops.push(ApicOp::WriteMsr { msr: MSR_X2APIC_INIT_COUNT, val: init as u64 });
    } else if state.mode == 3 {
        ops.push(ApicOp::WriteMmio { addr: reg(state, apic_msr, LAPIC_DCR), val: 0b1011 });
        ops.push(ApicOp::WriteMmio { addr: reg(state, apic_msr, LAPIC_LVT_TMR), val: 0x20000u32 | (TIMER_VECTOR as u32) });
        ops.push(ApicOp::WriteMmio { addr: reg(state, apic_msr, LAPIC_INITCNT), val: init });
    }
    ops
}

/// INIT delivery, level triggered, asserted.
pub const ICR_INIT_ASSERT: u32 = 0xC500;

/// INIT delivery, level triggered, deasserted.
pub const ICR_INIT_DEASSERT: u32 = 0x8500;

/// Start-up delivery mode.
pub const ICR_STARTUP: u32 = 0x600;

/// Sends INIT to `dest`: assert, wait, deassert, wait.
pub fn send_init(state: &ApicState, apic_msr: u64, dest: u32) -> (ops: Vec<ApicOp>)
    requires
        state.mode != 1 ==> mmio_fits(*state, apic_msr),
    ensures
        ops@ == if state.mode == 1 {
            seq![
                ApicOp::WriteMsr { msr: MSR_X2APIC_ICR, val: icr64(dest, ICR_INIT_ASSERT as u64) },
                ApicOp::WaitIcr,
                ApicOp::WriteMsr { msr: MSR_X2APIC_ICR, val: icr64(dest, ICR_INIT_DEASSERT as u64) },
                ApicOp::WaitIcr,
            ]
        } else {
            let b = mmio_base(state.hhdm_base, apic_msr);
            seq![
                mmio_op(b, LAPIC_ICRHI, icr_hi(dest)),
                mmio_op(b, LAPIC_ICRLO, ICR_INIT_ASSERT),
                ApicOp::WaitIcr,
                mmio_op(b, LAPIC_ICRHI, icr_hi(dest)),
                mmio_op(b, LAPIC_ICRLO, ICR_INIT_DEASSERT),
                ApicOp::WaitIcr,
            ]
        },
{
    let mut ops: Vec<ApicOp> = Vec::new();
    if state.mode == 1 {
        let hi = (dest as u64) << 32u64;
        ops.push(ApicOp::WriteMsr { msr: MSR_X2APIC_ICR, val: hi | (ICR_INIT_ASSERT as u64) });
        ops.push(ApicOp::WaitIcr);
        ops.push(ApicOp::WriteMsr { msr: MSR_X2APIC_ICR, val: hi | (ICR_INIT_DEASSERT as u64) });
        ops.push(ApicOp::WaitIcr);
    } else {
        let hi = reg(state, apic_msr, LAPIC_ICRHI);
        let lo = reg(state, apic_msr, LAPIC_ICRLO);
        ops.push(ApicOp::WriteMmio { addr: hi, val: dest << 24u32 });
        ops.push(ApicOp::WriteMmio { addr: lo, val: ICR_INIT_ASSERT });
        ops.push(ApicOp::WaitIcr);
        ops.push(ApicOp::WriteMmio { addr: hi, val: dest << 24u32 });
        ops.push(ApicOp::WriteMmio { addr: lo, val: ICR_INIT_DEASSERT });
        ops.push(ApicOp::WaitIcr);
    }
    ops
}

/// Sends a start-up IPI to `dest`; `vector` is the page number of the
/// real-mode entry.
pub fn send_startup(state: &ApicState, apic_msr: u64, dest: u32, vector: u8) -> (ops: Vec<ApicOp>)
    requires
        state.mode != 1 ==> mmio_fits(*state, apic_msr),
    ensures
        ops@ == if state.mode == 1 {
            seq![
                ApicOp::WriteMsr { msr: MSR_X2APIC_ICR, val: icr64(dest, (vector as u64) | (ICR_STARTUP as u64)) },
                ApicOp::WaitIcr,
            ]
        } else {
            let b = mmio_base(state.hhdm_base, apic_msr);
            seq![
                mmio_op(b, LAPIC_ICRHI, icr_hi(dest)),
                mmio_op(b, LAPIC_ICRLO, (vector as u32) | ICR_STARTUP),
                ApicOp::WaitIcr,
            ]
        },
{
    let mut ops: Vec<ApicOp> = Vec::new();
    if state.mode == 1 {
        let hi = (dest as u64) << 32u64;
        ops.push(ApicOp::WriteMsr { msr: MSR_X2APIC_ICR, val: hi | ((vector as u64) | (ICR_STARTUP as u64)) });
        ops.push(ApicOp::WaitIcr);
    } else {
        ops.push(ApicOp::WriteMmio { addr: reg(state, apic_msr, LAPIC_ICRHI), val: dest << 24u32 });
        ops.push(ApicOp::WriteMmio { addr: reg(state, apic_msr, LAPIC_ICRLO), val: (vector as u32) | ICR_STARTUP });
        ops.push(ApicOp::WaitIcr);
    }
    ops
}

/// The enable bits land where they should, and the physical-address bits
/// of the base MSR stay below the mask.
proof fn lemma_enable_bits(msr: u64)
    by (bit_vector)
    ensures
        (msr | 0x800u64 | 0x400u64) & 0x400 != 0,
        (msr | 0x800u64 | 0x400u64) & 0x800 != 0,
        ((msr | 0x800u64) & !0x400u64) & 0x400 == 0,
        ((msr | 0x800u64) & !0x400u64) & 0x800 != 0,
        msr & 0xFFFF_F000u64 <= 0xFFFF_F000u64,
{
}

/// Whether the interrupt command register still shows a delivery in
/// progress (bit 12).
pub fn icr_busy(icr: u64) -> (b: bool)
    ensures
        b == (icr & 0x1000 != 0),
{
    icr & 0x1000 != 0
}

/// The INIT and start-up commands have the delivery modes the processor
/// expects: INIT (101) level triggered, asserted then deasserted; start-up
/// (110) carrying the entry page in the low byte.
pub proof fn lemma_ipi_commands(vector: u8)
    by (bit_vector)
    ensures
        (ICR_INIT_ASSERT >> 8u32) & 7 == 0b101,
        (ICR_INIT_DEASSERT >> 8u32) & 7 == 0b101,
        ICR_INIT_ASSERT & 0x4000 != 0 && ICR_INIT_ASSERT & 0x8000 != 0,
        ICR_INIT_DEASSERT & 0x4000 == 0 && ICR_INIT_DEASSERT & 0x8000 != 0,
        (((vector as u32) | ICR_STARTUP) >> 8u32) & 7 == 0b110,
        ((vector as u32) | ICR_STARTUP) & 0xFF == vector as u32,
{
}

} // verus!
