//! The boot interrupt table: every vector to the default handler, then the
//! exception and timer handlers on their named IST stacks, all in the code
//! segment the GDT reports.
use vstd::prelude::*;
use crate::tables::idt::{IdtEntry, Idtr, idtr_for, IDT_ENTRIES};
use crate::apic::{TIMER_VECTOR, SPURIOUS_VECTOR};

verus! {

/// IST slots of the handlers.
pub const IST_DF: u8 = 1;
pub const IST_PF: u8 = 2;
pub const IST_TIMER: u8 = 3;
pub const IST_GP: u8 = 4;
pub const IST_UD: u8 = 5;
pub const IST_BP: u8 = 6;
pub const IST_DB: u8 = 7;

/// The addresses of the entry stubs.
#[derive(Clone, Copy, Debug)]
pub struct Stubs {
    pub default: u64,
    pub gp: u64,
    pub pf: u64,
    pub df: u64,
    pub ud: u64,
    pub timer: u64,
    pub spurious: u64,
    pub bp: u64,
    pub db: u64,
}

/// A present interrupt gate to `handler` through selector `sel`.
pub open spec fn gate_sel(handler: u64, sel: u16, ist: u8, dpl: u8) -> IdtEntry {
    IdtEntry {
        offset_low: (handler & 0xFFFF) as u16,
        selector: sel,
        ist: ist & 0x7,
        type_attr: 0x8Eu8 | ((dpl & 0x3u8) << 5u8),
        offset_mid: ((handler >> 16u64) & 0xFFFF) as u16,
        offset_high: ((handler >> 32u64) & 0xFFFF_FFFF) as u32,
        zero: 0,
    }
}

/// The boot table's entry for vector `v`.
pub open spec fn boot_gate(s: Stubs, cs: u16, v: int) -> IdtEntry {
    if v == 13 {
        gate_sel(s.gp, cs, IST_GP, 0)
    } else if v == 14 {
        gate_sel(s.pf, cs, IST_PF, 0)
    } else if v == 8 {
        gate_sel(s.df, cs, IST_DF, 0)
    } else if v == 6 {
        gate_sel(s.ud, cs, IST_UD, 0)
    } else if v == 3 {
        gate_sel(s.bp, cs, IST_BP, 0)
    } else if v == 0x40 {
        gate_sel(s.timer, cs, IST_TIMER, 0)
    } else if v == 0xFF {
        gate_sel(s.spurious, cs, 0, 0)
    } else if v == 1 {
        gate_sel(s.db, cs, IST_DB, 0)
    } else {
        gate_sel(s.default, cs, 0, 0)
    }
}

fn gate_entry_sel(handler: u64, sel: u16, ist: u8, dpl: u8) -> (e: IdtEntry)
    ensures
        e == gate_sel(handler, sel, ist, dpl),
{
    IdtEntry {
        offset_low: (handler & 0xFFFF) as u16,
        selector: sel,
        ist: ist & 0x7,
        type_attr: 0x8Eu8 | ((dpl & 0x3u8) << 5u8),
        offset_mid: ((handler >> 16u64) & 0xFFFF) as u16,
        offset_high: ((handler >> 32u64) & 0xFFFF_FFFF) as u32,
        zero: 0,
    }
}

/// Builds the boot table with code selector `cs`.
pub fn init(stubs: &Stubs, cs: u16) -> (t: Vec<IdtEntry>)
    ensures
        t@.len() == IDT_ENTRIES,
        forall|v: int| 0 <= v < IDT_ENTRIES ==> #[trigger] t@[v] == boot_gate(*stubs, cs, v),
{
    let mut t: Vec<IdtEntry> = Vec::new();
    let mut v: usize = 0;
    while v < IDT_ENTRIES
        invariant
            v <= IDT_ENTRIES,
            t@.len() == v,
            forall|j: int| 0 <= j < v ==> #[trigger] t@[j] == gate_sel(stubs.default, cs, 0, 0),
        decreases IDT_ENTRIES - v,
    {
        t.push(gate_entry_sel(stubs.default, cs, 0, 0));
        v += 1;
    }
    t.set(13, gate_entry_sel(stubs.gp, cs, IST_GP, 0));
    t.set(14, gate_entry_sel(stubs.pf, cs, IST_PF, 0));
    t.set(8, gate_entry_sel(stubs.df, cs, IST_DF, 0));
    t.set(6, gate_entry_sel(stubs.ud, cs, IST_UD, 0));
    t.set(3, gate_entry_sel(stubs.bp, cs, IST_BP, 0));
    t.set(TIMER_VECTOR as usize, gate_entry_sel(stubs.timer, cs, IST_TIMER, 0));
    t.set(SPURIOUS_VECTOR as usize, gate_entry_sel(stubs.spurious, cs, 0, 0));
    t.set(0x01, gate_entry_sel(stubs.db, cs, IST_DB, 0));
    t
}

/// The `lidt` operand for the table at `base`.
pub fn idtr(base: u64) -> (r: Idtr)
    ensures
        r.limit == 4095 && r.base == base,
{
    idtr_for(base)
}

} // verus!
