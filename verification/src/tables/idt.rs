//! The interrupt descriptor table: 64-bit interrupt gates and the table
//! built from the registry.
use vstd::prelude::*;
use crate::tables::{Interrupt, Registry, registry_ok};

verus! {

/// Number of gates in the table.
pub const IDT_ENTRIES: usize = 256;

/// One 16-byte gate descriptor.
#[derive(Clone, Copy, Debug, PartialEq, Eq)]
pub struct IdtEntry {
    pub offset_low: u16,
    pub selector: u16,
    pub ist: u8,
    pub type_attr: u8,
    pub offset_mid: u16,
    pub offset_high: u32,
    pub zero: u32,
}

/// The operand of `lidt`.
#[derive(Clone, Copy, Debug, PartialEq, Eq)]
pub struct Idtr {
    pub limit: u16,
    pub base: u64,
}

/// The table of 256 gates.
pub struct Idt(pub Vec<IdtEntry>);

/// The all-zero (not present) gate.
pub open spec fn empty_spec() -> IdtEntry {
    IdtEntry { offset_low: 0, selector: 0, ist: 0, type_attr: 0, offset_mid: 0, offset_high: 0, zero: 0 }
}

/// A present 64-bit interrupt gate to `handler` in the kernel code segment,
/// on IST stack `ist`, callable from privilege `dpl`.
pub open spec fn gate(handler: u64, ist: u8, dpl: u8) -> IdtEntry {
    IdtEntry {
        offset_low: (handler & 0xFFFF) as u16,
        selector: 0x8,
        ist: ist & 0x7,
        type_attr: 0x8Eu8 | ((dpl & 0x3u8) << 5u8),
        offset_mid: ((handler >> 16u64) & 0xFFFF) as u16,
        offset_high: ((handler >> 32u64) & 0xFFFF_FFFF) as u32,
        zero: 0,
    }
}

/// The handler address a gate points to.
pub open spec fn gate_offset(e: IdtEntry) -> u64 {
    (e.offset_low as u64) | ((e.offset_mid as u64) << 16u64) | ((e.offset_high as u64) << 32u64)
}

/// The last registration for `v` among the first `k` of `list`.
pub open spec fn last_with(list: Seq<Interrupt>, v: int, k: int) -> Option<int>
    decreases k,
{
    if k <= 0 {
        None
    } else if list[k - 1].vector == v {
        Some(k - 1)
    } else {
        last_with(list, v, k - 1)
    }
}

/// Gate `v` of the table built from the first `k` registrations: the last
/// of them for `v` (registrations are listed newest first, so the oldest
/// wins), or the default handler.
pub open spec fn gate_for(list: Seq<Interrupt>, v: int, k: int, default_stub: u64) -> IdtEntry {
    match last_with(list, v, k) {
        Some(i) => gate(list[i].stub, list[i].ist as u8, 0),
        None => gate(default_stub, 0, 0),
    }
}

/// Every registered vector has a gate.
pub open spec fn vectors_ok(list: Seq<Interrupt>) -> bool {
    forall|i: int| 0 <= i < list.len() ==> (#[trigger] list[i]).vector < IDT_ENTRIES
}

/// The not-present gate.
pub fn empty_entry() -> (e: IdtEntry)
    ensures
        e == empty_spec(),
{
    IdtEntry { offset_low: 0, selector: 0, ist: 0, type_attr: 0, offset_mid: 0, offset_high: 0, zero: 0 }
}

/// Encodes an interrupt gate (see `gate`).
pub fn gate_entry(handler: u64, ist: u8, dpl: u8) -> (e: IdtEntry)
    ensures
        e == gate(handler, ist, dpl),
{
    IdtEntry {
        offset_low: (handler & 0xFFFF) as u16,
        selector: 0x8,
        ist: ist & 0x7,
        type_attr: 0x8Eu8 | ((dpl & 0x3u8) << 5u8),
        offset_mid: ((handler >> 16u64) & 0xFFFF) as u16,
        offset_high: ((handler >> 32u64) & 0xFFFF_FFFF) as u32,
        zero: 0,
    }
}

/// The `lidt` operand for a table at `base`: 256 gates of 16 bytes.
pub fn idtr_for(base: u64) -> (r: Idtr)
    ensures
        r.limit == 4095 && r.base == base,
{
    Idtr { limit: (16 * IDT_ENTRIES - 1) as u16, base }
}

impl Idt {
    /// A table of not-present gates.
    pub fn empty() -> (t: Idt)
        ensures
            t.0@ == Seq::new(IDT_ENTRIES as nat, |i: int| empty_spec()),
    {
        let mut v: Vec<IdtEntry> = Vec::new();
        let mut i: usize = 0;
        while i < IDT_ENTRIES
            invariant
                i <= IDT_ENTRIES,
                v@ == Seq::new(i as nat, |j: int| empty_spec()),
            decreases IDT_ENTRIES - i,
        {
            v.push(empty_entry());
            i += 1;
        }
        Idt(v)
    }

    /// Points gate `idx` at `handler`.
    pub fn set_gate(&mut self, idx: usize, handler: u64, ist: u8, dpl: u8)
        requires
            idx < old(self).0@.len(),
        ensures
            final(self).0@ == old(self).0@.update(idx as int, gate(handler, ist, dpl)),
    {
        self.0.set(idx, gate_entry(handler, ist, dpl));
    }
}

/// Builds the table: every gate to `default_stub`, then each registered
/// handler in list order on its own IST stack (so the oldest registration
/// of a vector wins). The registry's lists are created if need be.
pub fn init(reg: &mut Registry, default_stub: u64) -> (t: Idt)
    requires
        registry_ok(old(reg)),
        vectors_ok(old(reg).interrupts@),
    ensures
        final(reg).interrupts@ == old(reg).interrupts@,
        final(reg).stacks@ == old(reg).stacks@,
        final(reg).interrupts_ready && final(reg).stacks_ready,
        t.0@.len() == IDT_ENTRIES,
        forall|v: int|
            0 <= v < IDT_ENTRIES ==> #[trigger] t.0@[v] == gate_for(
                old(reg).interrupts@,
                v,
                old(reg).interrupts@.len() as int,
                default_stub,
            ),
{
    let mut idt = Idt::empty();
    let mut v: usize = 0;
    while v < IDT_ENTRIES
        invariant
            v <= IDT_ENTRIES,
            idt.0@.len() == IDT_ENTRIES,
            forall|j: int| 0 <= j < v ==> #[trigger] idt.0@[j] == gate(default_stub, 0, 0),
        decreases IDT_ENTRIES - v,
    {
        idt.set_gate(v, default_stub, 0, 0);
        v += 1;
    }
    crate::tables::init(reg);
    let list = &reg.interrupts;
    let ghost l0 = list@;
    let n = list.len();
    let mut i: usize = 0;
    while i < n
        invariant
            i <= n,
            n == list@.len(),
            list@ == l0,
            vectors_ok(l0),
            idt.0@.len() == IDT_ENTRIES,
            forall|j: int| 0 <= j < IDT_ENTRIES ==> #[trigger] idt.0@[j] == gate_for(l0, j, i as int, default_stub),
        decreases n - i,
    {
        let isr = list[i];
        idt.set_gate(isr.vector as usize, isr.stub, isr.ist as u8, 0);
        i += 1;
    }
    idt
}

proof fn lemma_gate_bits(handler: u64, ist: u8, dpl: u8)
    by (bit_vector)
    ensures
        ((handler & 0xFFFF) as u16) as u64 == handler & 0xFFFF,
        (((handler >> 16u64) & 0xFFFF) as u16) as u64 == (handler >> 16u64) & 0xFFFF,
        (((handler >> 32u64) & 0xFFFF_FFFF) as u32) as u64 == (handler >> 32u64) & 0xFFFF_FFFF,
        ((handler & 0xFFFF) | (((handler >> 16u64) & 0xFFFF) << 16u64) | (((handler >> 32u64)
            & 0xFFFF_FFFF) << 32u64)) == handler,
        (ist & 0x7u8) < 8,
        (0x8Eu8 | ((dpl & 0x3u8) << 5u8)) & 0x8F == 0x8E,
        ((0x8Eu8 | ((dpl & 0x3u8) << 5u8)) >> 5u8) & 3 == dpl & 3,
{
}

/// An interrupt descriptor keeps its handler's address: the three offset
/// fields put back together give the handler address it encodes.
pub proof fn lemma_gate_offset(handler: u64, ist: u8, dpl: u8)
    ensures
        gate_offset(gate(handler, ist, dpl)) == handler,
        gate(handler, ist, dpl).ist < 8,
        gate(handler, ist, dpl).type_attr & 0x8F == 0x8E,
        (gate(handler, ist, dpl).type_attr >> 5u8) & 3 == dpl & 3,
{
    lemma_gate_bits(handler, ist, dpl);
}

} // verus!
