//! The global descriptor table's fixed selectors and the task-state stack
//! pointers built from a CPU's interrupt stacks.
use vstd::prelude::*;
use crate::acpi::CpuId;
use crate::tables::{Registry, Stack, fresh_stack, register_cpu, registry_ok, STACKS_PER_CPU};

verus! {

/// The selectors of the loaded table (index << 3, ring 0).
#[derive(Clone, Copy, Debug, PartialEq, Eq)]
pub struct Selectors {
    pub code: u16,
    pub data: u16,
    /// The lower TSS slot.
    pub tss: u16,
}

/// A table ready to load: its selectors and the address of the table.
#[derive(Clone, Copy, Debug, PartialEq, Eq)]
pub struct GdtLoader {
    pub sels: Selectors,
    pub gdt: u64,
}

/// The task-state stack pointers: the ring-0 stack and the seven IST stacks.
#[derive(Clone, Copy, Debug)]
pub struct TssStacks {
    pub privilege0: u64,
    pub ist: [u64; 7],
}

/// The kernel code selector.
pub fn kernel_cs() -> (s: u16)
    ensures
        s == 8,
{
    8
}

/// The kernel data selector.
pub fn kernel_ds() -> (s: u16)
    ensures
        s == 16,
{
    16
}

/// The ring-0 selector of descriptor slot `index`.
pub fn selector(index: u16) -> (s: u16)
    requires
        index < 8192,
    ensures
        s == index * 8,
{
    index * 8
}

/// The selectors of the kernel's table: after the null descriptor come the
/// code segment, the data segment and the task-state segment (which takes
/// two slots), in that order.
pub fn gdt_layout() -> (s: Selectors)
    ensures
        s == (Selectors { code: 8, data: 16, tss: 24 }),
{
    Selectors { code: selector(1), data: selector(2), tss: selector(3) }
}

/// The 16-byte aligned top of a stack of `len` bytes at `base`.
pub open spec fn top_spec(base: u64, len: u64) -> u64 {
    ((base + len) as u64) & !0xFu64
}

/// The 16-byte aligned top of a stack of `len` bytes at `base`.
pub fn top_raw(base: u64, len: u64) -> (t: u64)
    requires
        base + len <= u64::MAX,
    ensures
        t == top_spec(base, len),
        t % 16 == 0,
        t <= base + len,
        t + 16 > base + len,
{
    let end = base + len;
    assert((end & !0xFu64) % 16 == 0 && (end & !0xFu64) <= end && (end & !0xFu64) + 16 > end) by (bit_vector);
    end & !0xFu64
}

/// The task-state stack pointers for a CPU whose stacks (each `len` bytes)
/// start at `bases`, in order: the first is the ring-0 stack, the others
/// IST stacks 1, 2, ...; missing ones stay zero.
pub fn generate(bases: &Vec<u64>, len: u64) -> (t: TssStacks)
    requires
        bases@.len() <= STACKS_PER_CPU,
        forall|i: int| 0 <= i < bases@.len() ==> bases@[i] + len <= u64::MAX,
    ensures
        t.privilege0 == if bases@.len() > 0 {
            top_spec(bases@[0], len)
        } else {
            0
        },
        forall|k: int|
            0 <= k < 7 ==> #[trigger] t.ist@[k] == if k + 1 < bases@.len() {
                top_spec(bases@[k + 1], len)
            } else {
                0
            },
{
    let mut t = TssStacks { privilege0: 0, ist: [0u64; 7] };
    let n = bases.len();
    let mut i: usize = 0;
    while i < n
        invariant
            i <= n,
            n == bases@.len(),
            n <= STACKS_PER_CPU,
            forall|j: int| 0 <= j < n ==> bases@[j] + len <= u64::MAX,
            t.privilege0 == if i > 0 {
                top_spec(bases@[0], len)
            } else {
                0
            },
            forall|k: int|
                0 <= k < 7 ==> #[trigger] t.ist@[k] == if k + 1 < i {
                    top_spec(bases@[k + 1], len)
                } else {
                    0
                },
        decreases n - i,
    {
        let top = top_raw(bases[i], len);
        if i > 0 {
            t.ist[i - 1] = top;
        } else {
            t.privilege0 = top;
        }
        i += 1;
    }
    t
}

/// Registers the boot-time placeholder CPU's stacks and returns them; the
/// temporary table's task-state stacks are built from these.
pub fn init(reg: &mut Registry) -> (s: Stack)
    requires
        registry_ok(old(reg)),
        old(reg).stacks_ready,
    ensures
        registry_ok(final(reg)),
        fresh_stack(s, CpuId { apic: None }),
        fresh_stack(final(reg).stacks@[0], CpuId { apic: None }),
        final(reg).stacks@.len() == old(reg).stacks@.len() + 1,
        final(reg).stacks@.subrange(1, final(reg).stacks@.len() as int) == old(reg).stacks@,
        final(reg).interrupts@ == old(reg).interrupts@,
{
    register_cpu(reg, CpuId::dummy())
}

/// Whether a loaded table's selectors are the fixed kernel ones.
pub fn selectors_ok(sels: &Selectors) -> (ok: bool)
    ensures
        ok == (sels.code == 8 && sels.data == 16),
{
    sels.code == kernel_cs() && sels.data == kernel_ds()
}

} // verus!
