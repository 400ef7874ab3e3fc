//! The registry behind the descriptor tables: the interrupt vectors that
//! handlers were registered for (newest first) and the per-CPU sets of
//! interrupt stacks.
use vstd::prelude::*;
use crate::acpi::CpuId;

pub mod gdt;
pub mod idt;
pub mod isr;

verus! {

/// Bytes of one interrupt stack.
pub const STACK_SIZE: usize = 0x4_0000;

/// Interrupt stacks per CPU: the ring-0 stack and seven IST stacks.
pub const STACKS_PER_CPU: usize = 8;

/// One interrupt stack.
pub struct Slot {
    pub dump: Vec<u8>,
}

/// A CPU's interrupt stacks.
pub struct Stack {
    pub stacks: Vec<Slot>,
    pub cpu: CpuId,
}

/// A registered handler: its vector, the IST index it runs on (0 for the
/// interrupted stack) and the address of its entry stub.
#[derive(Clone, Copy, Debug, PartialEq, Eq)]
pub struct Interrupt {
    pub vector: u16,
    pub ist: u16,
    pub stub: u64,
}

/// The registry. Each list is created on first use; until then it is empty.
pub struct Registry {
    pub interrupts_ready: bool,
    pub interrupts: Vec<Interrupt>,
    pub stacks_ready: bool,
    pub stacks: Vec<Stack>,
}

/// A zeroed stack of `STACK_SIZE` bytes.
pub open spec fn fresh_slot(s: Slot) -> bool {
    s.dump@ == Seq::new(STACK_SIZE as nat, |i: int| 0u8)
}

/// A new set of stacks for `cpu`.
pub open spec fn fresh_stack(s: Stack, cpu: CpuId) -> bool {
    &&& s.cpu == cpu
    &&& s.stacks@.len() == STACKS_PER_CPU
    &&& forall|i: int| 0 <= i < STACKS_PER_CPU ==> fresh_slot(#[trigger] s.stacks@[i])
}

/// Two stack sets with the same owner and contents.
pub open spec fn same_stack(a: Stack, b: Stack) -> bool {
    &&& a.cpu == b.cpu
    &&& a.stacks@.len() == b.stacks@.len()
    &&& forall|i: int| 0 <= i < a.stacks@.len() ==> (#[trigger] a.stacks@[i]).dump@ == b.stacks@[i].dump@
}

/// The first stack set in the list that belongs to `cpu`, at index `k` or
/// later.
pub open spec fn find_cpu(list: Seq<Stack>, cpu: CpuId, k: int) -> Option<int>
    decreases list.len() - k,
{
    if k >= list.len() || k < 0 {
        None
    } else if list[k].cpu == cpu {
        Some(k)
    } else {
        find_cpu(list, cpu, k + 1)
    }
}

/// A list not yet created is empty.
pub open spec fn registry_ok(r: &Registry) -> bool {
    &&& !r.interrupts_ready ==> r.interrupts@.len() == 0
    &&& !r.stacks_ready ==> r.stacks@.len() == 0
}

/// The registry after `init`: both lists exist and keep what they held.
pub open spec fn inited(old_r: &Registry, new_r: &Registry) -> bool {
    &&& new_r.interrupts_ready && new_r.stacks_ready
    &&& new_r.interrupts@ == old_r.interrupts@
    &&& new_r.stacks@ == old_r.stacks@
}

impl Slot {
    /// A zeroed stack.
    pub fn new() -> (s: Slot)
        ensures
            fresh_slot(s),
    {
        let mut dump: Vec<u8> = Vec::new();
        let mut i: usize = 0;
        while i < STACK_SIZE
            invariant
                i <= STACK_SIZE,
                dump@ == Seq::new(i as nat, |j: int| 0u8),
            decreases STACK_SIZE - i,
        {
            dump.push(0);
            i += 1;
        }
        Slot { dump }
    }

    /// A copy of this stack's bytes.
    pub fn duplicate(&self) -> (s: Slot)
        ensures
            s.dump@ == self.dump@,
    {
        let mut dump: Vec<u8> = Vec::new();
        let n = self.dump.len();
        let mut i: usize = 0;
        while i < n
            invariant
                i <= n,
                n == self.dump@.len(),
                dump@ == self.dump@.subrange(0, i as int),
            decreases n - i,
        {
            dump.push(self.dump[i]);
            i += 1;
        }
        Slot { dump }
    }
}

impl Stack {
    /// A new set of zeroed stacks for `cpu`.
    pub fn new(cpu: CpuId) -> (s: Stack)
        ensures
            fresh_stack(s, cpu),
    {
        let mut stacks: Vec<Slot> = Vec::new();
        let mut i: usize = 0;
        while i < STACKS_PER_CPU
            invariant
                i <= STACKS_PER_CPU,
                stacks@.len() == i,
                forall|j: int| 0 <= j < i ==> fresh_slot(#[trigger] stacks@[j]),
            decreases STACKS_PER_CPU - i,
        {
            stacks.push(Slot::new());
            i += 1;
        }
        Stack { stacks, cpu }
    }

    /// A copy of this stack set.
    pub fn duplicate(&self) -> (s: Stack)
        ensures
            same_stack(s, *self),
    {
        let mut stacks: Vec<Slot> = Vec::new();
        let n = self.stacks.len();
        let mut i: usize = 0;
        while i < n
            invariant
                i <= n,
                n == self.stacks@.len(),
                stacks@.len() == i,
                forall|j: int| 0 <= j < i ==> (#[trigger] stacks@[j]).dump@ == self.stacks@[j].dump@,
            decreases n - i,
        {
            stacks.push(self.stacks[i].duplicate());
            i += 1;
        }
        Stack { stacks, cpu: self.cpu }
    }
}

impl Registry {
    /// The registry before any use: no lists yet.
    pub fn new() -> (r: Registry)
        ensures
            registry_ok(&r),
            !r.interrupts_ready,
            !r.stacks_ready,
    {
        Registry { interrupts_ready: false, interrupts: Vec::new(), stacks_ready: false, stacks: Vec::new() }
    }
}

/// Creates whichever of the two lists does not exist yet.
pub fn init(reg: &mut Registry)
    requires
        registry_ok(old(reg)),
    ensures
        registry_ok(final(reg)),
        inited(old(reg), final(reg)),
{
    if !reg.interrupts_ready {
        reg.interrupts_ready = true;
        reg.interrupts = Vec::new();
    }
    if !reg.stacks_ready {
        reg.stacks_ready = true;
        reg.stacks = Vec::new();
        assert(reg.stacks@ =~= old(reg).stacks@);
    }
    assert(reg.interrupts@ =~= old(reg).interrupts@);
}

impl Interrupt {
    fn new(reg: &mut Registry, vector: u16, stub: u64, ist: u16)
        requires
            registry_ok(old(reg)),
        ensures
            registry_ok(final(reg)),
            final(reg).interrupts_ready,
            final(reg).interrupts@ == seq![Interrupt { vector, ist, stub }] + old(reg).interrupts@,
            final(reg).stacks@ == old(reg).stacks@,
            final(reg).stacks_ready == (old(reg).stacks_ready || !old(reg).interrupts_ready),
    {
        if !reg.interrupts_ready {
            init(reg);
        }
        reg.interrupts.insert(0, Interrupt { vector, ist, stub });
    }

    /// Registers the handler stub at `stub` for `vector`, to run on IST
    /// stack `ist`. The newest registration comes first.
    pub fn register_with_stack(reg: &mut Registry, vector: u16, stub: u64, ist: u16)
        requires
            registry_ok(old(reg)),
        ensures
            registry_ok(final(reg)),
            final(reg).interrupts_ready,
            final(reg).interrupts@ == seq![Interrupt { vector, ist, stub }] + old(reg).interrupts@,
            final(reg).stacks@ == old(reg).stacks@,
            final(reg).stacks_ready == (old(reg).stacks_ready || !old(reg).interrupts_ready),
    {
        Self::new(reg, vector, stub, ist)
    }

    /// Registers the handler stub at `stub` for `vector`, to run on the
    /// interrupted stack.
    pub fn register_without_stack(reg: &mut Registry, vector: u16, stub: u64)
        requires
            registry_ok(old(reg)),
        ensures
            registry_ok(final(reg)),
            final(reg).interrupts_ready,
            final(reg).interrupts@ == seq![Interrupt { vector, ist: 0, stub }] + old(reg).interrupts@,
            final(reg).stacks@ == old(reg).stacks@,
            final(reg).stacks_ready == (old(reg).stacks_ready || !old(reg).interrupts_ready),
    {
        Self::new(reg, vector, stub, 0)
    }
}

/// Gives `cpu` a new set of stacks, first in the list, and returns a copy.
pub fn register_cpu(reg: &mut Registry, cpu: CpuId) -> (s: Stack)
    requires
        registry_ok(old(reg)),
        old(reg).stacks_ready,
    ensures
        registry_ok(final(reg)),
        fresh_stack(s, cpu),
        final(reg).stacks@.len() == old(reg).stacks@.len() + 1,
        fresh_stack(final(reg).stacks@[0], cpu),
        final(reg).stacks@.subrange(1, final(reg).stacks@.len() as int) == old(reg).stacks@,
        final(reg).interrupts@ == old(reg).interrupts@,
        final(reg).interrupts_ready == old(reg).interrupts_ready,
        final(reg).stacks_ready,
{
    let stack = Stack::new(cpu);
    reg.stacks.insert(0, stack);
    let copy = reg.stacks[0].duplicate();
    proof {
        assert(final(reg).stacks@.subrange(1, final(reg).stacks@.len() as int) =~= old(reg).stacks@) by {
        }
    }
    copy
}

/// Visits every registered handler, newest first, and replaces each with
/// what `f` makes of it (the lists are created first if need be). The list
/// keeps its length and order; only the entries `f` rewrites change.
pub fn access_interrupt_mut<F: Fn(Interrupt) -> Interrupt>(reg: &mut Registry, f: F)
    requires
        registry_ok(old(reg)),
        forall|i: int| 0 <= i < old(reg).interrupts@.len() ==> call_requires(f, (#[trigger] old(reg).interrupts@[i],)),
    ensures
        registry_ok(final(reg)),
        final(reg).interrupts@.len() == old(reg).interrupts@.len(),
        forall|i: int|
            0 <= i < old(reg).interrupts@.len() ==> call_ensures(
                f,
                (#[trigger] old(reg).interrupts@[i],),
                final(reg).interrupts@[i],
            ),
        final(reg).interrupts_ready,
        final(reg).stacks_ready,
        final(reg).stacks@ == old(reg).stacks@,
{
    init(reg);
    let n = reg.interrupts.len();
    let mut i: usize = 0;
    while i < n
        invariant
            i <= n,
            n == old(reg).interrupts@.len(),
            reg.interrupts@.len() == n,
            registry_ok(reg),
            reg.interrupts_ready && reg.stacks_ready,
            reg.stacks@ == old(reg).stacks@,
            forall|j: int| 0 <= j < n ==> call_requires(f, (#[trigger] old(reg).interrupts@[j],)),
            forall|j: int| i <= j < n ==> reg.interrupts@[j] == old(reg).interrupts@[j],
            forall|j: int|
                0 <= j < i ==> call_ensures(f, (#[trigger] old(reg).interrupts@[j],), reg.interrupts@[j]),
        decreases n - i,
    {
        let e = reg.interrupts[i];
        assert(e == old(reg).interrupts@[i as int]);
        let ne = f(e);
        reg.interrupts.set(i, ne);
        i += 1;
    }
}

/// The stacks of `cpu`: a copy of the first set registered for it, or a
/// new set registered now.
pub fn find_or_allocate_stack_for_cpu(reg: &mut Registry, cpu: CpuId) -> (s: Stack)
    requires
        registry_ok(old(reg)),
    ensures
        registry_ok(final(reg)),
        final(reg).interrupts_ready && final(reg).stacks_ready,
        final(reg).interrupts@ == old(reg).interrupts@,
        match find_cpu(old(reg).stacks@, cpu, 0) {
            Some(i) => same_stack(s, old(reg).stacks@[i]) && final(reg).stacks@ == old(reg).stacks@,
            None => fresh_stack(s, cpu) && final(reg).stacks@.len() == old(reg).stacks@.len() + 1
                && fresh_stack(final(reg).stacks@[0], cpu) && final(reg).stacks@.subrange(
                1,
                final(reg).stacks@.len() as int,
            ) == old(reg).stacks@,
        },
{
    init(reg);
    let n = reg.stacks.len();
    let mut i: usize = 0;
    while i < n
        invariant
            i <= n,
            n == reg.stacks@.len(),
            reg.stacks@ == old(reg).stacks@,
            reg.interrupts@ == old(reg).interrupts@,
            reg.interrupts_ready && reg.stacks_ready,
            find_cpu(old(reg).stacks@, cpu, 0) == find_cpu(old(reg).stacks@, cpu, i as int),
        decreases n - i,
    {
        if reg.stacks[i].cpu == cpu {
            return reg.stacks[i].duplicate();
        }
        i += 1;
    }
    register_cpu(reg, cpu)
}

} // verus!
