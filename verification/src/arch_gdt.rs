//! The boot GDT's fixed task-state layout: one named 4 KiB stack per
//! exception class, each on its own IST slot, and the selectors recorded
//! once the table is loaded.
use vstd::prelude::*;
use crate::tables::gdt::{Selectors, TssStacks, top_spec, top_raw};

verus! {

/// Bytes of each named stack.
pub const STACK_SIZE: u64 = 4096;

/// IST slots (1-based) of the named stacks.
pub const IST_DF: u16 = 1;
pub const IST_PF: u16 = 2;
pub const IST_TIMER: u16 = 3;
pub const IST_GP: u16 = 4;
pub const IST_UD: u16 = 5;
pub const IST_BP: u16 = 6;
pub const IST_DB: u16 = 7;

/// Where the named stacks start.
#[derive(Clone, Copy, Debug)]
pub struct StackBases {
    pub rsp0: u64,
    pub df: u64,
    pub pf: u64,
    pub timer: u64,
    pub gp: u64,
    pub ud: u64,
    pub bp: u64,
    pub db: u64,
}

/// Every named stack lies in the address space.
pub open spec fn bases_fit(b: StackBases) -> bool {
    &&& b.rsp0 + STACK_SIZE <= u64::MAX
    &&& b.df + STACK_SIZE <= u64::MAX
    &&& b.pf + STACK_SIZE <= u64::MAX
    &&& b.timer + STACK_SIZE <= u64::MAX
    &&& b.gp + STACK_SIZE <= u64::MAX
    &&& b.ud + STACK_SIZE <= u64::MAX
    &&& b.bp + STACK_SIZE <= u64::MAX
    &&& b.db + STACK_SIZE <= u64::MAX
}

/// The task-state stack pointers: ring 0 on `rsp0`, IST slot k on the
/// stack named for it.
pub fn tss_stacks(b: &StackBases) -> (t: TssStacks)
    requires
        bases_fit(*b),
    ensures
        t.privilege0 == top_spec(b.rsp0, STACK_SIZE),
        t.ist@ == seq![
            top_spec(b.df, STACK_SIZE),
            top_spec(b.pf, STACK_SIZE),
            top_spec(b.timer, STACK_SIZE),
            top_spec(b.gp, STACK_SIZE),
            top_spec(b.ud, STACK_SIZE),
            top_spec(b.bp, STACK_SIZE),
            top_spec(b.db, STACK_SIZE),
        ],
{
    let mut t = TssStacks { privilege0: top_raw(b.rsp0, STACK_SIZE), ist: [0u64; 7] };
    t.ist[(IST_DF - 1) as usize] = top_raw(b.df, STACK_SIZE);
    t.ist[(IST_PF - 1) as usize] = top_raw(b.pf, STACK_SIZE);
    t.ist[(IST_TIMER - 1) as usize] = top_raw(b.timer, STACK_SIZE);
    t.ist[(IST_GP - 1) as usize] = top_raw(b.gp, STACK_SIZE);
    t.ist[(IST_UD - 1) as usize] = top_raw(b.ud, STACK_SIZE);
    t.ist[(IST_BP - 1) as usize] = top_raw(b.bp, STACK_SIZE);
    t.ist[(IST_DB - 1) as usize] = top_raw(b.db, STACK_SIZE);
    assert(t.ist@ =~= seq![
        top_spec(b.df, STACK_SIZE),
        top_spec(b.pf, STACK_SIZE),
        top_spec(b.timer, STACK_SIZE),
        top_spec(b.gp, STACK_SIZE),
        top_spec(b.ud, STACK_SIZE),
        top_spec(b.bp, STACK_SIZE),
        top_spec(b.db, STACK_SIZE),
    ]);
    t
}

/// The selectors, once the table has been loaded.
pub struct GdtState {
    pub sels: Option<Selectors>,
}

impl GdtState {
    /// Before the table is loaded.
    pub fn new() -> (s: GdtState)
        ensures
            s.sels is None,
    {
        GdtState { sels: None }
    }

    /// Whether the table still has to be built and loaded.
    pub fn needs_init(&self) -> (b: bool)
        ensures
            b == self.sels is None,
    {
        self.sels.is_none()
    }

    /// Records the selectors of the loaded table; the first record stays.
    pub fn init(&mut self, sels: Selectors)
        ensures
            final(self).sels == if old(self).sels is None {
                Some(sels)
            } else {
                old(self).sels
            },
    {
        if self.sels.is_none() {
            self.sels = Some(sels);
        }
    }

    /// The recorded selectors.
    pub fn selectors(&self) -> (s: Selectors)
        requires
            self.sels is Some,
        ensures
            Some(s) == self.sels,
    {
        self.sels.unwrap()
    }

    /// The code selector.
    pub fn code_selector(&self) -> (s: u16)
        requires
            self.sels is Some,
        ensures
            s == self.sels->Some_0.code,
    {
        self.selectors().code
    }

    /// The data selector.
    pub fn data_selector(&self) -> (s: u16)
        requires
            self.sels is Some,
        ensures
            s == self.sels->Some_0.data,
    {
        self.selectors().data
    }

    /// The task-state selector.
    pub fn tss_selector(&self) -> (s: u16)
        requires
            self.sels is Some,
        ensures
            s == self.sels->Some_0.tss,
    {
        self.selectors().tss
    }
}

} // verus!
