//! The invalid-opcode handler's registration.
use vstd::prelude::*;
use crate::tables::{Registry, Interrupt, registry_ok};

verus! {

/// Registers the invalid opcode handler (#UD, 6) on the interrupted stack.
pub fn init(reg: &mut Registry, ud_stub: u64)
    requires
        registry_ok(old(reg)),
    ensures
        registry_ok(final(reg)),
        final(reg).interrupts_ready,
        final(reg).interrupts@ == seq![Interrupt { vector: 0x06, ist: 0, stub: ud_stub }]
            + old(reg).interrupts@,
        final(reg).stacks@ == old(reg).stacks@,
{
    Interrupt::register_without_stack(reg, 0x06, ud_stub);
}

} // verus!
