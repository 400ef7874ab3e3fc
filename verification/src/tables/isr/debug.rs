//! The debug and breakpoint exception handlers' registration.
use vstd::prelude::*;
use crate::tables::{Registry, Interrupt, registry_ok};

verus! {

/// Registers the debug (#DB, vector 1) and breakpoint (#BP, vector 3)
/// handlers on IST stack 3.
pub fn init(reg: &mut Registry, db_stub: u64, bp_stub: u64)
    requires
        registry_ok(old(reg)),
    ensures
        registry_ok(final(reg)),
        final(reg).interrupts_ready,
        final(reg).interrupts@ == seq![
            Interrupt { vector: 0x03, ist: 3, stub: bp_stub },
            Interrupt { vector: 0x01, ist: 3, stub: db_stub },
        ] + old(reg).interrupts@,
        final(reg).stacks@ == old(reg).stacks@,
{
    Interrupt::register_with_stack(reg, 0x01, db_stub, 3);
    Interrupt::register_with_stack(reg, 0x03, bp_stub, 3);
    assert(final(reg).interrupts@ =~= seq![
        Interrupt { vector: 0x03, ist: 3, stub: bp_stub },
        Interrupt { vector: 0x01, ist: 3, stub: db_stub },
    ] + old(reg).interrupts@);
}

} // verus!
