//! The fault handlers' registration.
use vstd::prelude::*;
use crate::tables::{Registry, Interrupt, registry_ok};

verus! {

/// Registers general protection (#GP, 13) and page fault (#PF, 14) on IST
/// stack 1 and double fault (#DF, 8) on IST stack 2.
pub fn init(reg: &mut Registry, gp_stub: u64, pf_stub: u64, df_stub: u64)
    requires
        registry_ok(old(reg)),
    ensures
        registry_ok(final(reg)),
        final(reg).interrupts_ready,
        final(reg).interrupts@ == seq![
            Interrupt { vector: 0x08, ist: 2, stub: df_stub },
            Interrupt { vector: 0x0E, ist: 1, stub: pf_stub },
            Interrupt { vector: 0x0D, ist: 1, stub: gp_stub },
        ] + old(reg).interrupts@,
        final(reg).stacks@ == old(reg).stacks@,
{
    Interrupt::register_with_stack(reg, 0x0D, gp_stub, 1);
    Interrupt::register_with_stack(reg, 0x0E, pf_stub, 1);
    Interrupt::register_with_stack(reg, 0x08, df_stub, 2);
    assert(final(reg).interrupts@ =~= seq![
        Interrupt { vector: 0x08, ist: 2, stub: df_stub },
        Interrupt { vector: 0x0E, ist: 1, stub: pf_stub },
        Interrupt { vector: 0x0D, ist: 1, stub: gp_stub },
    ] + old(reg).interrupts@);
}

} // verus!
