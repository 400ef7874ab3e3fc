//! The local APIC timer and spurious-interrupt handlers' registration.
use vstd::prelude::*;
use crate::tables::{Registry, Interrupt, registry_ok};

verus! {

/// Registers the timer (vector 0x40) and spurious (vector 0xFF) handlers,
/// both on the interrupted stack.
pub fn init(reg: &mut Registry, timer_stub: u64, spurious_stub: u64)
    requires
        registry_ok(old(reg)),
    ensures
        registry_ok(final(reg)),
        final(reg).interrupts_ready,
        final(reg).interrupts@ == seq![
            Interrupt { vector: 0xFF, ist: 0, stub: spurious_stub },
            Interrupt { vector: 0x40, ist: 0, stub: timer_stub },
        ] + old(reg).interrupts@,
        final(reg).stacks@ == old(reg).stacks@,
{
    Interrupt::register_without_stack(reg, 0x40, timer_stub);
    Interrupt::register_without_stack(reg, 0xFF, spurious_stub);
    assert(final(reg).interrupts@ =~= seq![
        Interrupt { vector: 0xFF, ist: 0, stub: spurious_stub },
        Interrupt { vector: 0x40, ist: 0, stub: timer_stub },
    ] + old(reg).interrupts@);
}

} // verus!
