//! The registration of the kernel's exception and interrupt handlers.
use vstd::prelude::*;
use crate::tables::{Registry, Interrupt, registry_ok};

pub mod debug;
pub mod fault;
pub mod misc;
pub mod timer;

verus! {

/// The addresses of the handler entry stubs.
#[derive(Clone, Copy, Debug)]
pub struct Stubs {
    pub db: u64,
    pub bp: u64,
    pub gp: u64,
    pub pf: u64,
    pub df: u64,
    pub ud: u64,
    pub timer: u64,
    pub spurious: u64,
}

/// The registrations of all handlers, newest first.
pub open spec fn all_handlers(s: Stubs) -> Seq<Interrupt> {
    seq![
        Interrupt { vector: 0x06, ist: 0, stub: s.ud },
        Interrupt { vector: 0x08, ist: 2, stub: s.df },
        Interrupt { vector: 0x0E, ist: 1, stub: s.pf },
        Interrupt { vector: 0x0D, ist: 1, stub: s.gp },
        Interrupt { vector: 0x03, ist: 3, stub: s.bp },
        Interrupt { vector: 0x01, ist: 3, stub: s.db },
        Interrupt { vector: 0xFF, ist: 0, stub: s.spurious },
        Interrupt { vector: 0x40, ist: 0, stub: s.timer },
    ]
}

/// Registers the timer, debug, fault and miscellaneous handlers, in that
/// order.
pub fn init(reg: &mut Registry, stubs: &Stubs)
    requires
        registry_ok(old(reg)),
    ensures
        registry_ok(final(reg)),
        final(reg).interrupts_ready,
        final(reg).interrupts@ == all_handlers(*stubs) + old(reg).interrupts@,
        final(reg).stacks@ == old(reg).stacks@,
{
    timer::init(reg, stubs.timer, stubs.spurious);
    debug::init(reg, stubs.db, stubs.bp);
    fault::init(reg, stubs.gp, stubs.pf, stubs.df);
    misc::init(reg, stubs.ud);
    assert(final(reg).interrupts@ =~= all_handlers(*stubs) + old(reg).interrupts@);
}

} // verus!
