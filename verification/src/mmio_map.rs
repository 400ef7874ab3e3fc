//! The page flags that the local and I/O APIC register pages must carry.
use vstd::prelude::*;

verus! {

/// Page-table entry flag bits.
pub const PRESENT: u64 = 1;
pub const WRITABLE: u64 = 2;
pub const WRITE_THROUGH: u64 = 8;
pub const NO_CACHE: u64 = 16;
pub const NO_EXECUTE: u64 = 0x8000_0000_0000_0000;

/// The I/O APIC's register page.
pub const IOAPIC_PAGE: u64 = 0xFEC0_0000;

/// The local APIC's register page.
pub const LAPIC_PAGE: u64 = 0xFEE0_0000;

/// Device-register flags: present, writable, never executed, uncached.
pub open spec fn mmio_flags_spec() -> u64 {
    PRESENT | WRITABLE | NO_EXECUTE | WRITE_THROUGH | NO_CACHE
}

/// The pages whose flags are set, with the flags each must carry; the
/// caller updates the mapping of each page (a page that is not mapped is
/// left alone).
pub fn enforce_apic_mmio_flags() -> (r: [(u64, u64); 2])
    ensures
        r@ == seq![(IOAPIC_PAGE, mmio_flags_spec()), (LAPIC_PAGE, mmio_flags_spec())],
{
    let want = PRESENT | WRITABLE | NO_EXECUTE | WRITE_THROUGH | NO_CACHE;
    let r = [(IOAPIC_PAGE, want), (LAPIC_PAGE, want)];
    assert(r@ =~= seq![(IOAPIC_PAGE, mmio_flags_spec()), (LAPIC_PAGE, mmio_flags_spec())]);
    r
}

} // verus!
