//! Checks made before a page-table mapper is built over the direct map: the
//! direct-map offset and the top-level table's address.
use vstd::prelude::*;

verus! {

/// Why no mapper could be built.
#[derive(Clone, Copy, Debug, PartialEq, Eq)]
pub enum MapperError {
    /// The direct-map offset is zero or not 4 KiB aligned.
    BadHhdm,
    /// The top-level table's virtual address is not 4 KiB aligned.
    L4Unaligned,
    /// The top-level table's physical address is not 4 KiB aligned.
    Pml4Unaligned,
}

/// A canonical 48-bit virtual address (bits 48..64 copy bit 47).
pub open spec fn canonical(x: u64) -> bool {
    x < 0x0000_8000_0000_0000 || x >= 0xFFFF_8000_0000_0000
}

/// A usable direct-map offset: nonzero and 4 KiB aligned.
pub open spec fn hhdm_ok(hhdm: u64) -> bool {
    hhdm != 0 && hhdm % 0x1000 == 0
}

/// The virtual address of the active top-level table, at `l4_phys` (from
/// CR3) through the direct map at `hhdm`.
pub fn active_offset_mapper(hhdm: u64, l4_phys: u64) -> (r: Result<u64, MapperError>)
    requires
        hhdm_ok(hhdm) ==> canonical(hhdm) && hhdm + l4_phys <= u64::MAX && canonical((hhdm + l4_phys) as u64),
    ensures
        !hhdm_ok(hhdm) ==> r == Err::<u64, MapperError>(MapperError::BadHhdm),
        hhdm_ok(hhdm) && (hhdm + l4_phys) % 0x1000 != 0 ==> r == Err::<u64, MapperError>(MapperError::L4Unaligned),
        hhdm_ok(hhdm) && (hhdm + l4_phys) % 0x1000 == 0 ==> r == Ok::<u64, MapperError>((hhdm + l4_phys) as u64),
{
    if hhdm == 0 || hhdm % 0x1000 != 0 {
        return Err(MapperError::BadHhdm);
    }
    let l4_virt = hhdm + l4_phys;
    if l4_virt % 0x1000 != 0 {
        return Err(MapperError::L4Unaligned);
    }
    Ok(l4_virt)
}

/// The virtual address of the top-level table the loader built, at
/// `pml4_phys` through the direct map at `hhdm`.
pub fn mapper_from_boot(hhdm: u64, pml4_phys: u64) -> (r: Result<u64, MapperError>)
    requires
        hhdm_ok(hhdm) && pml4_phys % 0x1000 == 0 ==> canonical(hhdm) && hhdm + pml4_phys <= u64::MAX && canonical(
            (hhdm + pml4_phys) as u64,
        ),
    ensures
        !hhdm_ok(hhdm) ==> r == Err::<u64, MapperError>(MapperError::BadHhdm),
        hhdm_ok(hhdm) && pml4_phys % 0x1000 != 0 ==> r == Err::<u64, MapperError>(MapperError::Pml4Unaligned),
        hhdm_ok(hhdm) && pml4_phys % 0x1000 == 0 ==> r == Ok::<u64, MapperError>((hhdm + pml4_phys) as u64),
{
    if hhdm == 0 || hhdm % 0x1000 != 0 {
        return Err(MapperError::BadHhdm);
    }
    if pml4_phys % 0x1000 != 0 {
        return Err(MapperError::Pml4Unaligned);
    }
    Ok(hhdm + pml4_phys)
}

} // verus!
