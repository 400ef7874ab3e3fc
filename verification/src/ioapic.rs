//! Masking every redirection entry of the I/O APIC: which registers are
//! read and written, and what is written back.
use vstd::prelude::*;

verus! {

/// The I/O APIC's physical register base.
pub const IOAPIC_BASE: u64 = 0xFEC0_0000;
/// Offset of the register-select window.
pub const IOREGSEL: u64 = 0x00;
/// Offset of the data window.
pub const IOWIN: u64 = 0x10;
/// Index of the version register.
pub const IOAPICVER: u32 = 0x01;
/// The mask bit of a redirection entry's low word.
pub const REDIR_MASKED: u32 = 0x1_0000;

/// The highest redirection-entry index: bits 23..16 of the version register.
pub open spec fn max_redir_spec(ver: u32) -> u32 {
    (ver / 0x1_0000) % 0x100
}

/// Reads the highest redirection-entry index out of the version register.
pub fn max_redir(ver: u32) -> (m: u32)
    ensures
        m == max_redir_spec(ver),
        m <= 0xFF,
{
    assert((ver >> 16u32) & 0xFFu32 == (ver / 0x1_0000) % 0x100) by (bit_vector);
    (ver >> 16) & 0xFF
}

/// The register index of entry `i`'s low word.
pub fn redir_lo_reg(i: u32) -> (r: u32)
    requires
        i <= 0xFF,
    ensures
        r == 0x10 + 2 * i,
{
    0x10 + i * 2
}

/// The low word with the mask bit set and every other bit kept.
pub fn masked_lo(lo: u32) -> (r: u32)
    ensures
        r & REDIR_MASKED == REDIR_MASKED,
        r & !REDIR_MASKED == lo & !REDIR_MASKED,
        lo & REDIR_MASKED == REDIR_MASKED ==> r == lo,
{
    let r = lo | REDIR_MASKED;
    assert(r & 0x1_0000u32 == 0x1_0000u32 && r & !0x1_0000u32 == lo & !0x1_0000u32 && (lo & 0x1_0000u32
        == 0x1_0000u32 ==> r == lo)) by (bit_vector)
        requires
            r == lo | 0x1_0000u32,
    ;
    r
}

/// The register indices of the low words of every entry, in order, for a
/// version register `ver`: entries `0..=max_redir(ver)`.
pub fn redir_lo_regs(ver: u32) -> (regs: Vec<u32>)
    ensures
        regs@.len() == max_redir_spec(ver) + 1,
        forall|i: int| 0 <= i < regs@.len() ==> regs@[i] == 0x10 + 2 * i,
{
    let m = max_redir(ver);
    let mut regs: Vec<u32> = Vec::new();
    let mut i: u32 = 0;
    while i <= m
        invariant
            m == max_redir_spec(ver),
            m <= 0xFF,
            i <= m + 1,
            regs@.len() == i,
            forall|k: int| 0 <= k < regs@.len() ==> regs@[k] == 0x10 + 2 * k,
        decreases m + 1 - i,
    {
        regs.push(redir_lo_reg(i));
        i = i + 1;
    }
    regs
}

} // verus!
