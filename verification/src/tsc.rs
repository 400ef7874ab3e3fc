//! The time-stamp counter's frequency, as the CPUID leaves report it.
use vstd::prelude::*;

verus! {

/// The frequency used when neither CPUID leaf reports one: 3 GHz.
pub const DEFAULT_TSC_HZ: u64 = 3_000_000_000;

/// The frequency that leaf 0x15 (crystal ratio `num / den` times the
/// crystal's `crystal` Hz) or else leaf 0x16 (`mhz` in its low 16 bits)
/// reports, or the default.
pub open spec fn tsc_hz_spec(den: u32, num: u32, crystal: u32, leaf16_eax: u32) -> int {
    if den != 0 && num != 0 && crystal != 0 {
        (crystal as int * num as int) / den as int
    } else if leaf16_eax % 0x1_0000 != 0 {
        (leaf16_eax % 0x1_0000) as int * 1_000_000
    } else {
        DEFAULT_TSC_HZ as int
    }
}

/// Estimates the TSC frequency in Hz from CPUID leaf 0x15 (EAX = `den`,
/// EBX = `num`, ECX = `crystal`) and the EAX of leaf 0x16.
pub fn tsc_hz_estimate(den: u32, num: u32, crystal: u32, leaf16_eax: u32) -> (hz: u64)
    ensures
        hz == tsc_hz_spec(den, num, crystal, leaf16_eax),
{
    if den != 0 && num != 0 && crystal != 0 {
        let c: u64 = crystal as u64;
        let n: u64 = num as u64;
        assert(c * n <= 0xFFFF_FFFFu64 * 0xFFFF_FFFFu64) by (nonlinear_arith)
            requires
                c <= 0xFFFF_FFFFu64,
                n <= 0xFFFF_FFFFu64,
        ;
        return c * n / (den as u64);
    }
    let mhz: u32 = leaf16_eax & 0xFFFF;
    assert(leaf16_eax & 0xFFFF == leaf16_eax % 0x1_0000) by (bit_vector);
    if mhz != 0 {
        return (mhz as u64) * 1_000_000;
    }
    DEFAULT_TSC_HZ
}

} // verus!
