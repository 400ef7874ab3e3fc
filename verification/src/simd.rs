//! Turning on the FPU, SSE and AVX: what the CPUID leaves say, the control
//! register and XCR0 values to write, and the save-area size. The caller
//! executes CPUID, reads and writes CR0/CR4 and XCR0 with these values.
use vstd::prelude::*;

verus! {

pub const CR0_MP: u64 = 0x2;
pub const CR0_EM: u64 = 0x4;
pub const CR0_TS: u64 = 0x8;
pub const CR0_NE: u64 = 0x20;

pub const CR4_OSFXSR: u64 = 0x200;
pub const CR4_OSXMMEXCPT: u64 = 0x400;
pub const CR4_OSXSAVE: u64 = 0x4_0000;

pub const XCR0_X87: u64 = 1;
pub const XCR0_SSE: u64 = 2;
pub const XCR0_YMM: u64 = 4;

/// What the kernel found and set up.
#[derive(Clone, Copy, Debug, PartialEq, Eq)]
pub struct XSaveCaps {
    pub has_xsave: bool,
    pub has_osxsave: bool,
    pub has_avx: bool,
    pub has_xsaveopt: bool,
    /// The XCR0 features the CPU supports (CPUID.(0xD,0) EDX:EAX).
    pub xcr0_mask_supported: u64,
    /// Bytes of the save area for the XCR0 set.
    pub xsave_size: usize,
    /// The XCR0 value set.
    pub xcr0: u64,
}

/// What the loader found and set up.
#[derive(Clone, Copy, Debug, PartialEq, Eq)]
pub struct SimdCaps {
    pub has_xsave: bool,
    pub has_osxsave: bool,
    pub has_avx: bool,
    pub has_xsaveopt: bool,
    pub xcr0: u64,
    pub xsave_size: usize,
}

/// What a probe reports.
#[derive(Clone, Copy, Debug, PartialEq, Eq)]
pub struct XSaveInfo {
    pub xsave_supported: bool,
    pub avx_supported: bool,
    pub xsave_size: u32,
    pub xsave_mask: u64,
}

/// The CPU features from CPUID leaf 1 (ECX) and leaf 0xD subleaf 1 (EAX):
/// XSAVE (ECX bit 26), OSXSAVE (27), AVX (28), XSAVEOPT (EAX bit 0).
pub fn features(ecx1: u32, d1_eax: u32) -> (r: (bool, bool, bool, bool))
    ensures
        r == (ecx1 & 0x400_0000 != 0, ecx1 & 0x800_0000 != 0, ecx1 & 0x1000_0000 != 0, d1_eax & 1 != 0),
{
    (ecx1 & 0x400_0000 != 0, ecx1 & 0x800_0000 != 0, ecx1 & 0x1000_0000 != 0, d1_eax & 1 != 0)
}

/// CR0 with the FPU on: emulation and task-switched cleared, monitor and
/// native exceptions set.
pub open spec fn cr0_spec(cr0: u64) -> u64 {
    (cr0 & !(CR0_EM | CR0_TS)) | CR0_MP | CR0_NE
}

/// CR0 with the FPU on.
pub fn cr0_for_simd(cr0: u64) -> (r: u64)
    ensures
        r == cr0_spec(cr0),
{
    (cr0 & !(CR0_EM | CR0_TS)) | CR0_MP | CR0_NE
}

/// CR4 with SSE state and exceptions on, and XSAVE on where the CPU has it
/// and reports the OS bit.
pub open spec fn cr4_spec(cr4: u64, has_xsave: bool, has_osxsave: bool) -> u64 {
    let c = cr4 | CR4_OSFXSR | CR4_OSXMMEXCPT;
    if has_xsave && has_osxsave {
        c | CR4_OSXSAVE
    } else {
        c
    }
}

/// CR4 for SSE (and XSAVE where available).
pub fn cr4_for_simd(cr4: u64, has_xsave: bool, has_osxsave: bool) -> (r: u64)
    ensures
        r == cr4_spec(cr4, has_xsave, has_osxsave),
{
    let mut c = cr4 | CR4_OSFXSR | CR4_OSXMMEXCPT;
    if has_xsave && has_osxsave {
        c = c | CR4_OSXSAVE;
    }
    c
}

/// The XCR0 features to enable: x87 and SSE together when both are
/// supported, and the AVX upper halves when AVX is there and supported.
pub open spec fn xcr0_spec(supported: u64, has_avx: bool) -> u64 {
    let a: u64 = if supported & (XCR0_X87 | XCR0_SSE) == (XCR0_X87 | XCR0_SSE) {
        XCR0_X87 | XCR0_SSE
    } else {
        0
    };
    if has_avx && supported & XCR0_YMM != 0 {
        a | XCR0_YMM
    } else {
        a
    }
}

/// The XCR0 features to enable.
pub fn choose_xcr0(supported: u64, has_avx: bool) -> (r: u64)
    ensures
        r == xcr0_spec(supported, has_avx),
{
    let a: u64 = if supported & (XCR0_X87 | XCR0_SSE) == (XCR0_X87 | XCR0_SSE) {
        XCR0_X87 | XCR0_SSE
    } else {
        0
    };
    if has_avx && supported & XCR0_YMM != 0 {
        a | XCR0_YMM
    } else {
        a
    }
}

/// Whether XCR0 is written (only when CR4.OSXSAVE reads back set), and the
/// XCR0 value kept: the chosen one, or x87+SSE on the legacy path.
pub fn apply_xcr0(cr4_now: u64, chosen: u64) -> (r: (bool, u64))
    ensures
        r == if cr4_now & CR4_OSXSAVE != 0 {
            (true, chosen)
        } else {
            (false, XCR0_X87 | XCR0_SSE)
        },
{
    if cr4_now & CR4_OSXSAVE != 0 {
        (true, chosen)
    } else {
        (false, XCR0_X87 | XCR0_SSE)
    }
}

/// The save-area size for CPUID.(0xD,0) EBX, rounded up to 64 bytes.
pub open spec fn size_spec(ebx: u32) -> usize {
    (if (ebx as u64) & 63 != 0 {
        ((ebx as u64 + 63) as u64) & !63u64
    } else {
        ebx as u64
    }) as usize
}

/// The save-area size, rounded up to 64 bytes.
pub fn round_xsave_size(ebx: u32) -> (r: usize)
    requires
        ebx as usize + 63 <= usize::MAX,
    ensures
        r == size_spec(ebx),
        r % 64 == 0,
        r >= ebx,
        r < ebx + 64,
{
    let s: u64 = ebx as u64;
    proof {
        lemma_round64(s);
    }
    let r: u64 = if s & 63 != 0 {
        (s + 63) & !63u64
    } else {
        s
    };
    r as usize
}

proof fn lemma_round64(s: u64)
    by (bit_vector)
    requires
        s <= 0xFFFF_FFFF,
    ensures
        (if s & 63 != 0 {
            ((s + 63) as u64) & !63u64
        } else {
            s
        }) % 64 == 0,
        (if s & 63 != 0 {
            ((s + 63) as u64) & !63u64
        } else {
            s
        }) >= s,
        (if s & 63 != 0 {
            ((s + 63) as u64) & !63u64
        } else {
            s
        }) < s + 64,
{
}

/// The supported-features mask from CPUID.(0xD,0): EDX:EAX.
pub open spec fn mask_spec(eax: u32, edx: u32) -> u64 {
    (eax as u64) | ((edx as u64) << 32u64)
}

/// The kernel's capability record for the given readings.
pub open spec fn xsave_caps_spec(ecx1: u32, d1_eax: u32, d0_eax: u32, d0_edx: u32, xcr0: u64, ebx_after: u32) -> XSaveCaps {
    XSaveCaps {
        has_xsave: ecx1 & 0x400_0000 != 0,
        has_osxsave: ecx1 & 0x800_0000 != 0,
        has_avx: ecx1 & 0x1000_0000 != 0,
        has_xsaveopt: d1_eax & 1 != 0,
        xcr0_mask_supported: mask_spec(d0_eax, d0_edx),
        xsave_size: size_spec(ebx_after),
        xcr0,
    }
}

/// The kernel's capability record, from the CPUID readings (leaf 1 ECX,
/// leaf 0xD subleaves 1 EAX and 0 EAX/EDX, and the EBX read after XCR0 was
/// set) and the XCR0 value kept.
pub fn xsave_caps(ecx1: u32, d1_eax: u32, d0_eax: u32, d0_edx: u32, xcr0: u64, ebx_after: u32) -> (c: XSaveCaps)
    requires
        ebx_after as usize + 63 <= usize::MAX,
    ensures
        c.xsave_size % 64 == 0,
        c == xsave_caps_spec(ecx1, d1_eax, d0_eax, d0_edx, xcr0, ebx_after),
{
    let (has_xsave, has_osxsave, has_avx, has_xsaveopt) = features(ecx1, d1_eax);
    XSaveCaps {
        has_xsave,
        has_osxsave,
        has_avx,
        has_xsaveopt,
        xcr0_mask_supported: (d0_eax as u64) | ((d0_edx as u64) << 32u64),
        xsave_size: round_xsave_size(ebx_after),
        xcr0,
    }
}

/// The loader's capability record, from the same readings.
pub fn enable_sse_avx_boot(ecx1: u32, d1_eax: u32, xcr0: u64, ebx_after: u32) -> (c: SimdCaps)
    requires
        ebx_after as usize + 63 <= usize::MAX,
    ensures
        c == (SimdCaps {
            has_xsave: ecx1 & 0x400_0000 != 0,
            has_osxsave: ecx1 & 0x800_0000 != 0,
            has_avx: ecx1 & 0x1000_0000 != 0,
            has_xsaveopt: d1_eax & 1 != 0,
            xcr0,
            xsave_size: size_spec(ebx_after),
        }),
{
    let (has_xsave, has_osxsave, has_avx, has_xsaveopt) = features(ecx1, d1_eax);
    SimdCaps { has_xsave, has_osxsave, has_avx, has_xsaveopt, xcr0, xsave_size: round_xsave_size(ebx_after) }
}

/// A probe's report from CPUID leaf 1 (ECX, EDX) and leaf 0xD subleaf 0
/// (EAX, ECX, EDX): XSAVE usable when OSXSAVE (ECX bit 27) and SSE2 (EDX
/// bit 26) are set.
pub fn probe(ecx1: u32, edx1: u32, d0_eax: u32, d0_ecx: u32, d0_edx: u32) -> (i: XSaveInfo)
    ensures
        i == (XSaveInfo {
            xsave_supported: ecx1 & 0x800_0000 != 0 && edx1 & 0x400_0000 != 0,
            avx_supported: ecx1 & 0x1000_0000 != 0,
            xsave_size: d0_eax,
            xsave_mask: ((d0_edx as u64) << 32u64) | (d0_ecx as u64),
        }),
{
    XSaveInfo {
        xsave_supported: ecx1 & 0x800_0000 != 0 && edx1 & 0x400_0000 != 0,
        avx_supported: ecx1 & 0x1000_0000 != 0,
        xsave_size: d0_eax,
        xsave_mask: ((d0_edx as u64) << 32u64) | (d0_ecx as u64),
    }
}

/// The recorded capabilities after a record of `c`: the first record stays.
pub open spec fn record_spec(caps: Option<XSaveCaps>, c: XSaveCaps) -> Option<XSaveCaps> {
    if caps is None {
        Some(c)
    } else {
        caps
    }
}

/// The capability record, once set up, and whether SIMD is ready.
pub struct SimdState {
    caps: Option<XSaveCaps>,
    ready: bool,
}

impl SimdState {
    /// The capabilities recorded, if any.
    pub closed spec fn recorded(&self) -> Option<XSaveCaps> {
        self.caps
    }

    /// Whether SIMD has been set up.
    pub closed spec fn is_ready(&self) -> bool {
        self.ready
    }

    /// The state's invariant: a recorded save-area size is a multiple of
    /// 64 bytes, and SIMD is ready once capabilities are recorded.
    #[verifier::type_invariant]
    closed spec fn inv(&self) -> bool {
        &&& (self.caps matches Some(c) ==> c.xsave_size % 64 == 0)
        &&& (self.caps is Some ==> self.ready)
    }

    /// Nothing set up yet.
    pub fn new() -> (s: SimdState)
        ensures
            s.recorded() is None,
            !s.is_ready(),
    {
        SimdState { caps: None, ready: false }
    }

    /// Whether SIMD has been set up.
    pub fn simd_ready(&self) -> (b: bool)
        ensures
            b == self.is_ready(),
    {
        self.ready
    }

    /// Whether the capabilities still have to be computed: only the first
    /// setup computes them.
    pub fn needs_setup(&self) -> (b: bool)
        ensures
            b == self.recorded() is None,
    {
        self.caps.is_none()
    }

    /// The end of a setup, from its readings: builds the capability record
    /// (the first record stays), marks SIMD ready and returns the record
    /// kept.
    pub fn record(&mut self, ecx1: u32, d1_eax: u32, d0_eax: u32, d0_edx: u32, xcr0: u64, ebx_after: u32) -> (c: XSaveCaps)
        requires
            ebx_after as usize + 63 <= usize::MAX,
        ensures
            final(self).is_ready(),
            final(self).recorded() == record_spec(
                old(self).recorded(),
                xsave_caps_spec(ecx1, d1_eax, d0_eax, d0_edx, xcr0, ebx_after),
            ),
            final(self).recorded() == Some(c),
            c.xsave_size % 64 == 0,
    {
        proof {
            use_type_invariant(&*self);
        }
        let fresh = xsave_caps(ecx1, d1_eax, d0_eax, d0_edx, xcr0, ebx_after);
        self.ready = true;
        if self.caps.is_none() {
            self.caps = Some(fresh);
        }
        proof {
            use_type_invariant(&*self);
        }
        self.caps.unwrap()
    }

    /// The recorded capabilities (the caller sets SIMD up first if none are
    /// recorded): the same record every time, with a save-area size that
    /// is a multiple of 64, and SIMD ready.
    pub fn caps(&self) -> (c: XSaveCaps)
        requires
            self.recorded() is Some,
        ensures
            Some(c) == self.recorded(),
            c.xsave_size % 64 == 0,
            self.is_ready(),
    {
        proof {
            use_type_invariant(self);
        }
        self.caps.unwrap()
    }
}

/// The capabilities are computed once: whatever was recorded first is what
/// every later call reports, however often the setup runs again.
pub proof fn lemma_caps_computed_once(first: Option<XSaveCaps>, c1: XSaveCaps, c2: XSaveCaps)
    ensures
        record_spec(first, c1) is Some,
        record_spec(record_spec(first, c1), c2) == record_spec(first, c1),
        first is Some ==> record_spec(first, c1) == first,
{
}

/// The FPU setup clears emulation and task-switched and sets monitor and
/// native exceptions, whatever CR0 held; CR4 always gets SSE state and
/// exceptions, and XSAVE exactly when requested or already on; the XCR0
/// chosen enables only features the CPU lists.
pub proof fn lemma_control_bits(cr0: u64, cr4: u64, xs: bool, os: bool, supported: u64, avx: bool)
    by (bit_vector)
    ensures
        cr0_spec(cr0) & CR0_EM == 0,
        cr0_spec(cr0) & CR0_TS == 0,
        cr0_spec(cr0) & CR0_MP != 0,
        cr0_spec(cr0) & CR0_NE != 0,
        cr4_spec(cr4, xs, os) & CR4_OSFXSR != 0,
        cr4_spec(cr4, xs, os) & CR4_OSXMMEXCPT != 0,
        (cr4_spec(cr4, xs, os) & CR4_OSXSAVE != 0) == (xs && os || cr4 & CR4_OSXSAVE != 0),
        xcr0_spec(supported, avx) & !supported & 7 == 0,
{
}

/// How a task's SIMD state is saved.
#[derive(Clone, Copy, Debug, PartialEq, Eq)]
pub enum SaveKind {
    XsaveOpt,
    Xsave,
    Fxsave,
}

/// Whether the XSAVE family is usable: the CPU has XSAVE, the OS enabled
/// it, and SIMD was set up.
pub open spec fn xsave_usable(c: XSaveCaps, ready: bool) -> bool {
    c.has_xsave && c.has_osxsave && ready
}

/// The save instruction: XSAVEOPT when usable and available, else XSAVE
/// when usable, else the legacy FXSAVE.
pub fn save_kind(c: &XSaveCaps, ready: bool) -> (k: SaveKind)
    ensures
        k == if xsave_usable(*c, ready) {
            if c.has_xsaveopt {
                SaveKind::XsaveOpt
            } else {
                SaveKind::Xsave
            }
        } else {
            SaveKind::Fxsave
        },
{
    if c.has_xsave && c.has_osxsave && ready {
        if c.has_xsaveopt {
            SaveKind::XsaveOpt
        } else {
            SaveKind::Xsave
        }
    } else {
        SaveKind::Fxsave
    }
}

/// Whether state is restored with XRSTOR (else with the legacy FXRSTOR).
pub fn restore_with_xrstor(c: &XSaveCaps, ready: bool) -> (b: bool)
    ensures
        b == xsave_usable(*c, ready),
{
    c.has_xsave && c.has_osxsave && ready
}

/// The feature mask for XSAVE/XRSTOR in EDX:EAX: the low and high halves
/// of XCR0.
pub fn xsave_mask_halves(xcr0: u64) -> (r: (u32, u32))
    ensures
        r.0 == xcr0 % 0x1_0000_0000,
        r.1 == xcr0 / 0x1_0000_0000,
{
    assert((xcr0 & 0xFFFF_FFFF) as u32 == xcr0 % 0x1_0000_0000 && (xcr0 >> 32u64) as u32 == xcr0
        / 0x1_0000_0000) by (bit_vector);
    ((xcr0 & 0xFFFF_FFFF) as u32, (xcr0 >> 32u64) as u32)
}

} // verus!
