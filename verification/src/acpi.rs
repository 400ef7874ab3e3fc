//! ACPI discovery: the RSDP, the RSDT/XSDT table lists, and the MADT with
//! its processor and I/O APIC entries. Physical memory is the byte slice
//! `mem` (index = physical address, as seen through the direct map); a read
//! that falls outside it counts as a failed check.
use vstd::prelude::*;
use crate::packet::{byte_sum, checksum};

verus! {

/// A processor's local APIC id, or none for the placeholder used before the
/// APIC is up.
#[derive(Clone, Copy, Debug, PartialEq, Eq, Structural)]
pub struct CpuId {
    pub apic: Option<u32>,
}

impl CpuId {
    /// The processor whose local APIC reported `lapic_id`.
    pub fn me(lapic_id: u32) -> (c: CpuId)
        ensures
            c.apic == Some(lapic_id),
    {
        CpuId { apic: Some(lapic_id) }
    }

    /// The placeholder processor.
    pub fn dummy() -> (c: CpuId)
        ensures
            c.apic is None,
    {
        CpuId { apic: None }
    }
}

/// A processor listed in the MADT.
#[derive(Clone, Copy, Debug, PartialEq, Eq)]
pub struct CpuEntry {
    /// LAPIC id (8 bits from a local APIC entry, 32 from an x2APIC entry).
    pub apic_id: u32,
    /// The entry's "enabled" flag.
    pub enabled: bool,
    /// The entry came from an x2APIC (type 9) entry.
    pub is_x2apic: bool,
}

/// An I/O APIC listed in the MADT.
#[derive(Clone, Copy, Debug, PartialEq, Eq)]
pub struct IoApic {
    pub id: u8,
    pub mmio_base_phys: u64,
    pub gsi_base: u32,
}

/// What the MADT lists.
#[derive(Debug)]
pub struct MadtInfo {
    /// Local APIC MMIO base, possibly overridden by an entry of type 5.
    pub lapic_phys: u64,
    pub cpus: Vec<CpuEntry>,
    pub ioapics: Vec<IoApic>,
}

/// The header shared by all system description tables.
#[derive(Clone, Copy, Debug)]
pub struct SdtHeader {
    pub sig: [u8; 4],
    pub length: u32,
    pub rev: u8,
    pub checksum: u8,
}

/// Size of a system description table header.
pub const SDT_HEADER_LEN: usize = 36;

/// Size of the MADT header (the table header, the LAPIC address and flags).
pub const MADT_HEADER_LEN: usize = 44;

/// Bytes `[off, off + n)` of `m`, which must lie inside it.
pub open spec fn in_mem(m: Seq<u8>, off: int, n: int) -> bool {
    0 <= off && off + n <= m.len()
}

/// The little-endian 32-bit value at `off`.
pub open spec fn le_u32(m: Seq<u8>, off: int) -> u32 {
    (m[off] + 256 * m[off + 1] + 65536 * m[off + 2] + 16777216 * m[off + 3]) as u32
}

/// The little-endian 64-bit value at `off`.
pub open spec fn le_u64(m: Seq<u8>, off: int) -> u64 {
    (le_u32(m, off) + 0x1_0000_0000 * le_u32(m, off + 4)) as u64
}

/// A checksum is good when the bytes sum to zero modulo 256.
pub open spec fn sums_to_zero(s: Seq<u8>) -> bool {
    checksum(s) == 0
}

/// The header of a valid table at `phys`: long enough, inside memory, and
/// summing to zero over its length. Answers its signature and length.
pub open spec fn sdt_at(m: Seq<u8>, phys: int) -> Option<(Seq<u8>, u32)> {
    if !in_mem(m, phys, SDT_HEADER_LEN as int) {
        None
    } else {
        let length = le_u32(m, phys + 4);
        if length < SDT_HEADER_LEN || !in_mem(m, phys, length as int) || !sums_to_zero(
            m.subrange(phys, phys + length),
        ) {
            None
        } else {
            Some((m.subrange(phys, phys + 4), length))
        }
    }
}

/// The first table that entries `i..n` of a table list point at and that
/// is valid and carries the signature `want`. Entries are `width` bytes
/// (8 in the XSDT, 4 in the RSDT) after the list's header.
pub open spec fn first_table(m: Seq<u8>, list: int, width: int, want: Seq<u8>, i: int, n: int) -> Option<(u64, u32)>
    decreases n - i,
{
    if i >= n {
        None
    } else {
        let at = list + SDT_HEADER_LEN + width * i;
        let tp: u64 = if width == 8 { le_u64(m, at) } else { le_u32(m, at) as u64 };
        match sdt_at(m, tp as int) {
            Some((sig, len)) if sig == want => Some((tp, len)),
            _ => first_table(m, list, width, want, i + 1, n),
        }
    }
}

/// The table with signature `want` listed by the table list at `list`.
pub open spec fn find_in_list(m: Seq<u8>, list: int, width: int, want: Seq<u8>) -> Option<(u64, u32)> {
    match sdt_at(m, list) {
        None => None,
        Some((_, len)) => first_table(m, list, width, want, 0, (len - SDT_HEADER_LEN) / width),
    }
}

pub fn read_u32(mem: &[u8], off: usize) -> (v: u32)
    requires
        in_mem(mem@, off as int, 4),
    ensures
        v == le_u32(mem@, off as int),
{
    assert(mem@.len() == mem.len());
    (mem[off] as u32) + 256 * (mem[off + 1] as u32) + 65536 * (mem[off + 2] as u32) + 16777216 * (mem[off
        + 3] as u32)
}

pub fn read_u64(mem: &[u8], off: usize) -> (v: u64)
    requires
        in_mem(mem@, off as int, 8),
    ensures
        v == le_u64(mem@, off as int),
{
    assert(mem@.len() == mem.len());
    let lo = read_u32(mem, off) as u64;
    let hi = read_u32(mem, off + 4) as u64;
    lo + 0x1_0000_0000 * hi
}

/// The bytes sum to zero modulo 256.
pub fn checksum_ok(bytes: &[u8]) -> (ok: bool)
    ensures
        ok == sums_to_zero(bytes@),
{
    crate::packet::checksum_of(bytes) == 0
}

/// `mem[off..off + len]`.
fn phys_slice(mem: &[u8], off: usize, len: usize) -> (s: &[u8])
    requires
        in_mem(mem@, off as int, len as int),
    ensures
        s@ == mem@.subrange(off as int, off + len),
{
    assert(mem@.len() == mem.len());
    vstd::slice::slice_subrange(mem, off, off + len)
}

/// The header of the table at `phys` if it is a valid table.
pub fn sdt_valid(mem: &[u8], phys: u64) -> (r: Option<SdtHeader>)
    ensures
        match sdt_at(mem@, phys as int) {
            None => r is None,
            Some((sig, len)) => r matches Some(h) && h.sig@ == sig && h.length == len,
        },
{
    if phys > mem.len() as u64 || (mem.len() - phys as usize) < SDT_HEADER_LEN {
        return None;
    }
    let p = phys as usize;
    let sig = [mem[p], mem[p + 1], mem[p + 2], mem[p + 3]];
    let length = read_u32(mem, p + 4);
    let hdr = SdtHeader { sig, length, rev: mem[p + 8], checksum: mem[p + 9] };
    if (length as usize) < SDT_HEADER_LEN {
        return None;
    }
    if mem.len() - p < length as usize {
        return None;
    }
    if !checksum_ok(phys_slice(mem, p, length as usize)) {
        return None;
    }
    assert(hdr.sig@ =~= mem@.subrange(phys as int, phys + 4));
    Some(hdr)
}

/// Searches a table list (`width` 8: XSDT, 4: RSDT) for the table with signature `want`.
#[verifier::spinoff_prover]
fn find_sdt_in(mem: &[u8], list_phys: u64, width: usize, want: &[u8; 4]) -> (r: Option<(u64, u32)>)
    requires
        width == 8 || width == 4,
    ensures
        r == find_in_list(mem@, list_phys as int, width as int, want@),
{
    assert(mem@.len() == mem.len());
    let list = match sdt_valid(mem, list_phys) {
        Some(h) => h,
        None => return None,
    };
    let entries = ((list.length as usize) - SDT_HEADER_LEN) / width;
    let base = list_phys as usize + SDT_HEADER_LEN;
    let ghost n = ((list.length - SDT_HEADER_LEN) / width as int);
    assert(entries == n);
    let mut i: usize = 0;
    while i < entries
        invariant
            width == 8 || width == 4,
            i <= entries,
            entries == n,
            base == list_phys + SDT_HEADER_LEN,
            in_mem(mem@, list_phys as int, list.length as int),
            list.length >= SDT_HEADER_LEN,
            entries * width <= list.length - SDT_HEADER_LEN,
            sdt_at(mem@, list_phys as int) matches Some((_, len)) && len == list.length,
            find_in_list(mem@, list_phys as int, width as int, want@) == first_table(
                mem@,
                list_phys as int,
                width as int,
                want@,
                i as int,
                n,
            ),
            mem@.len() == mem.len(),
        decreases entries - i,
    {
        proof {
            vstd::arithmetic::mul::lemma_mul_inequality(i as int + 1, entries as int, width as int);
            assert((i + 1) * width == i * width + width) by (nonlinear_arith);
            assert(width * i == i * width) by (nonlinear_arith);
            assert(width * i + width <= list.length - SDT_HEADER_LEN);
            assert(list_phys + list.length <= mem.len());
        }
        let at = base + width * i;
        let table_phys: u64 = if width == 8 {
            read_u64(mem, at)
        } else {
            read_u32(mem, at) as u64
        };
        if let Some(thdr) = sdt_valid(mem, table_phys) {
            if thdr.sig[0] == want[0] && thdr.sig[1] == want[1] && thdr.sig[2] == want[2] && thdr.sig[3] == want[3] {
                assert(thdr.sig@ =~= want@);
                return Some((table_phys, thdr.length));
            } else {
                proof {
                    if thdr.sig@ == want@ {
                        assert(thdr.sig@[0] == want@[0]);
                        assert(thdr.sig@[1] == want@[1]);
                        assert(thdr.sig@[2] == want@[2]);
                        assert(thdr.sig@[3] == want@[3]);
                    }
                }
            }
        }
        i = i + 1;
    }
    None
}

/// Searches the XSDT (64-bit entries).
pub fn find_sdt_by_sig_xsdt(mem: &[u8], xsdt_phys: u64, want: &[u8; 4]) -> (r: Option<(u64, u32)>)
    ensures
        r == find_in_list(mem@, xsdt_phys as int, 8, want@),
{
    find_sdt_in(mem, xsdt_phys, 8, want)
}

/// Searches the RSDT (32-bit entries).
pub fn find_sdt_by_sig_rsdt(mem: &[u8], rsdt_phys: u64, want: &[u8; 4]) -> (r: Option<(u64, u32)>)
    ensures
        r == find_in_list(mem@, rsdt_phys as int, 4, want@),
{
    find_sdt_in(mem, rsdt_phys, 4, want)
}

/// The signature of the RSDP, `"RSD PTR "`.
pub open spec fn rsdp_sig() -> Seq<u8> {
    seq![82u8, 83u8, 68u8, 32u8, 80u8, 84u8, 82u8, 32u8]
}

/// The MADT signature, `"APIC"`.
pub open spec fn apic_sig() -> Seq<u8> {
    seq![65u8, 80u8, 73u8, 67u8]
}

/// The XSDT address that a revision-2 RSDP gives, or zero when the RSDP is
/// older or its extended checksum fails.
pub open spec fn xsdt_of(m: Seq<u8>, rsdp: int) -> u64 {
    if m[rsdp + 15] >= 2 && in_mem(m, rsdp, 36) {
        let total = le_u32(m, rsdp + 20);
        if total >= 36 && in_mem(m, rsdp, total as int) && sums_to_zero(m.subrange(rsdp, rsdp + total)) {
            le_u64(m, rsdp + 24)
        } else {
            0
        }
    } else {
        0
    }
}

/// Where the MADT is: found through the XSDT when the RSDP gives one, else
/// (or when the XSDT does not list it) through the RSDT.
pub open spec fn madt_location(m: Seq<u8>, rsdp: u64) -> Option<(u64, u32)> {
    let r = rsdp as int;
    if rsdp == 0 || !in_mem(m, r, 20) || m.subrange(r, r + 8) != rsdp_sig() || !sums_to_zero(m.subrange(r, r + 20)) {
        None
    } else {
        let rsdt = le_u32(m, r + 16);
        let xsdt = xsdt_of(m, r);
        let from_rsdt = if rsdt != 0 { find_in_list(m, rsdt as int, 4, apic_sig()) } else { None };
        if xsdt != 0 {
            match find_in_list(m, xsdt as int, 8, apic_sig()) {
                Some(v) => Some(v),
                None => from_rsdt,
            }
        } else {
            from_rsdt
        }
    }
}

/// The parsed MADT so far.
pub struct MadtModel {
    pub lapic: u64,
    pub cpus: Seq<CpuEntry>,
    pub ioapics: Seq<IoApic>,
}

/// How many bytes of an entry of type `typ` and length `l` are read.
pub open spec fn entry_reads(typ: u8, l: u8) -> int {
    if typ == 0 && l >= 8 {
        8
    } else if (typ == 1 || typ == 5) && l >= 12 {
        12
    } else if typ == 9 && l >= 16 {
        12
    } else {
        2
    }
}

/// The effect of one MADT entry at `at`.
pub open spec fn madt_entry(m: Seq<u8>, at: int, acc: MadtModel) -> MadtModel {
    let typ = m[at];
    let l = m[at + 1];
    if typ == 0 && l >= 8 {
        MadtModel {
            cpus: acc.cpus.push(
                CpuEntry { apic_id: m[at + 3] as u32, enabled: le_u32(m, at + 4) & 1 != 0, is_x2apic: false },
            ),
            ..acc
        }
    } else if typ == 1 && l >= 12 {
        MadtModel {
            ioapics: acc.ioapics.push(
                IoApic { id: m[at + 2], mmio_base_phys: le_u32(m, at + 4) as u64, gsi_base: le_u32(m, at + 8) },
            ),
            ..acc
        }
    } else if typ == 5 && l >= 12 {
        MadtModel { lapic: le_u64(m, at + 4), ..acc }
    } else if typ == 9 && l >= 16 {
        MadtModel {
            cpus: acc.cpus.push(
                CpuEntry { apic_id: le_u32(m, at + 4), enabled: le_u32(m, at + 8) & 1 != 0, is_x2apic: true },
            ),
            ..acc
        }
    } else {
        acc
    }
}

/// The MADT entries from offset `p` of the table at `base` with length
/// `len`, walked until an entry header no longer fits or an entry has length
/// zero. `None` when the fields an entry's type and length call for run
/// past the end of the table.
pub open spec fn madt_walk(m: Seq<u8>, base: int, len: int, p: int, acc: MadtModel) -> Option<MadtModel>
    decreases len + 256 - p,
{
    if p + 2 > len || p < 0 {
        Some(acc)
    } else {
        let l = m[base + p + 1];
        if l == 0 {
            Some(acc)
        } else if p + entry_reads(m[base + p], l) > len {
            None
        } else {
            madt_walk(m, base, len, p + l, madt_entry(m, base + p, acc))
        }
    }
}

/// The 32-bit little-endian value of the four bytes at `i`.
pub open spec fn bytes_le4(m: Seq<u8>, i: int) -> int {
    m[i] + 256 * m[i + 1] + 65536 * m[i + 2] + 16777216 * m[i + 3]
}

/// Reading four bytes as a little-endian value: the low bit is the low bit
/// of the first byte, and nothing is lost.
proof fn lemma_le4(m: Seq<u8>, i: int)
    requires
        0 <= i,
        i + 4 <= m.len(),
    ensures
        le_u32(m, i) as int == bytes_le4(m, i),
        (le_u32(m, i) & 1 != 0) == (m[i] % 2 == 1),
{
    let x = le_u32(m, i);
    assert(x as int == bytes_le4(m, i));
    assert((x & 1 != 0) == (x % 2 == 1)) by (bit_vector);
    let k = m[i + 1] + 256 * m[i + 2] + 65536 * m[i + 3];
    assert(x as int == 2 * (128 * k) + m[i]);
    vstd::arithmetic::div_mod::lemma_mod_multiples_vanish(128 * k, m[i] as int, 2);
}

/// Each MADT entry lists what its bytes say. For the entry at offset `p`
/// of the table at `base` (an entry of length `l` that lies inside the
/// table), the walk from `p` is the walk from `p + l` after:
/// - a processor local APIC entry (type 0, `l >= 8`) adds a processor whose
///   APIC ID is the byte at offset 3 and which is enabled when bit 0 of the
///   flags at offset 4 is set;
/// - an I/O APIC entry (type 1, `l >= 12`) adds an I/O APIC with the ID at
///   offset 2, the address at offset 4 and the first interrupt at offset 8;
/// - an address override (type 5, `l >= 12`) sets the local APIC address to
///   the eight bytes at offset 4;
/// - a local x2APIC entry (type 9, `l >= 16`) adds an x2APIC processor whose
///   ID is the four bytes at offset 4, enabled by bit 0 of offset 8;
/// - any other entry adds nothing.
/// An entry of length zero ends the walk.
pub proof fn lemma_madt_entry_bytes(m: Seq<u8>, base: int, len: int, p: int, acc: MadtModel)
    requires
        0 <= base,
        0 <= p,
        p + 2 <= len,
        base + len <= m.len(),
        p + m[base + p + 1] <= len,
    ensures
        ({
            let at = base + p;
            let typ = m[at];
            let l = m[at + 1];
            let next = p + l;
            &&& l == 0 ==> madt_walk(m, base, len, p, acc) == Some(acc)
            &&& (l > 0 && typ == 0 && l >= 8) ==> madt_walk(m, base, len, p, acc) == madt_walk(
                m,
                base,
                len,
                next,
                MadtModel {
                    cpus: acc.cpus.push(
                        CpuEntry { apic_id: m[at + 3] as u32, enabled: m[at + 4] % 2 == 1, is_x2apic: false },
                    ),
                    ..acc
                },
            )
            &&& (l > 0 && typ == 1 && l >= 12) ==> madt_walk(m, base, len, p, acc) == madt_walk(
                m,
                base,
                len,
                next,
                MadtModel {
                    ioapics: acc.ioapics.push(
                        IoApic {
                            id: m[at + 2],
                            mmio_base_phys: bytes_le4(m, at + 4) as u64,
                            gsi_base: bytes_le4(m, at + 8) as u32,
                        },
                    ),
                    ..acc
                },
            )
            &&& (l > 0 && typ == 5 && l >= 12) ==> madt_walk(m, base, len, p, acc) == madt_walk(
                m,
                base,
                len,
                next,
                MadtModel { lapic: (bytes_le4(m, at + 4) + 0x1_0000_0000 * bytes_le4(m, at + 8)) as u64, ..acc },
            )
            &&& (l > 0 && typ == 9 && l >= 16) ==> madt_walk(m, base, len, p, acc) == madt_walk(
                m,
                base,
                len,
                next,
                MadtModel {
                    cpus: acc.cpus.push(
                        CpuEntry {
                            apic_id: bytes_le4(m, at + 4) as u32,
                            enabled: m[at + 8] % 2 == 1,
                            is_x2apic: true,
                        },
                    ),
                    ..acc
                },
            )
            &&& (l > 0 && !(typ == 0 && l >= 8) && !((typ == 1 || typ == 5) && l >= 12) && !(typ == 9 && l >= 16))
                ==> madt_walk(m, base, len, p, acc) == madt_walk(m, base, len, next, acc)
        }),
{
    let at = base + p;
    let l = m[at + 1];
    if l > 0 {
        if l >= 8 {
            lemma_le4(m, at + 4);
        }
        if l >= 12 {
            lemma_le4(m, at + 8);
        }
    }
}

/// What the MADT found for `rsdp` lists; `None` when there is none, when
/// its header runs past the end of memory, or when an entry runs past the
/// end of the table.
pub open spec fn madt_info(m: Seq<u8>, rsdp: u64) -> Option<MadtModel> {
    match madt_location(m, rsdp) {
        None => None,
        Some((phys, len)) => if phys + 40 > m.len() {
            None
        } else {
            madt_walk(
                m,
                phys as int,
                len as int,
                MADT_HEADER_LEN as int,
                MadtModel { lapic: le_u32(m, phys + 36) as u64, cpus: Seq::empty(), ioapics: Seq::empty() },
            )
        },
    }
}

/// The MADT's lists start empty, with the local APIC address from the
/// four bytes at offset 36 of the table, and its entries start after the
/// 44-byte header.
pub proof fn lemma_madt_start(m: Seq<u8>, rsdp: u64)
    ensures
        match madt_location(m, rsdp) {
            Some((phys, len)) => phys + 40 <= m.len() ==> {
                &&& in_mem(m, phys as int, len as int)
                &&& madt_info(m, rsdp) == madt_walk(
                    m,
                    phys as int,
                    len as int,
                    44,
                    MadtModel { lapic: bytes_le4(m, phys + 36) as u64, cpus: Seq::empty(), ioapics: Seq::empty() },
                )
            },
            None => madt_info(m, rsdp) is None,
        },
{
    lemma_found_table_in_mem(m, rsdp);
    if let Some((phys, len)) = madt_location(m, rsdp) {
        if phys + 40 <= m.len() {
            lemma_le4(m, phys + 36);
        }
    }
}

/// Finds the MADT through the RSDP at `rsdp_addr` and lists its processors
/// and I/O APICs.
pub fn discover(mem: &[u8], rsdp_addr: u64) -> (r: Option<MadtInfo>)
    ensures
        match madt_info(mem@, rsdp_addr) {
            None => r is None,
            Some(info) => r matches Some(got) && got.lapic_phys == info.lapic && got.cpus@ == info.cpus
                && got.ioapics@ == info.ioapics,
        },
{
    assert(mem@.len() == mem.len());
    if rsdp_addr == 0 {
        return None;
    }
    if rsdp_addr > mem.len() as u64 || mem.len() - (rsdp_addr as usize) < 20 {
        return None;
    }
    let r = rsdp_addr as usize;
    let r1 = phys_slice(mem, r, 20);
    let sig: [u8; 8] = [82, 83, 68, 32, 80, 84, 82, 32];  // "RSD PTR "
    let mut k: usize = 0;
    while k < 8
        invariant
            k <= 8,
            r as int == rsdp_addr as int,
            r + 20 <= mem@.len(),
            r1@ == mem@.subrange(r as int, r + 20),
            sig@ == rsdp_sig(),
            forall|j: int| 0 <= j < k ==> r1@[j] == sig@[j],
        decreases 8 - k,
    {
        if r1[k] != sig[k] {
            proof {
                assert(mem@.subrange(r as int, r + 8)[k as int] == r1@[k as int]);
                assert(mem@.subrange(r as int, r + 8)[k as int] != rsdp_sig()[k as int]);
                assert(mem@.subrange(r as int, r + 8) != rsdp_sig());
                assert(r as int == rsdp_addr as int);
                assert(madt_location(mem@, rsdp_addr) is None);
            }
            return None;
        }
        k = k + 1;
    }
    assert(mem@.subrange(r as int, r + 8) =~= rsdp_sig()) by {
        assert forall|j: int| 0 <= j < 8 implies mem@.subrange(r as int, r + 8)[j] == rsdp_sig()[j] by {
            assert(r1@[j] == sig@[j]);
        }
    }
    if !checksum_ok(r1) {
        return None;
    }
    let rev = mem[r + 15];
    let rsdt_addr = read_u32(mem, r + 16);
    let mut xsdt_addr: u64 = 0;
    if rev >= 2 && mem.len() - r >= 36 {
        let total_len = read_u32(mem, r + 20) as usize;
        if total_len >= 36 && mem.len() - r >= total_len && checksum_ok(phys_slice(mem, r, total_len)) {
            xsdt_addr = read_u64(mem, r + 24);
        }
    }
    assert(xsdt_addr == xsdt_of(mem@, r as int));
    let apic: [u8; 4] = [65, 80, 73, 67];  // "APIC"
    assert(apic@ =~= apic_sig());
    let madt = if xsdt_addr != 0 {
        match find_sdt_by_sig_xsdt(mem, xsdt_addr, &apic) {
            Some(v) => Some(v),
            None => {
                if rsdt_addr != 0 {
                    find_sdt_by_sig_rsdt(mem, rsdt_addr as u64, &apic)
                } else {
                    None
                }
            },
        }
    } else {
        if rsdt_addr != 0 {
            find_sdt_by_sig_rsdt(mem, rsdt_addr as u64, &apic)
        } else {
            None
        }
    };
    let (madt_phys, madt_len) = match madt {
        Some(v) => v,
        None => return None,
    };
    proof {
        lemma_found_table_in_mem(mem@, rsdp_addr);
    }
    let base = madt_phys as usize;
    let len = madt_len as usize;
    if mem.len() - base < 40 {
        return None;
    }
    let mut lapic_phys = read_u32(mem, base + 36) as u64;
    let mut cpus: Vec<CpuEntry> = Vec::new();
    let mut ioapics: Vec<IoApic> = Vec::new();
    let ghost init = MadtModel { lapic: lapic_phys, cpus: Seq::empty(), ioapics: Seq::empty() };
    let mut p: u64 = MADT_HEADER_LEN as u64;
    let len64 = madt_len as u64;
    assert(madt_info(mem@, rsdp_addr) == madt_walk(mem@, base as int, len as int, MADT_HEADER_LEN as int, init));
    loop
        invariant
            base + len <= mem@.len(),
            len64 == len,
            len <= u32::MAX,
            p <= len64 + 256,
            mem@.len() == mem.len(),
            base + 40 <= mem@.len(),
            madt_info(mem@, rsdp_addr) == madt_walk(mem@, base as int, len as int, MADT_HEADER_LEN as int, init),
            madt_walk(mem@, base as int, len as int, MADT_HEADER_LEN as int, init) == madt_walk(
                mem@,
                base as int,
                len as int,
                p as int,
                MadtModel { lapic: lapic_phys, cpus: cpus@, ioapics: ioapics@ },
            ),
        ensures
            madt_walk(mem@, base as int, len as int, MADT_HEADER_LEN as int, init) == Some(MadtModel {
                lapic: lapic_phys,
                cpus: cpus@,
                ioapics: ioapics@,
            }),
        decreases len64 + 256 - p,
    {
        if p + 2 > len64 {
            break;
        }
        let at = base + p as usize;
        let typ = mem[at];
        let l = mem[at + 1];
        if l == 0 {
            break;
        }
        let reads: usize = if typ == 0 && l >= 8 {
            8
        } else if (typ == 1 || typ == 5) && l >= 12 {
            12
        } else if typ == 9 && l >= 16 {
            12
        } else {
            2
        };
        if len - (p as usize) < reads {
            return None;
        }
        if typ == 0 && l >= 8 {
            let apic_id = mem[at + 3];
            let flags = read_u32(mem, at + 4);
            cpus.push(CpuEntry { apic_id: apic_id as u32, enabled: (flags & 1) != 0, is_x2apic: false });
        } else if typ == 1 && l >= 12 {
            let id = mem[at + 2];
            let mmio = read_u32(mem, at + 4) as u64;
            let gsi = read_u32(mem, at + 8);
            ioapics.push(IoApic { id, mmio_base_phys: mmio, gsi_base: gsi });
        } else if typ == 5 && l >= 12 {
            lapic_phys = read_u64(mem, at + 4);
        } else if typ == 9 && l >= 16 {
            let apic_id = read_u32(mem, at + 4);
            let flags = read_u32(mem, at + 8);
            cpus.push(CpuEntry { apic_id, enabled: (flags & 1) != 0, is_x2apic: true });
        }
        p = p + l as u64;
    }
    Some(MadtInfo { lapic_phys, cpus, ioapics })
}

proof fn lemma_first_table_valid(m: Seq<u8>, list: int, width: int, want: Seq<u8>, i: int, n: int)
    ensures
        first_table(m, list, width, want, i, n) matches Some((tp, len)) ==> sdt_at(m, tp as int) matches Some((
            _,
            l2,
        )) && l2 == len,
    decreases n - i,
{
    if i < n {
        lemma_first_table_valid(m, list, width, want, i + 1, n);
    }
}

/// The MADT found for an RSDP is a valid table inside memory.
proof fn lemma_found_table_in_mem(m: Seq<u8>, rsdp: u64)
    ensures
        madt_location(m, rsdp) matches Some((phys, len)) ==> in_mem(m, phys as int, len as int) && len >= 36,
{
    let r = rsdp as int;
    if madt_location(m, rsdp) is Some {
        let rsdt = le_u32(m, r + 16);
        let xsdt = xsdt_of(m, r);
        if let Some((_, len)) = sdt_at(m, xsdt as int) {
            lemma_first_table_valid(m, xsdt as int, 8, apic_sig(), 0, (len - SDT_HEADER_LEN) / 8);
        }
        if let Some((_, len)) = sdt_at(m, rsdt as int) {
            lemma_first_table_valid(m, rsdt as int, 4, apic_sig(), 0, (len - SDT_HEADER_LEN) / 4);
        }
    }
}

} // verus!
