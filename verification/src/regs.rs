//! The trap frame that the interrupt stubs push, and its image in the
//! debugger's `g` / `G` register packets.
use vstd::prelude::*;
use vstd::arithmetic::power::pow;
use crate::hex::{hex4, from_hex, hex_char, hex_digit_value, is_hex_digit, digit_of};

verus! {

/// Registers saved by the interrupt entry stubs, in push order.
#[derive(Clone, Copy, Debug)]
pub struct TrapFrame {
    pub r15: u64,
    pub r14: u64,
    pub r13: u64,
    pub r12: u64,
    pub r11: u64,
    pub r10: u64,
    pub r9: u64,
    pub r8: u64,
    pub rsi: u64,
    pub rdi: u64,
    pub rbp: u64,
    pub rdx: u64,
    pub rcx: u64,
    pub rbx: u64,
    pub rax: u64,
    pub vec: u64,
    pub err: u64,
    pub rip: u64,
    pub cs: u64,
    pub rflags: u64,
    pub rsp: u64,
    pub ss: u64,
}

/// Why the debugger was entered.
#[derive(Clone, Copy, Debug)]
pub enum DebugReason {
    Breakpoint,
    SingleStep,
    Exception(u8),
    Int3,
}

/// Callee-saved context used by the cooperative context switch.
#[derive(Clone, Copy, Debug)]
pub struct CpuContext {
    pub r15: u64,
    pub r14: u64,
    pub r13: u64,
    pub r12: u64,
    pub r11: u64,
    pub r10: u64,
    pub r9: u64,
    pub r8: u64,
    pub rdi: u64,
    pub rsi: u64,
    pub rbx: u64,
    pub rbp: u64,
    pub rdx: u64,
    pub rcx: u64,
    pub rax: u64,
    pub rsp: u64,
    pub rip: u64,
    pub rflags: u64,
}

impl CpuContext {
    /// The all-zero context.
    pub fn zeroed() -> (c: CpuContext)
        ensures
            c == CpuContext::zero_spec(),
    {
        CpuContext {
            r15: 0,
            r14: 0,
            r13: 0,
            r12: 0,
            r11: 0,
            r10: 0,
            r9: 0,
            r8: 0,
            rdi: 0,
            rsi: 0,
            rbx: 0,
            rbp: 0,
            rdx: 0,
            rcx: 0,
            rax: 0,
            rsp: 0,
            rip: 0,
            rflags: 0,
        }
    }

    pub open spec fn zero_spec() -> CpuContext {
        CpuContext {
            r15: 0,
            r14: 0,
            r13: 0,
            r12: 0,
            r11: 0,
            r10: 0,
            r9: 0,
            r8: 0,
            rdi: 0,
            rsi: 0,
            rbx: 0,
            rbp: 0,
            rdx: 0,
            rcx: 0,
            rax: 0,
            rsp: 0,
            rip: 0,
            rflags: 0,
        }
    }
}

impl TrapFrame {
    /// The all-zero frame.
    pub fn zeroed() -> (t: TrapFrame)
        ensures
            t == TrapFrame::zero_spec(),
    {
        TrapFrame {
            r15: 0,
            r14: 0,
            r13: 0,
            r12: 0,
            r11: 0,
            r10: 0,
            r9: 0,
            r8: 0,
            rsi: 0,
            rdi: 0,
            rbp: 0,
            rdx: 0,
            rcx: 0,
            rbx: 0,
            rax: 0,
            vec: 0,
            err: 0,
            rip: 0,
            cs: 0,
            rflags: 0,
            rsp: 0,
            ss: 0,
        }
    }

    pub open spec fn zero_spec() -> TrapFrame {
        TrapFrame {
            r15: 0,
            r14: 0,
            r13: 0,
            r12: 0,
            r11: 0,
            r10: 0,
            r9: 0,
            r8: 0,
            rsi: 0,
            rdi: 0,
            rbp: 0,
            rdx: 0,
            rcx: 0,
            rbx: 0,
            rax: 0,
            vec: 0,
            err: 0,
            rip: 0,
            cs: 0,
            rflags: 0,
            rsp: 0,
            ss: 0,
        }
    }
}

/// Clears the trap flag, leaving everything else as it was.
pub fn clear_tf(tf: &mut TrapFrame)
    ensures
        *final(tf) == (TrapFrame { rflags: old(tf).rflags & !0x100u64, ..*old(tf) }),
{
    tf.rflags = tf.rflags & !0x100u64;
}

/// Sets the trap flag, leaving everything else as it was.
pub fn set_tf(tf: &mut TrapFrame)
    ensures
        *final(tf) == (TrapFrame { rflags: old(tf).rflags | 0x100u64, ..*old(tf) }),
{
    tf.rflags = tf.rflags | 0x100u64;
}

/// Number of general registers (with RIP) at the head of a `g` packet.
pub const G_REGS: usize = 17;

/// Length of the register packet that the stub advertises and accepts.
pub const G_HEX_LEN: usize = 572;

/// The `k`-th 64-bit register in packet order: RAX, RBX, RCX, RDX, RSI, RDI,
/// RBP, RSP, R8..R15, RIP.
pub open spec fn g_reg(tf: TrapFrame, k: int) -> u64 {
    if k == 0 { tf.rax }
    else if k == 1 { tf.rbx }
    else if k == 2 { tf.rcx }
    else if k == 3 { tf.rdx }
    else if k == 4 { tf.rsi }
    else if k == 5 { tf.rdi }
    else if k == 6 { tf.rbp }
    else if k == 7 { tf.rsp }
    else if k == 8 { tf.r8 }
    else if k == 9 { tf.r9 }
    else if k == 10 { tf.r10 }
    else if k == 11 { tf.r11 }
    else if k == 12 { tf.r12 }
    else if k == 13 { tf.r13 }
    else if k == 14 { tf.r14 }
    else if k == 15 { tf.r15 }
    else { tf.rip }
}

/// The frame's fields that no packet register names.
pub open spec fn same_non_g_fields(a: TrapFrame, b: TrapFrame) -> bool {
    a.vec == b.vec && a.err == b.err && a.cs == b.cs && a.rflags == b.rflags && a.ss == b.ss
}

pub fn get_g_reg(tf: &TrapFrame, k: usize) -> (v: u64)
    requires
        k < 17,
    ensures
        v == g_reg(*tf, k as int),
{
    match k {
        0 => tf.rax,
        1 => tf.rbx,
        2 => tf.rcx,
        3 => tf.rdx,
        4 => tf.rsi,
        5 => tf.rdi,
        6 => tf.rbp,
        7 => tf.rsp,
        8 => tf.r8,
        9 => tf.r9,
        10 => tf.r10,
        11 => tf.r11,
        12 => tf.r12,
        13 => tf.r13,
        14 => tf.r14,
        15 => tf.r15,
        _ => tf.rip,
    }
}

pub fn set_g_reg(tf: &mut TrapFrame, k: usize, v: u64)
    requires
        k < 17,
    ensures
        forall|j: int| 0 <= j < 17 ==> g_reg(*final(tf), j) == if j == k { v } else { g_reg(*old(tf), j) },
        same_non_g_fields(*final(tf), *old(tf)),
{
    match k {
        0 => tf.rax = v,
        1 => tf.rbx = v,
        2 => tf.rcx = v,
        3 => tf.rdx = v,
        4 => tf.rsi = v,
        5 => tf.rdi = v,
        6 => tf.rbp = v,
        7 => tf.rsp = v,
        8 => tf.r8 = v,
        9 => tf.r9 = v,
        10 => tf.r10 = v,
        11 => tf.r11 = v,
        12 => tf.r12 = v,
        13 => tf.r13 = v,
        14 => tf.r14 = v,
        15 => tf.r15 = v,
        _ => tf.rip = v,
    }
}

/// Two hexadecimal characters for one byte, high nibble first.
pub open spec fn hex_byte(b: nat) -> Seq<u8> {
    seq![hex_char((b / 16) as int), hex_char((b % 16) as int)]
}

/// The `n` low bytes of `v`, least significant first, each as two hex characters.
pub open spec fn le_hex(v: nat, n: nat) -> Seq<u8>
    decreases n,
{
    if n == 0 {
        Seq::empty()
    } else {
        hex_byte(v % 256) + le_hex(v / 256, (n - 1) as nat)
    }
}

/// `n` characters `'0'`.
pub open spec fn zero_chars(n: nat) -> Seq<u8> {
    Seq::new(n, |i: int| 48u8)
}

/// The 17 general registers of `tf` in packet order, 16 characters each.
pub open spec fn g_regs_image(tf: TrapFrame, k: nat) -> Seq<u8>
    decreases k,
{
    if k == 0 {
        Seq::empty()
    } else {
        g_regs_image(tf, (k - 1) as nat) + le_hex(g_reg(tf, k - 1) as nat, 8)
    }
}

/// What `write_g` writes, in the layout `read_g` reads: the general
/// registers and RIP, a zero ORIG_RAX, the low halves of RFLAGS, CS and SS,
/// then zeros for DS..GS, the FS/GS bases and the x87 state, up to the
/// packet length.
pub open spec fn g_image(tf: TrapFrame) -> Seq<u8> {
    g_regs_image(tf, 17) + zero_chars(16) + le_hex((tf.rflags % 0x1_0000_0000) as nat, 4) + le_hex(
        (tf.cs % 0x1_0000_0000) as nat,
        4,
    ) + le_hex((tf.ss % 0x1_0000_0000) as nat, 4) + zero_chars(260)
}

proof fn lemma_le_hex_len(v: nat, n: nat)
    ensures
        le_hex(v, n).len() == 2 * n,
    decreases n,
{
    if n > 0 {
        lemma_le_hex_len(v / 256, (n - 1) as nat);
    }
}

proof fn lemma_le_hex_zero(n: nat)
    ensures
        le_hex(0, n) =~= zero_chars(2 * n),
    decreases n,
{
    if n > 0 {
        lemma_le_hex_zero((n - 1) as nat);
    }
}

proof fn lemma_g_regs_image_len(tf: TrapFrame, k: nat)
    ensures
        g_regs_image(tf, k).len() == 16 * k,
    decreases k,
{
    if k > 0 {
        lemma_g_regs_image_len(tf, (k - 1) as nat);
        lemma_le_hex_len(g_reg(tf, k - 1) as nat, 8);
    }
}

/// Appends the two hex characters of `b`.
fn put8(out: &mut Vec<u8>, b: u8)
    ensures
        final(out)@ == old(out)@ + hex_byte(b as nat),
{
    assert((b >> 4u8) & 0xFu8 == b / 16 && b & 0xFu8 == b % 16) by (bit_vector);
    out.push(hex4((b >> 4) & 0xF));
    out.push(hex4(b & 0xF));
}

/// Appends the `n` low bytes of `v`, least significant first.
fn put_le(out: &mut Vec<u8>, v: u64, n: usize)
    requires
        n <= 8,
    ensures
        final(out)@ == old(out)@ + le_hex(v as nat, n as nat),
{
    let mut cur = v;
    let mut k: usize = 0;
    while k < n
        invariant
            k <= n,
            old(out)@ + le_hex(v as nat, n as nat) =~= out@ + le_hex(cur as nat, (n - k) as nat),
        decreases n - k,
    {
        let c = cur;
        let b = (c & 0xFF) as u8;
        assert(c & 0xFFu64 == c % 256 && c >> 8u64 == c / 256) by (bit_vector);
        let ghost before = out@;
        put8(out, b);
        cur = c >> 8;
        assert(le_hex(c as nat, (n - k) as nat) =~= hex_byte(b as nat) + le_hex(
            cur as nat,
            (n - k - 1) as nat,
        ));
        k = k + 1;
    }
}

/// The register image of `tf`: a whole `g` packet payload.
pub fn g_image_of(tf: &TrapFrame) -> (img: Vec<u8>)
    ensures
        img@ == g_image(*tf),
        img@.len() == G_HEX_LEN,
{
    let mut out: Vec<u8> = Vec::new();
    let mut k: usize = 0;
    while k < 17
        invariant
            k <= 17,
            out@ == g_regs_image(*tf, k as nat),
        decreases 17 - k,
    {
        let v = get_g_reg(tf, k);
        put_le(&mut out, v, 8);
        k = k + 1;
    }
    put_le(&mut out, 0, 8);
    proof {
        lemma_le_hex_zero(8);
    }
    put_le(&mut out, tf.rflags & 0xFFFF_FFFF, 4);
    put_le(&mut out, tf.cs & 0xFFFF_FFFF, 4);
    put_le(&mut out, tf.ss & 0xFFFF_FFFF, 4);
    let ghost head = out@;
    let mut z: usize = 0;
    while z < 260
        invariant
            z <= 260,
            out@ == head + zero_chars(z as nat),
        decreases 260 - z,
    {
        out.push(48u8);
        z = z + 1;
        assert(out@ =~= head + zero_chars(z as nat));
    }
    proof {
        let f = tf.rflags;
        let c = tf.cs;
        let s = tf.ss;
        assert(f & 0xFFFF_FFFFu64 == f % 0x1_0000_0000 && c & 0xFFFF_FFFFu64 == c % 0x1_0000_0000
            && s & 0xFFFF_FFFFu64 == s % 0x1_0000_0000) by (bit_vector);
        lemma_g_regs_image_len(*tf, 17);
        lemma_le_hex_len((f % 0x1_0000_0000) as nat, 4);
        lemma_le_hex_len((c % 0x1_0000_0000) as nat, 4);
        lemma_le_hex_len((s % 0x1_0000_0000) as nat, 4);
    }
    out
}

/// The x86-64 register layout of the debugger's `g` and `G` packets.
#[derive(Clone, Copy, Debug, PartialEq, Eq)]
pub struct X86_64Core;

/// Writes the register image of `tf` at the start of `out` and returns how
/// many characters it wrote, the whole packet length; the rest of `out` is
/// left as it was.
pub fn write_g(out: &mut Vec<u8>, tf: &TrapFrame) -> (w: usize)
    requires
        old(out)@.len() >= G_HEX_LEN,
    ensures
        w == G_HEX_LEN,
        final(out)@ == g_image(*tf) + old(out)@.skip(G_HEX_LEN as int),
        final(out)@.len() == old(out)@.len(),
{
    let img = g_image_of(tf);
    let mut i: usize = 0;
    while i < G_HEX_LEN
        invariant
            i <= G_HEX_LEN,
            old(out)@.len() >= G_HEX_LEN,
            img@.len() == G_HEX_LEN,
            out@.len() == old(out)@.len(),
            forall|j: int| 0 <= j < i ==> out@[j] == img@[j],
            forall|j: int| i <= j < out@.len() ==> out@[j] == old(out)@[j],
        decreases G_HEX_LEN - i,
    {
        out.set(i, img[i]);
        i = i + 1;
    }
    assert(out@ =~= g_image(*tf) + old(out)@.skip(G_HEX_LEN as int));
    G_HEX_LEN
}

/// The value of `n` bytes written least significant first as hex pairs at the
/// head of `s`, or `None` where one of those characters is no hex digit.
pub open spec fn le_hex_value(s: Seq<u8>, n: nat) -> Option<nat>
    decreases n,
{
    if n == 0 {
        Some(0)
    } else if s.len() >= 2 && is_hex_digit(s[0]) && is_hex_digit(s[1]) {
        match le_hex_value(s.skip(2), (n - 1) as nat) {
            Some(r) => Some(digit_of(s[0]) * 16 + digit_of(s[1]) + 256 * r),
            None => None,
        }
    } else {
        None
    }
}

proof fn lemma_le_hex_value_bound(s: Seq<u8>, n: nat)
    ensures
        le_hex_value(s, n) is Some ==> le_hex_value(s, n)->Some_0 < pow(256, n),
    decreases n,
{
    if n == 0 {
        vstd::arithmetic::power::lemma_pow0(256);
    } else {
        lemma_le_hex_value_bound(s.skip(2), (n - 1) as nat);
        vstd::arithmetic::power::lemma_pow_adds(256, 1, (n - 1) as nat);
        vstd::arithmetic::power::lemma_pow1(256);
        if le_hex_value(s, n) is Some {
            let v = le_hex_value(s, n)->Some_0;
            let r = le_hex_value(s.skip(2), (n - 1) as nat)->Some_0;
            let p = pow(256, (n - 1) as nat);
            let lo = digit_of(s[0]) * 16 + digit_of(s[1]);
            assert(v == lo + 256 * r);
            assert(lo < 256);
            assert(pow(256, n) == 256 * p) by {
                assert(1 + (n - 1) as nat == n);
            }
            assert(v < pow(256, n)) by (nonlinear_arith)
                requires
                    v == lo + 256 * r,
                    r < p,
                    lo < 256,
                    pow(256, n) == 256 * p,
            ;
        }
    }
}

proof fn lemma_pow256_le8(n: nat)
    requires
        n <= 8,
    ensures
        pow(256, n) <= 0x1_0000_0000_0000_0000,
{
    vstd::arithmetic::power::lemma_pow_increases(256, n, 8);
    reveal_with_fuel(pow, 9);
    assert(pow(256, 8) == 0x1_0000_0000_0000_0000);
}

/// Decodes `n` little-endian bytes written as hex pairs at `p[off..off + 2n]`.
pub fn decode_le(p: &[u8], off: usize, n: usize) -> (r: Option<u64>)
    requires
        n <= 8,
        off + 2 * n <= p@.len(),
    ensures
        r matches Some(v) ==> le_hex_value(p@.skip(off as int), n as nat) == Some(v as nat),
        r is None ==> le_hex_value(p@.skip(off as int), n as nat) is None,
    decreases n,
{
    if n == 0 {
        return Some(0);
    }
    let hi = from_hex(p[off]);
    let lo = from_hex(p[off + 1]);
    proof {
        assert(p@.skip(off as int)[0] == p@[off as int]);
        assert(p@.skip(off as int)[1] == p@[off + 1]);
        assert(p@.skip(off as int).skip(2) =~= p@.skip(off + 2));
    }
    match (hi, lo) {
        (Some(h), Some(l)) => {
            match decode_le(p, off + 2, n - 1) {
                Some(rest) => {
                    proof {
                        lemma_le_hex_value_bound(p@.skip(off as int), n as nat);
                        lemma_pow256_le8(n as nat);
                    }
                    let b = (h as u64) * 16 + (l as u64);
                    Some(b + 256 * rest)
                },
                None => None,
            }
        },
        _ => None,
    }
}

/// Offset of the `k`-th field of a `G` packet: 18 eight-byte fields (the
/// general registers, RIP and ORIG_RAX), 7 four-byte fields (EFLAGS and the
/// segment registers), then the eight-byte FS and GS bases.
pub open spec fn g_field_offset(k: int) -> int {
    if k < 18 {
        16 * k
    } else if k < 25 {
        288 + 8 * (k - 18)
    } else {
        344 + 16 * (k - 25)
    }
}

pub open spec fn g_field_bytes(k: int) -> nat {
    if 18 <= k < 25 { 4 } else { 8 }
}

/// The value of field `k` of a `G` payload.
pub open spec fn g_field(p: Seq<u8>, k: int) -> Option<nat> {
    le_hex_value(p.skip(g_field_offset(k)), g_field_bytes(k))
}

/// All fields before `k` hold only hex digits.
pub open spec fn g_fields_valid(p: Seq<u8>, k: int) -> bool {
    forall|j: int| 0 <= j < k ==> #[trigger] g_field(p, j) is Some
}

/// Number of fields in a `G` payload.
pub const G_FIELDS: usize = 27;

/// Loads a `G` payload into `tf`. The fields are taken in order; the
/// registers are written as they are read, so a bad digit leaves the
/// registers before it updated. Only the low half of RFLAGS is taken; the
/// other fields are read and ignored.
pub fn read_g(tf: &mut TrapFrame, payload: &[u8]) -> (ok: bool)
    ensures
        ok == (payload@.len() == G_HEX_LEN && g_fields_valid(payload@, 27)),
        forall|j: int|
            0 <= j < 17 ==> #[trigger] g_reg(*final(tf), j) == if payload@.len() == G_HEX_LEN
                && g_fields_valid(payload@, j + 1) {
                g_field(payload@, j)->Some_0 as u64
            } else {
                g_reg(*old(tf), j)
            },
        final(tf).rflags == if payload@.len() == G_HEX_LEN && g_fields_valid(payload@, 19) {
            (old(tf).rflags & !0xFFFF_FFFFu64) | (g_field(payload@, 18)->Some_0 as u64)
        } else {
            old(tf).rflags
        },
        final(tf).vec == old(tf).vec,
        final(tf).err == old(tf).err,
        final(tf).cs == old(tf).cs,
        final(tf).ss == old(tf).ss,
{
    if payload.len() != G_HEX_LEN {
        return false;
    }
    let mut k: usize = 0;
    while k < 27
        invariant
            k <= 27,
            payload@.len() == G_HEX_LEN,
            g_fields_valid(payload@, k as int),
            forall|j: int|
                0 <= j < 17 ==> #[trigger] g_reg(*tf, j) == if j < k {
                    g_field(payload@, j)->Some_0 as u64
                } else {
                    g_reg(*old(tf), j)
                },
            tf.rflags == if k > 18 {
                (old(tf).rflags & !0xFFFF_FFFFu64) | (g_field(payload@, 18)->Some_0 as u64)
            } else {
                old(tf).rflags
            },
            tf.vec == old(tf).vec,
            tf.err == old(tf).err,
            tf.cs == old(tf).cs,
            tf.ss == old(tf).ss,
        decreases 27 - k,
    {
        let (off, n): (usize, usize) = if k < 18 {
            (16 * k, 8)
        } else if k < 25 {
            (288 + 8 * (k - 18), 4)
        } else {
            (344 + 16 * (k - 25), 8)
        };
        let v = match decode_le(payload, off, n) {
            Some(v) => v,
            None => {
                proof {
                    assert forall|j: int| 0 <= j < 17 implies #[trigger] g_reg(*tf, j) == (if g_fields_valid(payload@, j + 1) {
                        g_field(payload@, j)->Some_0 as u64
                    } else {
                        g_reg(*old(tf), j)
                    }) by {
                        if j >= k {
                            assert(!g_fields_valid(payload@, j + 1)) by {
                                assert(g_field(payload@, k as int) is None);
                            }
                        }
                    }
                    if k <= 18 {
                        assert(!g_fields_valid(payload@, 19)) by {
                            assert(g_field(payload@, k as int) is None);
                        }
                    }
                    assert(!g_fields_valid(payload@, 27)) by {
                        assert(g_field(payload@, k as int) is None);
                    }
                }
                return false;
            },
        };
        assert(off as int == g_field_offset(k as int) && n as nat == g_field_bytes(k as int));
        assert(g_field(payload@, k as int) == Some(v as nat));
        let ghost before = *tf;
        if k < 17 {
            set_g_reg(tf, k, v);
        } else if k == 18 {
            tf.rflags = (tf.rflags & !0xFFFF_FFFFu64) | v;
        }
        assert forall|j: int| 0 <= j < 17 implies #[trigger] g_reg(*tf, j) == if j < k + 1 {
            g_field(payload@, j)->Some_0 as u64
        } else {
            g_reg(*old(tf), j)
        } by {
            if j == k {
                assert(g_reg(*tf, j) == v);
            } else {
                assert(g_reg(*tf, j) == g_reg(before, j));
            }
        }
        assert(g_fields_valid(payload@, k + 1)) by {
            assert forall|j: int| 0 <= j < k + 1 implies #[trigger] g_field(payload@, j) is Some by {
                if j < k {
                    assert(g_fields_valid(payload@, k as int));
                }
            }
        }
        k = k + 1;
    }
    proof {
        assert forall|j: int| 0 <= j < 17 implies #[trigger] g_reg(*tf, j) == (if g_fields_valid(payload@, j + 1) {
            g_field(payload@, j)->Some_0 as u64
        } else {
            g_reg(*old(tf), j)
        }) by {
            assert(g_fields_valid(payload@, j + 1)) by {
                assert forall|i: int| 0 <= i < j + 1 implies #[trigger] g_field(payload@, i) is Some by {
                    assert(g_fields_valid(payload@, 27));
                }
            }
        }
        assert(g_fields_valid(payload@, 19)) by {
            assert forall|i: int| 0 <= i < 19 implies #[trigger] g_field(payload@, i) is Some by {
                assert(g_fields_valid(payload@, 27));
            }
        }
    }
    true
}

/// `n` bytes written by `le_hex` decode back, whatever follows them.
proof fn lemma_le_hex_decodes(v: nat, n: nat, t: Seq<u8>)
    ensures
        le_hex_value(le_hex(v, n) + t, n) == Some(((v as int) % pow(256, n)) as nat),
    decreases n,
{
    if n == 0 {
        vstd::arithmetic::power::lemma_pow0(256);
        assert(v % 1 == 0) by (nonlinear_arith);
    } else {
        let b = v % 256;
        let rest = le_hex(v / 256, (n - 1) as nat);
        let s = le_hex(v, n) + t;
        assert(s =~= hex_byte(b) + (rest + t));
        crate::hex::lemma_hex_char_roundtrip((b / 16) as int);
        crate::hex::lemma_hex_char_roundtrip((b % 16) as int);
        assert(s[0] == hex_char((b / 16) as int));
        assert(s[1] == hex_char((b % 16) as int));
        assert(s.skip(2) =~= rest + t);
        lemma_le_hex_decodes(v / 256, (n - 1) as nat, t);
        let p = pow(256, (n - 1) as nat);
        vstd::arithmetic::power::lemma_pow_positive(256, (n - 1) as nat);
        vstd::arithmetic::power::lemma_pow_adds(256, 1, (n - 1) as nat);
        vstd::arithmetic::power::lemma_pow1(256);
        assert(pow(256, n) == 256 * p) by {
            assert(1 + (n - 1) as nat == n);
        }
        vstd::arithmetic::div_mod::lemma_breakdown(v as int, 256, p);
        assert((b / 16) * 16 + b % 16 == b) by (nonlinear_arith);
    }
}

/// A value decodes wherever the first `2n` characters are hex digits.
proof fn lemma_le_hex_value_some(s: Seq<u8>, n: nat)
    requires
        s.len() >= 2 * n,
        forall|i: int| 0 <= i < 2 * n ==> is_hex_digit(#[trigger] s[i]),
    ensures
        le_hex_value(s, n) is Some,
    decreases n,
{
    if n > 0 {
        assert(is_hex_digit(s[0]) && is_hex_digit(s[1]));
        assert forall|i: int| 0 <= i < 2 * (n - 1) implies is_hex_digit(#[trigger] s.skip(2)[i]) by {
            assert(s.skip(2)[i] == s[i + 2]);
        }
        lemma_le_hex_value_some(s.skip(2), (n - 1) as nat);
    }
}

/// The register image from register `j` on starts with that register.
proof fn lemma_g_regs_image_at(tf: TrapFrame, k: nat, j: int)
    requires
        0 <= j < k,
    ensures
        g_regs_image(tf, k).skip(16 * j) =~= le_hex(g_reg(tf, j) as nat, 8) + g_regs_image(tf, k).skip(
            16 * j + 16,
        ),
    decreases k,
{
    lemma_g_regs_image_len(tf, k);
    lemma_g_regs_image_len(tf, (k - 1) as nat);
    lemma_le_hex_len(g_reg(tf, k - 1) as nat, 8);
    let a = g_regs_image(tf, (k - 1) as nat);
    let b = le_hex(g_reg(tf, k - 1) as nat, 8);
    if j == k - 1 {
        assert((a + b).skip(16 * j) =~= b);
    } else {
        lemma_g_regs_image_at(tf, (k - 1) as nat, j);
        assert((a + b).skip(16 * j) =~= a.skip(16 * j) + b);
        assert((a + b).skip(16 * j + 16) =~= a.skip(16 * j + 16) + b);
    }
}

/// Register packets round-trip the general registers: a `G` payload that
/// begins with the register image a `g` reply reports for `tf` (RAX..R15
/// and RIP) and goes on in hex digits to the packet length is accepted
/// whole, and each of its first 17 fields decodes to the register of `tf`
/// it was written from, so `read_g` sets those registers to `tf`'s.
pub proof fn lemma_g_regs_roundtrip(tf: TrapFrame, rest: Seq<u8>)
    requires
        rest.len() == G_HEX_LEN - 16 * G_REGS,
        forall|i: int| 0 <= i < rest.len() ==> is_hex_digit(#[trigger] rest[i]),
    ensures
        ({
            let p = g_regs_image(tf, 17) + rest;
            &&& p.len() == G_HEX_LEN
            &&& g_fields_valid(p, 27)
            &&& forall|j: int| 0 <= j < 17 ==> #[trigger] g_field(p, j) == Some(g_reg(tf, j) as nat)
        }),
{
    let img = g_regs_image(tf, 17);
    let p = img + rest;
    lemma_g_regs_image_len(tf, 17);
    assert forall|j: int| 0 <= j < 17 implies #[trigger] g_field(p, j) == Some(g_reg(tf, j) as nat) by {
        lemma_g_regs_image_at(tf, 17, j);
        lemma_le_hex_len(g_reg(tf, j) as nat, 8);
        assert(p.skip(16 * j) =~= img.skip(16 * j) + rest);
        assert(p.skip(16 * j) =~= le_hex(g_reg(tf, j) as nat, 8) + (img.skip(16 * j + 16) + rest));
        lemma_le_hex_decodes(g_reg(tf, j) as nat, 8, img.skip(16 * j + 16) + rest);
        lemma_pow256_le8(8);
        reveal_with_fuel(pow, 9);
        assert(pow(256, 8) == 0x1_0000_0000_0000_0000);
        assert(g_reg(tf, j) < 0x1_0000_0000_0000_0000);
    }
    assert forall|j: int| 0 <= j < 27 implies #[trigger] g_field(p, j) is Some by {
        if j >= 17 {
            let off = g_field_offset(j);
            let n = g_field_bytes(j);
            assert(off + 2 * n <= 376);
            assert forall|i: int| 0 <= i < 2 * n implies is_hex_digit(#[trigger] p.skip(off)[i]) by {
                assert(p.skip(off)[i] == rest[off + i - 272]);
            }
            lemma_le_hex_value_some(p.skip(off), n);
        }
    }
}

/// Every character `le_hex` writes is a hex digit.
proof fn lemma_le_hex_digits(v: nat, n: nat)
    ensures
        forall|i: int| 0 <= i < le_hex(v, n).len() ==> is_hex_digit(#[trigger] le_hex(v, n)[i]),
    decreases n,
{
    if n > 0 {
        lemma_le_hex_digits(v / 256, (n - 1) as nat);
        let b = v % 256;
        crate::hex::lemma_hex_char_roundtrip((b / 16) as int);
        crate::hex::lemma_hex_char_roundtrip((b % 16) as int);
        let h = hex_byte(b);
        let r = le_hex(v / 256, (n - 1) as nat);
        assert forall|i: int| 0 <= i < le_hex(v, n).len() implies is_hex_digit(#[trigger] le_hex(v, n)[i]) by {
            if i >= 2 {
                assert(le_hex(v, n)[i] == r[i - 2]);
            }
        }
    }
}

/// A `G` packet carrying exactly what a `g` reply reports for `tf` writes
/// back every general register, RIP and the low half of RFLAGS: the image
/// is accepted whole and each of those fields decodes to `tf`'s value.
pub proof fn lemma_g_image_roundtrip(tf: TrapFrame)
    ensures
        g_image(tf).len() == G_HEX_LEN,
        g_fields_valid(g_image(tf), 27),
        forall|j: int| 0 <= j < 17 ==> #[trigger] g_field(g_image(tf), j) == Some(g_reg(tf, j) as nat),
        g_field(g_image(tf), 18) == Some((tf.rflags % 0x1_0000_0000) as nat),
{
    let f = (tf.rflags % 0x1_0000_0000) as nat;
    let c = (tf.cs % 0x1_0000_0000) as nat;
    let sv = (tf.ss % 0x1_0000_0000) as nat;
    let tail = le_hex(f, 4) + le_hex(c, 4) + le_hex(sv, 4) + zero_chars(260);
    let rest = zero_chars(16) + tail;
    lemma_g_regs_image_len(tf, 17);
    lemma_le_hex_len(f, 4);
    lemma_le_hex_len(c, 4);
    lemma_le_hex_len(sv, 4);
    lemma_le_hex_digits(f, 4);
    lemma_le_hex_digits(c, 4);
    lemma_le_hex_digits(sv, 4);
    assert(g_image(tf) =~= g_regs_image(tf, 17) + rest);
    assert forall|i: int| 0 <= i < rest.len() implies is_hex_digit(#[trigger] rest[i]) by {
        if i < 16 {
        } else if i < 24 {
            assert(rest[i] == le_hex(f, 4)[i - 16]);
        } else if i < 32 {
            assert(rest[i] == le_hex(c, 4)[i - 24]);
        } else if i < 40 {
            assert(rest[i] == le_hex(sv, 4)[i - 32]);
        }
    }
    lemma_g_regs_roundtrip(tf, rest);
    let p = g_image(tf);
    assert(p.skip(288) =~= le_hex(f, 4) + (le_hex(c, 4) + le_hex(sv, 4) + zero_chars(260)));
    lemma_le_hex_decodes(f, 4, le_hex(c, 4) + le_hex(sv, 4) + zero_chars(260));
    vstd::arithmetic::power::lemma_pow_positive(256, 4);
    reveal_with_fuel(pow, 5);
    assert(pow(256, 4) == 0x1_0000_0000);
    assert(f < 0x1_0000_0000);
    assert((f as int) % 0x1_0000_0000 == f);
    assert(g_field_offset(18) == 288 && g_field_bytes(18) == 4);
    assert(g_field(p, 18) == le_hex_value(p.skip(288), 4));
}

} // verus!
