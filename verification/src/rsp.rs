//! The command side of the GDB stub: parsing request payloads and deciding
//! the reply. The transport loop (reading bytes, sending frames, waiting for
//! acknowledgements, touching target memory) stays with the caller, which
//! carries out each `Step` that `RspServer::handle` returns.
use vstd::prelude::*;
use vstd::string::*;
use crate::hex::{from_hex, hex_digit_value, is_hex_digit, hex_value, digit_of};
use crate::regs::{TrapFrame, clear_tf, set_tf, read_g, write_g, g_image, g_reg, g_fields_valid, g_field,
    G_HEX_LEN, hex_byte};
use crate::breakpoint::{BreakpointTable, InsertPlan, chosen_slot, first_with, may_commit, MAX_BP};
use crate::packet::stop_reply_payload;
use crate::packet::stop_reply;

verus! {

pub const OUTBUF_LEN: usize = 0x2000;

pub const TMP_LEN: usize = 0x200;

/// Half of the window around the trapped RSP that may always be read.
pub const STACK_WINDOW: usize = 128 * 1024;

/// What the debugger asked the trapped task to do next.
#[derive(Clone, Copy, Debug, PartialEq, Eq)]
pub enum Outcome {
    Continue,
    SingleStep,
    KillTask,
}

/// Which target memory the stub may read and write.
pub trait Memory {
    spec fn readable(&self, addr: usize, len: usize) -> bool;

    spec fn writable(&self, addr: usize, len: usize) -> bool;

    fn can_read(&self, addr: usize, len: usize) -> (r: bool)
        ensures
            r == self.readable(addr, len),
    ;

    fn can_write(&self, addr: usize, len: usize) -> (r: bool)
        ensures
            r == self.writable(addr, len),
    ;
}

/// `[addr, addr + len)` lies within `[s, e)` without overflowing.
pub open spec fn range_within(addr: usize, len: usize, s: usize, e: usize) -> bool {
    addr >= s && addr + len <= usize::MAX && addr + len <= e
}

pub fn in_range(addr: usize, len: usize, s: usize, e: usize) -> (r: bool)
    ensures
        r == range_within(addr, len, s, e),
{
    addr >= s && match addr.checked_add(len) {
        Some(a) => a <= e,
        None => false,
    }
}

pub fn in_any_range(addr: usize, len: usize, ranges: &[(usize, usize)]) -> (r: bool)
    ensures
        r == exists|i: int| 0 <= i < ranges@.len() && range_within(addr, len, ranges@[i].0, ranges@[i].1),
{
    let mut i: usize = 0;
    while i < ranges.len()
        invariant
            i <= ranges@.len(),
            forall|j: int| 0 <= j < i ==> !range_within(addr, len, #[trigger] ranges@[j].0, ranges@[j].1),
        decreases ranges@.len() - i,
    {
        let (s, e) = ranges[i];
        if in_range(addr, len, s, e) {
            return true;
        }
        i = i + 1;
    }
    false
}

/// The kernel's sections and heap: text, read-only data, data, bss and heap
/// may be read; data, bss and heap may be written.
#[derive(Clone, Copy, Debug)]
pub struct SectionMemory {
    pub text: (usize, usize),
    pub rodata: (usize, usize),
    pub data: (usize, usize),
    pub bss: (usize, usize),
    pub heap: (usize, usize),
}

impl Memory for SectionMemory {
    open spec fn readable(&self, addr: usize, len: usize) -> bool {
        range_within(addr, len, self.text.0, self.text.1) || range_within(addr, len, self.rodata.0, self.rodata.1)
            || range_within(addr, len, self.data.0, self.data.1) || range_within(addr, len, self.bss.0, self.bss.1)
            || range_within(addr, len, self.heap.0, self.heap.1)
    }

    open spec fn writable(&self, addr: usize, len: usize) -> bool {
        range_within(addr, len, self.data.0, self.data.1) || range_within(addr, len, self.bss.0, self.bss.1)
            || range_within(addr, len, self.heap.0, self.heap.1)
    }

    fn can_read(&self, addr: usize, len: usize) -> (r: bool) {
        let ranges = [self.text, self.rodata, self.data, self.bss, self.heap];
        let r = in_any_range(addr, len, &ranges);
        proof {
            if self.readable(addr, len) {
                if range_within(addr, len, self.text.0, self.text.1) {
                    assert(ranges@[0] == self.text);
                } else if range_within(addr, len, self.rodata.0, self.rodata.1) {
                    assert(ranges@[1] == self.rodata);
                } else if range_within(addr, len, self.data.0, self.data.1) {
                    assert(ranges@[2] == self.data);
                } else if range_within(addr, len, self.bss.0, self.bss.1) {
                    assert(ranges@[3] == self.bss);
                } else {
                    assert(ranges@[4] == self.heap);
                }
            }
        }
        r
    }

    fn can_write(&self, addr: usize, len: usize) -> (r: bool) {
        let ranges = [self.data, self.bss, self.heap];
        let r = in_any_range(addr, len, &ranges);
        proof {
            if self.writable(addr, len) {
                if range_within(addr, len, self.data.0, self.data.1) {
                    assert(ranges@[0] == self.data);
                } else if range_within(addr, len, self.bss.0, self.bss.1) {
                    assert(ranges@[1] == self.bss);
                } else {
                    assert(ranges@[2] == self.heap);
                }
            }
        }
        r
    }
}

/// Number of hex digits in `p` from `off` on before the first other byte.
pub open spec fn hex_run(p: Seq<u8>, off: int) -> nat
    decreases p.len() - off,
{
    if off < 0 || off >= p.len() || !is_hex_digit(p[off]) {
        0
    } else {
        1 + hex_run(p, off + 1)
    }
}

/// A hex number at `off`: its value modulo 2^64 and its length, or `None`
/// when no digit stands there.
pub open spec fn parse_hex_at(p: Seq<u8>, off: int) -> Option<(usize, usize)> {
    let k = hex_run(p, off);
    if k == 0 {
        None
    } else {
        Some(((hex_value(p.subrange(off, off + k)) % 0x1_0000_0000_0000_0000) as u64 as usize, k as usize))
    }
}

proof fn lemma_hex_run_bound(p: Seq<u8>, off: int)
    requires
        0 <= off,
    ensures
        off + hex_run(p, off) <= p.len() || hex_run(p, off) == 0,
        forall|j: int| off <= j < off + hex_run(p, off) ==> is_hex_digit(#[trigger] p[j]),
    decreases p.len() - off,
{
    if 0 <= off < p.len() && is_hex_digit(p[off]) {
        lemma_hex_run_bound(p, off + 1);
    }
}

/// Reads a hex number from `buf[off..total]`.
pub fn parse_hex_usize(buf: &[u8], off: usize, total: usize) -> (r: Option<(usize, usize)>)
    requires
        total <= buf@.len(),
    ensures
        r == parse_hex_at(buf@.subrange(0, total as int), off as int),
{
    let ghost p = buf@.subrange(0, total as int);
    let mut n: u64 = 0;
    let mut i: usize = 0;
    loop
        invariant
            total <= buf@.len(),
            p == buf@.subrange(0, total as int),
            off <= total ==> i <= total - off,
            off > total ==> i == 0,
            forall|j: int| off <= j < off + i ==> is_hex_digit(#[trigger] p[j]),
            off <= total ==> n as int == hex_value(p.subrange(off as int, off + i)) % 0x1_0000_0000_0000_0000,
        ensures
            off <= total ==> hex_run(p, off as int) == i,
            off > total ==> i == 0 && hex_run(p, off as int) == 0,
            off <= total ==> n as int == hex_value(p.subrange(off as int, off + i)) % 0x1_0000_0000_0000_0000,
        decreases total - off - i,
    {
        if !(off < total && i < total - off) {
            proof {
                if off <= total {
                    lemma_hex_run_from(p, off as int, i as int);
                }
            }
            break;
        }
        let b = buf[off + i];
        match from_hex(b) {
            Some(v) => {
                proof {
                    let prev = p.subrange(off as int, off + i);
                    let next = p.subrange(off as int, off + i + 1);
                    assert(next.drop_last() =~= prev);
                    assert(next.last() == b);
                    assert(hex_value(next) == hex_value(prev) * 16 + v);
                    assert((n << 4u64) | (v as u64) == ((n as int * 16 + v) % 0x1_0000_0000_0000_0000) as u64)
                        by (bit_vector)
                        requires
                            v < 16,
                    ;
                    vstd::arithmetic::div_mod::lemma_mul_mod_noop_left(hex_value(prev) as int, 16, 0x1_0000_0000_0000_0000);
                    vstd::arithmetic::div_mod::lemma_add_mod_noop(hex_value(prev) as int * 16, v as int, 0x1_0000_0000_0000_0000);
                    vstd::arithmetic::div_mod::lemma_add_mod_noop((n as int) * 16, v as int, 0x1_0000_0000_0000_0000);
                    vstd::arithmetic::div_mod::lemma_small_mod(v as nat, 0x1_0000_0000_0000_0000);
                    vstd::arithmetic::div_mod::lemma_mod_twice(hex_value(prev) as int * 16, 0x1_0000_0000_0000_0000);
                }
                n = (n << 4) | (v as u64);
                i = i + 1;
            },
            None => {
                proof {
                    lemma_hex_run_from(p, off as int, i as int);
                }
                break;
            },
        }
    }
    if i == 0 {
        None
    } else {
        Some((n as usize, i))
    }
}

/// A run of `i` digits at `off` followed by a non-digit or the end has length `i`.
proof fn lemma_hex_run_from(p: Seq<u8>, off: int, i: int)
    requires
        0 <= off,
        0 <= i,
        off + i <= p.len(),
        forall|j: int| off <= j < off + i ==> is_hex_digit(#[trigger] p[j]),
        off + i == p.len() || !is_hex_digit(p[off + i]),
    ensures
        hex_run(p, off) == i,
    decreases i,
{
    if i > 0 {
        lemma_hex_run_from(p, off + 1, i - 1);
    }
}

/// An `addr,len` pair at `off`: both numbers and the bytes they take.
pub open spec fn parse_addr_len_at(p: Seq<u8>, off: int) -> Option<(usize, usize, usize)> {
    match parse_hex_at(p, off) {
        None => None,
        Some((addr, ua)) => {
            if off + ua >= p.len() || p[off + ua] != 44u8 {
                None
            } else {
                match parse_hex_at(p, off + ua + 1) {
                    None => None,
                    Some((len, ul)) => Some((addr, len, (ua + 1 + ul) as usize)),
                }
            }
        },
    }
}

proof fn lemma_parse_hex_at_bound(p: Seq<u8>, off: int)
    requires
        0 <= off,
        p.len() <= usize::MAX,
    ensures
        parse_hex_at(p, off) is Some ==> off + parse_hex_at(p, off)->Some_0.1 <= p.len() && parse_hex_at(p, off)->Some_0.1 >= 1,
{
    lemma_hex_run_bound(p, off);
}

proof fn lemma_parse_addr_len_bound(p: Seq<u8>, off: int)
    requires
        0 <= off,
        p.len() <= usize::MAX,
    ensures
        parse_addr_len_at(p, off) is Some ==> off + parse_addr_len_at(p, off)->Some_0.2 <= p.len(),
{
    lemma_parse_hex_at_bound(p, off);
    if let Some((addr, ua)) = parse_hex_at(p, off) {
        lemma_parse_hex_at_bound(p, off + ua + 1);
    }
}

pub fn parse_addr_len(buf: &[u8], off: usize, total: usize) -> (r: Option<(usize, usize, usize)>)
    requires
        total <= buf@.len(),
        off <= total,
    ensures
        r == parse_addr_len_at(buf@.subrange(0, total as int), off as int),
{
    let ghost p = buf@.subrange(0, total as int);
    proof {
        lemma_parse_hex_at_bound(p, off as int);
    }
    let (addr, ua) = match parse_hex_usize(buf, off, total) {
        Some(x) => x,
        None => return None,
    };
    if off + ua >= total || buf[off + ua] != 44u8 {
        return None;
    }
    proof {
        lemma_parse_hex_at_bound(p, off + ua + 1);
    }
    let (len, ul) = match parse_hex_usize(buf, off + ua + 1, total) {
        Some(x) => x,
        None => return None,
    };
    Some((addr, len, ua + 1 + ul))
}

/// `pat` stands in `p` at `off`.
pub open spec fn starts_at(p: Seq<u8>, off: int, pat: Seq<u8>) -> bool {
    0 <= off && off + pat.len() <= p.len() && p.subrange(off, off + pat.len()) == pat
        || (off > p.len() && pat.len() == 0)
}

pub fn starts_with(buf: &[u8], off: usize, total: usize, pat: &[u8]) -> (r: bool)
    requires
        total <= buf@.len(),
    ensures
        r == starts_at(buf@.subrange(0, total as int), off as int, pat@),
{
    let ghost p = buf@.subrange(0, total as int);
    let room = total.saturating_sub(off);
    if pat.len() > room {
        return false;
    }
    if off > total {
        return true;
    }
    let mut i: usize = 0;
    while i < pat.len()
        invariant
            i <= pat@.len(),
            off + pat@.len() <= total,
            total <= buf@.len(),
            p == buf@.subrange(0, total as int),
            forall|j: int| 0 <= j < i ==> buf@[off + j] == pat@[j],
        decreases pat@.len() - i,
    {
        if buf[off + i] != pat[i] {
            proof {
                assert(p.subrange(off as int, off + pat@.len())[i as int] != pat@[i as int]);
            }
            return false;
        }
        i = i + 1;
    }
    assert(p.subrange(off as int, off + pat@.len()) =~= pat@);
    true
}

/// The bytes of a string literal.
pub fn lit(s: &str) -> (v: Vec<u8>)
    ensures
        v@ == s.spec_bytes(),
{
    vstd::slice::slice_to_vec(s.as_bytes())
}

/// What the transport loop does with one request.
#[allow(inconsistent_fields)]
#[derive(Debug)]
pub enum Step {
    /// Send this payload as one packet and wait for the next request.
    Reply(Vec<u8>),
    /// Send the packets in `before`, write `data` at `addr`, then send `reply`.
    Write { addr: usize, data: Vec<u8>, before: Vec<Vec<u8>>, reply: Vec<u8> },
    /// Read `len` bytes at `addr` and pass them to `RspServer::finish_read`.
    ReadMemory { addr: usize, len: usize },
    /// Plant a breakpoint at `addr` and pass the result to `RspServer::finish_plant`.
    Plant { slot: usize, addr: u64 },
    /// Write back `restore` if any, then leave the session with `outcome`.
    Resume { restore: Option<(u64, u8)>, outcome: Outcome },
}

pub open spec fn is_reply(r: &Step, bytes: Seq<u8>) -> bool {
    r matches Step::Reply(v) && v@ == bytes
}

/// `new` laid over the head of `old`, keeping `old`'s length.
pub open spec fn overlay(old: Seq<u8>, new: Seq<u8>) -> Seq<u8> {
    Seq::new(old.len(), |i: int| if i < new.len() { new[i] } else { old[i] })
}

/// Two hex characters for every byte of `s`.
pub open spec fn hex_bytes(s: Seq<u8>) -> Seq<u8>
    decreases s.len(),
{
    if s.len() == 0 {
        Seq::empty()
    } else {
        hex_bytes(s.drop_last()) + hex_byte(s.last() as nat)
    }
}

/// The byte encoded by the hex pair `i` at `off`, if both are digits.
pub open spec fn hex_pair(p: Seq<u8>, off: int, i: int) -> Option<u8> {
    if is_hex_digit(p[off + 2 * i]) && is_hex_digit(p[off + 2 * i + 1]) {
        Some((digit_of(p[off + 2 * i]) * 16 + digit_of(p[off + 2 * i + 1])) as u8)
    } else {
        None
    }
}

/// The scratch buffer after decoding `n` pairs: each good pair stored, a bad
/// pair leaving the old byte.
pub open spec fn decode_into(tmp: Seq<u8>, p: Seq<u8>, off: int, n: int) -> Seq<u8> {
    Seq::new(tmp.len(), |i: int| if i < n && hex_pair(p, off, i) is Some { hex_pair(p, off, i)->Some_0 } else { tmp[i] })
}

/// Number of bad pairs among the first `n`.
pub open spec fn bad_pairs(p: Seq<u8>, off: int, n: int) -> nat
    decreases n,
{
    if n <= 0 {
        0
    } else {
        bad_pairs(p, off, n - 1) + if hex_pair(p, off, n - 1) is None { 1nat } else { 0nat }
    }
}

/// The reply payloads of the stub.
pub open spec fn packet_size_reply() -> Seq<u8> {
    "PacketSize=2000;QStartNoAckMode+".spec_bytes()
}

/// The requests that resume the target with `continue`.
pub open spec fn is_continue(p: Seq<u8>) -> bool {
    p.len() > 0 && (p[0] == 99u8 || (p[0] == 118u8 && !starts_at(p, 0, "vCont?".spec_bytes()) && starts_at(
        p,
        0,
        "vCont;c".spec_bytes(),
    )))
}

/// The requests that resume the target with a single step.
pub open spec fn is_step(p: Seq<u8>) -> bool {
    p.len() > 0 && (p[0] == 115u8 || (p[0] == 118u8 && !starts_at(p, 0, "vCont?".spec_bytes()) && !starts_at(
        p,
        0,
        "vCont;c".spec_bytes(),
    ) && starts_at(p, 0, "vCont;s".spec_bytes())))
}

pub open spec fn is_z_insert(p: Seq<u8>) -> bool {
    p.len() > 0 && p[0] == 90u8 && starts_at(p, 0, "Z0,".spec_bytes())
}

pub open spec fn is_z_remove(p: Seq<u8>) -> bool {
    p.len() > 0 && p[0] == 122u8 && starts_at(p, 0, "z0,".spec_bytes())
}

/// The reply to a `q` query.
pub open spec fn query_reply(p: Seq<u8>) -> Seq<u8> {
    if starts_at(p, 0, "qSupported".spec_bytes()) {
        packet_size_reply()
    } else if starts_at(p, 0, "qAttached".spec_bytes()) {
        "1".spec_bytes()
    } else if starts_at(p, 0, "qfThreadInfo".spec_bytes()) {
        "m1".spec_bytes()
    } else if starts_at(p, 0, "qsThreadInfo".spec_bytes()) {
        "l".spec_bytes()
    } else if starts_at(p, 0, "qC".spec_bytes()) {
        "QC1".spec_bytes()
    } else if starts_at(p, 0, "qTStatus".spec_bytes()) {
        Seq::empty()
    } else if starts_at(p, 0, "vCont?".spec_bytes()) {
        "vCont;c;s".spec_bytes()
    } else {
        Seq::empty()
    }
}

/// The thread list has one thread: to `qfThreadInfo`, whatever follows
/// it, the answer is `m1` (thread 1), and to `qsThreadInfo`, which asks for
/// more, the answer is `l`, the end of the list; so a debugger that asks in
/// turn is told of thread 1 once and then that the list is over. Thread 1
/// is also the current thread (`qC` gives `QC1`), the debugger is attached
/// to an existing process (`qAttached` gives `1`), and `?` reports a stop
/// by SIGTRAP (`S05`).
pub proof fn lemma_thread_list(p: Seq<u8>, tf: TrapFrame, outbuf: Seq<u8>)
    ensures
        starts_at(p, 0, "qfThreadInfo".spec_bytes()) ==> simple_reply(p, tf, outbuf) == Some(seq![109u8, 49u8]),
        starts_at(p, 0, "qsThreadInfo".spec_bytes()) ==> simple_reply(p, tf, outbuf) == Some(seq![108u8]),
        starts_at(p, 0, "qAttached".spec_bytes()) ==> simple_reply(p, tf, outbuf) == Some(seq![49u8]),
        starts_at(p, 0, "qC".spec_bytes()) ==> simple_reply(p, tf, outbuf) == Some(seq![81u8, 67u8, 49u8]),
        p.len() > 0 && p[0] == 63u8 ==> simple_reply(p, tf, outbuf) == Some(seq![83u8, 48u8, 53u8]),
{
    reveal_strlit("qSupported");
    reveal_strlit("qAttached");
    reveal_strlit("qfThreadInfo");
    reveal_strlit("qsThreadInfo");
    reveal_strlit("m1");
    reveal_strlit("l");
    vstd::string::is_ascii_spec_bytes("qSupported");
    vstd::string::is_ascii_spec_bytes("qAttached");
    vstd::string::is_ascii_spec_bytes("qfThreadInfo");
    vstd::string::is_ascii_spec_bytes("qsThreadInfo");
    vstd::string::is_ascii_spec_bytes("m1");
    vstd::string::is_ascii_spec_bytes("l");
    reveal_strlit("qC");
    reveal_strlit("1");
    reveal_strlit("QC1");
    reveal_strlit("S05");
    vstd::string::is_ascii_spec_bytes("qC");
    vstd::string::is_ascii_spec_bytes("1");
    vstd::string::is_ascii_spec_bytes("QC1");
    vstd::string::is_ascii_spec_bytes("S05");
    assert("S05".spec_bytes() =~= seq![83u8, 48u8, 53u8]);
    if starts_at(p, 0, "qAttached".spec_bytes()) {
        assert(p[0] == "qAttached".spec_bytes()[0]);
        assert(p[1] == "qAttached".spec_bytes()[1]);
        assert(!starts_at(p, 0, "qSupported".spec_bytes())) by {
            if starts_at(p, 0, "qSupported".spec_bytes()) {
                assert(p[1] == "qSupported".spec_bytes()[1]);
            }
        }
        assert("1".spec_bytes() =~= seq![49u8]);
    }
    if starts_at(p, 0, "qC".spec_bytes()) {
        assert(p[0] == "qC".spec_bytes()[0]);
        assert(p[1] == "qC".spec_bytes()[1]);
        assert(!starts_at(p, 0, "qSupported".spec_bytes())) by {
            if starts_at(p, 0, "qSupported".spec_bytes()) {
                assert(p[1] == "qSupported".spec_bytes()[1]);
            }
        }
        assert(!starts_at(p, 0, "qAttached".spec_bytes())) by {
            if starts_at(p, 0, "qAttached".spec_bytes()) {
                assert(p[1] == "qAttached".spec_bytes()[1]);
            }
        }
        assert(!starts_at(p, 0, "qfThreadInfo".spec_bytes())) by {
            reveal_strlit("qfThreadInfo");
            vstd::string::is_ascii_spec_bytes("qfThreadInfo");
            if starts_at(p, 0, "qfThreadInfo".spec_bytes()) {
                assert(p[1] == "qfThreadInfo".spec_bytes()[1]);
            }
        }
        assert(!starts_at(p, 0, "qsThreadInfo".spec_bytes())) by {
            reveal_strlit("qsThreadInfo");
            vstd::string::is_ascii_spec_bytes("qsThreadInfo");
            if starts_at(p, 0, "qsThreadInfo".spec_bytes()) {
                assert(p[1] == "qsThreadInfo".spec_bytes()[1]);
            }
        }
        assert("QC1".spec_bytes() =~= seq![81u8, 67u8, 49u8]);
    }
    if starts_at(p, 0, "qfThreadInfo".spec_bytes()) {
        assert(p[0] == "qfThreadInfo".spec_bytes()[0]);
        assert(p[1] == "qfThreadInfo".spec_bytes()[1]);
        assert(!starts_at(p, 0, "qSupported".spec_bytes())) by {
            if starts_at(p, 0, "qSupported".spec_bytes()) {
                assert(p[1] == "qSupported".spec_bytes()[1]);
            }
        }
        assert(!starts_at(p, 0, "qAttached".spec_bytes())) by {
            if starts_at(p, 0, "qAttached".spec_bytes()) {
                assert(p[1] == "qAttached".spec_bytes()[1]);
            }
        }
        assert("m1".spec_bytes() =~= seq![109u8, 49u8]);
    }
    if starts_at(p, 0, "qsThreadInfo".spec_bytes()) {
        assert(p[0] == "qsThreadInfo".spec_bytes()[0]);
        assert(p[1] == "qsThreadInfo".spec_bytes()[1]);
        assert(!starts_at(p, 0, "qSupported".spec_bytes())) by {
            if starts_at(p, 0, "qSupported".spec_bytes()) {
                assert(p[1] == "qSupported".spec_bytes()[1]);
            }
        }
        assert(!starts_at(p, 0, "qAttached".spec_bytes())) by {
            if starts_at(p, 0, "qAttached".spec_bytes()) {
                assert(p[1] == "qAttached".spec_bytes()[1]);
            }
        }
        assert(!starts_at(p, 0, "qfThreadInfo".spec_bytes())) by {
            if starts_at(p, 0, "qfThreadInfo".spec_bytes()) {
                assert(p[1] == "qfThreadInfo".spec_bytes()[1]);
            }
        }
    }
}

/// The reply to a request that needs neither memory, the breakpoint table
/// nor a resume; `None` for the requests that do.
pub open spec fn simple_reply(p: Seq<u8>, tf: TrapFrame, outbuf: Seq<u8>) -> Option<Seq<u8>> {
    if p.len() == 0 {
        Some(Seq::empty())
    } else {
        let b0 = p[0];
        if b0 == 63u8 {
            Some("S05".spec_bytes())
        } else if b0 == 72u8 {
            Some("OK".spec_bytes())
        } else if b0 == 113u8 {
            Some(query_reply(p))
        } else if b0 == 81u8 {
            Some(if starts_at(p, 0, "QStartNoAckMode".spec_bytes()) { "OK".spec_bytes() } else { Seq::empty() })
        } else if b0 == 103u8 {
            Some(overlay(outbuf, g_image(tf)).subrange(0, G_HEX_LEN as int))
        } else if b0 == 71u8 {
            Some(if p.len() - 1 == G_HEX_LEN && g_fields_valid(p.skip(1), 27) { "OK".spec_bytes() } else { "E00".spec_bytes() })
        } else if b0 == 90u8 || b0 == 122u8 {
            if starts_at(p, 0, if b0 == 90u8 { "Z0,".spec_bytes() } else { "z0,".spec_bytes() }) {
                if parse_hex_at(p, 3) is None { Some("E00".spec_bytes()) } else { None }
            } else {
                Some(Seq::empty())
            }
        } else if b0 == 118u8 {
            if starts_at(p, 0, "vCont?".spec_bytes()) {
                Some("vCont;c;s".spec_bytes())
            } else if starts_at(p, 0, "vCont;c".spec_bytes()) || starts_at(p, 0, "vCont;s".spec_bytes()) {
                None
            } else {
                Some(Seq::empty())
            }
        } else if b0 == 99u8 || b0 == 115u8 || b0 == 107u8 || b0 == 109u8 || b0 == 77u8 {
            None
        } else if b0 == 3u8 {
            Some("S02".spec_bytes())
        } else {
            Some(Seq::empty())
        }
    }
}

/// The state that the stub keeps between requests.
pub struct RspServer {
    no_ack: bool,
    ever_resumed: bool,
    bkpt: Option<(u64, u8)>,
    outbuf: Vec<u8>,
    tmp: Vec<u8>,
}

impl RspServer {
    /// Set by `QStartNoAckMode`: packets are neither acknowledged nor awaited.
    pub closed spec fn no_ack_on(&self) -> bool {
        self.no_ack
    }

    /// Set once the target was resumed; a later entry reports a stop reply first.
    pub closed spec fn resumed(&self) -> bool {
        self.ever_resumed
    }

    /// A byte to write back when the target continues.
    pub closed spec fn pending(&self) -> Option<(u64, u8)> {
        self.bkpt
    }

    /// Whether replies are sent without waiting for `+`.
    pub fn no_ack(&self) -> (r: bool)
        ensures
            r == self.no_ack_on(),
    {
        self.no_ack
    }

    pub closed spec fn outbuf(&self) -> Seq<u8> {
        self.outbuf@
    }

    pub closed spec fn tmp(&self) -> Seq<u8> {
        self.tmp@
    }

    pub open spec fn wf(&self) -> bool {
        &&& self.outbuf().len() == OUTBUF_LEN
        &&& self.tmp().len() == TMP_LEN
        &&& self.pending() matches Some((a, _)) ==> a < u64::MAX
    }

    /// A fresh session: acknowledgements on, never resumed, buffers zeroed.
    pub fn new() -> (s: RspServer)
        ensures
            s.wf(),
            !s.no_ack_on(),
            !s.resumed(),
            s.pending() is None,
            s.outbuf() == Seq::new(OUTBUF_LEN as nat, |i: int| 0u8),
            s.tmp() == Seq::new(TMP_LEN as nat, |i: int| 0u8),
    {
        RspServer { no_ack: false, ever_resumed: false, bkpt: None, outbuf: zeros(OUTBUF_LEN), tmp: zeros(TMP_LEN) }
    }

    /// The stop reply (SIGTRAP, thread 1, the trapped RIP) that opens a
    /// session entered after an earlier resume.
    pub fn begin(&self, tf: &TrapFrame) -> (r: Option<Vec<u8>>)
        ensures
            match r {
                Some(v) => self.resumed() && v@ == stop_reply(5, 1, tf.rip),
                None => !self.resumed(),
            },
    {
        if self.ever_resumed {
            Some(stop_reply_payload(0x05, 1, tf.rip))
        } else {
            None
        }
    }

    /// Decides the answer to the request `buf[..len]`.
    pub fn handle<M: Memory>(
        &mut self,
        table: &mut BreakpointTable,
        buf: &[u8],
        len: usize,
        tf: &mut TrapFrame,
        m: &M,
    ) -> (r: Step)
        requires
            old(self).wf(),
            old(table).wf(),
            len <= buf@.len(),
        ensures
            final(self).wf(),
            final(table).wf(),
            r matches Step::Plant { slot, addr } ==> slot < MAX_BP && may_commit(final(table)@, slot as int, addr),
            ({
                let p = buf@.subrange(0, len as int);
                let old_tf = *old(tf);
                &&& simple_reply(p, old_tf, old(self).outbuf()) matches Some(bytes) ==> is_reply(&r, bytes)
                &&& final(self).no_ack_on() == (old(self).no_ack_on() || (len > 0 && p[0] == 81u8 && starts_at(
                    p,
                    0,
                    "QStartNoAckMode".spec_bytes(),
                )))
                &&& final(self).resumed() == (old(self).resumed() || is_continue(p) || is_step(p))
                &&& final(self).pending() == if is_continue(p) { None } else { old(self).pending() }
                &&& final(self).outbuf() == if len > 0 && p[0] == 103u8 {
                    overlay(old(self).outbuf(), g_image(old_tf))
                } else {
                    old(self).outbuf()
                }
                &&& (len > 0 && p[0] == 71u8 && p.len() - 1 == G_HEX_LEN) ==> {
                    &&& forall|j: int| 0 <= j < 17 ==> #[trigger] g_reg(*final(tf), j) == if g_fields_valid(p.skip(1), j + 1) {
                        g_field(p.skip(1), j)->Some_0 as u64
                    } else {
                        g_reg(old_tf, j)
                    }
                    &&& final(tf).rflags == if g_fields_valid(p.skip(1), 19) {
                        (old_tf.rflags & !0xFFFF_FFFFu64) | (g_field(p.skip(1), 18)->Some_0 as u64)
                    } else {
                        old_tf.rflags
                    }
                }
                &&& is_continue(p) ==> {
                    let cleared = old_tf.rflags & !0x100u64;
                    &&& r == (Step::Resume { restore: old(self).pending(), outcome: Outcome::Continue })
                    &&& *final(tf) == (TrapFrame {
                        rflags: cleared,
                        rip: match old(self).pending() {
                            Some((a, _)) => if old_tf.rip == a + 1 { a } else { old_tf.rip },
                            None => old_tf.rip,
                        },
                        ..old_tf
                    })
                }
                &&& is_step(p) ==> {
                    &&& r == (Step::Resume { restore: None, outcome: Outcome::SingleStep })
                    &&& *final(tf) == (TrapFrame { rflags: old_tf.rflags | 0x100u64, ..old_tf })
                }
                &&& (len > 0 && p[0] == 107u8) ==> r == (Step::Resume { restore: None, outcome: Outcome::KillTask })
                &&& !(is_continue(p) || is_step(p) || (len > 0 && p[0] == 71u8 && p.len() - 1 == G_HEX_LEN)) ==> *final(tf) == old_tf
                &&& (len > 0 && p[0] == 109u8) ==> match parse_addr_len_at(p, 1) {
                    None => is_reply(&r, "E00".spec_bytes()),
                    Some((addr, rlen, _)) => {
                        let allowed = (rlen != 0 && rlen <= OUTBUF_LEN / 2 && m.readable(addr, rlen)) || (addr
                            >= sat_sub(old_tf.rsp as usize, STACK_WINDOW) && sat_add(addr, rlen) <= sat_add(
                            old_tf.rsp as usize,
                            STACK_WINDOW,
                        ));
                        if allowed {
                            r == (Step::ReadMemory { addr, len: rlen })
                        } else {
                            is_reply(&r, "E01".spec_bytes())
                        }
                    },
                }
                &&& (len > 0 && p[0] == 77u8) ==> match parse_addr_len_at(p, 1) {
                    None => is_reply(&r, "E00".spec_bytes()) && final(self).tmp() == old(self).tmp(),
                    Some((addr, wlen, used)) => {
                        if 1 + used >= p.len() || p[1 + used] != 58u8 {
                            is_reply(&r, "E00".spec_bytes()) && final(self).tmp() == old(self).tmp()
                        } else if wlen == 0 || wlen > TMP_LEN || !m.writable(addr, wlen) {
                            is_reply(&r, "E01".spec_bytes()) && final(self).tmp() == old(self).tmp()
                        } else if p.len() - (2 + used) != 2 * wlen {
                            is_reply(&r, "E00".spec_bytes()) && final(self).tmp() == old(self).tmp()
                        } else {
                            let new_tmp = decode_into(old(self).tmp(), p, 2 + used, wlen as int);
                            &&& final(self).tmp() == new_tmp
                            &&& r matches Step::Write { addr: a, data, before, reply } && a == addr && data@
                                == new_tmp.subrange(0, wlen as int) && before@.len() == bad_pairs(p, 2 + used, wlen as int)
                                && (forall|k: int| 0 <= k < before@.len() ==> #[trigger] before@[k]@ == "E00".spec_bytes())
                                && reply@ == "OK".spec_bytes()
                        }
                    },
                }
                &&& !(len > 0 && p[0] == 77u8) ==> final(self).tmp() == old(self).tmp()
                &&& is_z_insert(p) ==> match parse_hex_at(p, 3) {
                    None => final(table)@ == old(table)@,
                    Some((addr, _)) => {
                        &&& final(table)@ == old(table)@
                        &&& match chosen_slot(old(table)@, addr as u64) {
                            None => is_reply(&r, "E01".spec_bytes()),
                            Some(i) => if old(table)@[i] matches Some(bp) && bp.armed {
                                is_reply(&r, "OK".spec_bytes())
                            } else {
                                r == (Step::Plant { slot: i as usize, addr: addr as u64 })
                            },
                        }
                    },
                }
                &&& is_z_remove(p) ==> match parse_hex_at(p, 3) {
                    None => final(table)@ == old(table)@,
                    Some((addr, _)) => match first_with(old(table)@, addr as u64) {
                        None => is_reply(&r, "E01".spec_bytes()) && final(table)@ == old(table)@,
                        Some(i) => {
                            &&& final(table)@ == old(table)@.update(i, None)
                            &&& if old(table)@[i]->Some_0.armed {
                                r matches Step::Write { addr: a, data, before, reply } && a == addr && data@ == seq![
                                    old(table)@[i]->Some_0.orig] && before@.len() == 0 && reply@ == "OK".spec_bytes()
                            } else {
                                is_reply(&r, "OK".spec_bytes())
                            }
                        },
                    },
                }
                &&& !is_z_remove(p) ==> final(table)@ == old(table)@
                &&& final(table).replant() == old(table).replant()
            }),
    {
        if len == 0 {
            return Step::Reply(Vec::new());
        }
        let ghost p = buf@.subrange(0, len as int);
        let b0 = buf[0];
        assert(p[0] == b0);
        if b0 == 63u8 {
            Step::Reply(lit("S05"))
        } else if b0 == 72u8 {
            Step::Reply(lit("OK"))
        } else if b0 == 113u8 {
            let r = if starts_with(buf, 0, len, "qSupported".as_bytes()) {
                lit("PacketSize=2000;QStartNoAckMode+")
            } else if starts_with(buf, 0, len, "qAttached".as_bytes()) {
                lit("1")
            } else if starts_with(buf, 0, len, "qfThreadInfo".as_bytes()) {
                lit("m1")
            } else if starts_with(buf, 0, len, "qsThreadInfo".as_bytes()) {
                lit("l")
            } else if starts_with(buf, 0, len, "qC".as_bytes()) {
                lit("QC1")
            } else if starts_with(buf, 0, len, "qTStatus".as_bytes()) {
                Vec::new()
            } else if starts_with(buf, 0, len, "vCont?".as_bytes()) {
                lit("vCont;c;s")
            } else {
                Vec::new()
            };
            Step::Reply(r)
        } else if b0 == 81u8 {
            if starts_with(buf, 0, len, "QStartNoAckMode".as_bytes()) {
                self.no_ack = true;
                Step::Reply(lit("OK"))
            } else {
                Step::Reply(Vec::new())
            }
        } else if b0 == 103u8 {
            let _w = write_g(&mut self.outbuf, tf);
            let mut out: Vec<u8> = Vec::new();
            let mut i: usize = 0;
            while i < G_HEX_LEN
                invariant
                    i <= G_HEX_LEN,
                    self.outbuf@.len() == OUTBUF_LEN,
                    out@ == self.outbuf@.subrange(0, i as int),
                decreases G_HEX_LEN - i,
            {
                out.push(self.outbuf[i]);
                i = i + 1;
                assert(out@ =~= self.outbuf@.subrange(0, i as int));
            }
            proof {
                assert(self.outbuf@ =~= overlay(old(self).outbuf(), g_image(*tf)));
            }
            Step::Reply(out)
        } else if b0 == 71u8 {
            if len - 1 != G_HEX_LEN {
                return Step::Reply(lit("E00"));
            }
            let payload = vstd::slice::slice_subrange(buf, 1, len);
            assert(payload@ =~= p.skip(1));
            let ok = read_g(tf, payload);
            Step::Reply(if ok { lit("OK") } else { lit("E00") })
        } else if b0 == 109u8 {
            self.handle_read(buf, len, tf, m)
        } else if b0 == 77u8 {
            self.handle_write(buf, len, m)
        } else if b0 == 90u8 && starts_with(buf, 0, len, "Z0,".as_bytes()) {
            match parse_hex_usize(buf, 3, len) {
                None => Step::Reply(lit("E00")),
                Some((addr, _used)) => {
                    match table.plan_insert(addr as u64) {
                        InsertPlan::NoSlot => Step::Reply(lit("E01")),
                        InsertPlan::AlreadyArmed => Step::Reply(lit("OK")),
                        InsertPlan::Patch(slot) => Step::Plant { slot, addr: addr as u64 },
                    }
                },
            }
        } else if b0 == 122u8 && starts_with(buf, 0, len, "z0,".as_bytes()) {
            match parse_hex_usize(buf, 3, len) {
                None => Step::Reply(lit("E00")),
                Some((addr, _used)) => {
                    let (found, restore) = table.remove(addr as u64);
                    if !found {
                        Step::Reply(lit("E01"))
                    } else {
                        match restore {
                            Some((a, orig)) => {
                                let mut data: Vec<u8> = Vec::new();
                                data.push(orig);
                                Step::Write { addr: a as usize, data, before: Vec::new(), reply: lit("OK") }
                            },
                            None => Step::Reply(lit("OK")),
                        }
                    }
                },
            }
        } else if b0 == 118u8 && starts_with(buf, 0, len, "vCont?".as_bytes()) {
            Step::Reply(lit("vCont;c;s"))
        } else if b0 == 118u8 && starts_with(buf, 0, len, "vCont;c".as_bytes()) {
            self.resume_continue(tf)
        } else if b0 == 118u8 && starts_with(buf, 0, len, "vCont;s".as_bytes()) {
            set_tf(tf);
            self.ever_resumed = true;
            Step::Resume { restore: None, outcome: Outcome::SingleStep }
        } else if b0 == 99u8 {
            self.resume_continue(tf)
        } else if b0 == 115u8 {
            set_tf(tf);
            self.ever_resumed = true;
            Step::Resume { restore: None, outcome: Outcome::SingleStep }
        } else if b0 == 107u8 {
            Step::Resume { restore: None, outcome: Outcome::KillTask }
        } else if b0 == 3u8 {
            Step::Reply(lit("S02"))
        } else {
            Step::Reply(Vec::new())
        }
    }

    fn handle_read<M: Memory>(&self, buf: &[u8], len: usize, tf: &TrapFrame, m: &M) -> (r: Step)
        requires
            len <= buf@.len(),
            len > 0,
        ensures
            ({
                let p = buf@.subrange(0, len as int);
                match parse_addr_len_at(p, 1) {
                    None => is_reply(&r, "E00".spec_bytes()),
                    Some((addr, rlen, _)) => {
                        let allowed = (rlen != 0 && rlen <= OUTBUF_LEN / 2 && m.readable(addr, rlen)) || (addr
                            >= sat_sub(tf.rsp as usize, STACK_WINDOW) && sat_add(addr, rlen) <= sat_add(
                            tf.rsp as usize,
                            STACK_WINDOW,
                        ));
                        if allowed {
                            r == (Step::ReadMemory { addr, len: rlen })
                        } else {
                            is_reply(&r, "E01".spec_bytes())
                        }
                    },
                }
            }),
    {
        match parse_addr_len(buf, 1, len) {
            None => Step::Reply(lit("E00")),
            Some((addr, rlen, _used)) => {
                let max_len = OUTBUF_LEN / 2;
                let mut allowed = rlen != 0 && rlen <= max_len && m.can_read(addr, rlen);
                if !allowed {
                    let rsp = tf.rsp as usize;
                    let win_lo = rsp.saturating_sub(STACK_WINDOW);
                    let win_hi = rsp.saturating_add(STACK_WINDOW);
                    let end = addr.saturating_add(rlen);
                    if addr >= win_lo && end <= win_hi {
                        allowed = true;
                    }
                }
                if !allowed {
                    Step::Reply(lit("E01"))
                } else {
                    Step::ReadMemory { addr, len: rlen }
                }
            },
        }
    }

    fn handle_write<M: Memory>(&mut self, buf: &[u8], len: usize, m: &M) -> (r: Step)
        requires
            old(self).wf(),
            len <= buf@.len(),
            len > 0,
        ensures
            final(self).wf(),
            final(self).no_ack_on() == old(self).no_ack_on(),
            final(self).resumed() == old(self).resumed(),
            final(self).pending() == old(self).pending(),
            final(self).outbuf() == old(self).outbuf(),
            ({
                let p = buf@.subrange(0, len as int);
                match parse_addr_len_at(p, 1) {
                    None => is_reply(&r, "E00".spec_bytes()) && final(self).tmp() == old(self).tmp(),
                    Some((addr, wlen, used)) => {
                        if 1 + used >= p.len() || p[1 + used] != 58u8 {
                            is_reply(&r, "E00".spec_bytes()) && final(self).tmp() == old(self).tmp()
                        } else if wlen == 0 || wlen > TMP_LEN || !m.writable(addr, wlen) {
                            is_reply(&r, "E01".spec_bytes()) && final(self).tmp() == old(self).tmp()
                        } else if p.len() - (2 + used) != 2 * wlen {
                            is_reply(&r, "E00".spec_bytes()) && final(self).tmp() == old(self).tmp()
                        } else {
                            let new_tmp = decode_into(old(self).tmp(), p, 2 + used, wlen as int);
                            &&& final(self).tmp() == new_tmp
                            &&& r matches Step::Write { addr: a, data, before, reply } && a == addr && data@
                                == new_tmp.subrange(0, wlen as int) && before@.len() == bad_pairs(p, 2 + used, wlen as int)
                                && (forall|k: int| 0 <= k < before@.len() ==> #[trigger] before@[k]@ == "E00".spec_bytes())
                                && reply@ == "OK".spec_bytes()
                        }
                    },
                }
            }),
    {
        let ghost p = buf@.subrange(0, len as int);
        proof {
            lemma_parse_addr_len_bound(p, 1);
        }
        let (addr, wlen, used) = match parse_addr_len(buf, 1, len) {
            None => return Step::Reply(lit("E00")),
            Some(x) => x,
        };
        if 1 + used >= len || buf[1 + used] != 58u8 {
            return Step::Reply(lit("E00"));
        }
        if wlen == 0 || wlen > TMP_LEN || !m.can_write(addr, wlen) {
            return Step::Reply(lit("E01"));
        }
        let hex_off = 1 + used + 1;
        let hex_len = len - hex_off;
        if hex_len != wlen * 2 {
            return Step::Reply(lit("E00"));
        }
        let mut before: Vec<Vec<u8>> = Vec::new();
        let mut i: usize = 0;
        while i < wlen
            invariant
                i <= wlen,
                wlen <= TMP_LEN,
                self.wf(),
                self.no_ack_on() == old(self).no_ack_on(),
                self.resumed() == old(self).resumed(),
                self.pending() == old(self).pending(),
                self.outbuf() == old(self).outbuf(),
                hex_off + 2 * wlen == len,
                len <= buf@.len(),
                p == buf@.subrange(0, len as int),
                self.tmp() == decode_into(old(self).tmp(), p, hex_off as int, i as int),
                before@.len() == bad_pairs(p, hex_off as int, i as int),
                forall|k: int| 0 <= k < before@.len() ==> #[trigger] before@[k]@ == "E00".spec_bytes(),
            decreases wlen - i,
        {
            let hi = from_hex(buf[hex_off + i * 2]);
            let lo = from_hex(buf[hex_off + i * 2 + 1]);
            assert(p[hex_off + 2 * i] == buf@[hex_off + i * 2]);
            assert(p[hex_off + 2 * i + 1] == buf@[hex_off + i * 2 + 1]);
            match (hi, lo) {
                (Some(h), Some(l)) => {
                    assert((h << 4u8) | l == h * 16 + l) by (bit_vector)
                        requires
                            h < 16,
                            l < 16,
                    ;
                    self.tmp.set(i, (h << 4) | l);
                },
                _ => {
                    before.push(lit("E00"));
                },
            }
            i = i + 1;
            assert(self.tmp() =~= decode_into(old(self).tmp(), p, hex_off as int, i as int));
        }
        let data = vstd::slice::slice_to_vec(vstd::slice::slice_subrange(self.tmp.as_slice(), 0, wlen));
        Step::Write { addr, data, before, reply: lit("OK") }
    }

    /// The reply to an `m` request once the caller read the bytes: two hex
    /// characters per byte; as much of it as fits is also left at the head
    /// of the output buffer.
    pub fn finish_read(&mut self, data: &[u8]) -> (reply: Vec<u8>)
        requires
            old(self).wf(),
        ensures
            final(self).wf(),
            reply@ == hex_bytes(data@),
            final(self).outbuf() == overlay(old(self).outbuf(), hex_bytes(data@)),
            final(self).no_ack_on() == old(self).no_ack_on(),
            final(self).resumed() == old(self).resumed(),
            final(self).pending() == old(self).pending(),
            final(self).tmp() == old(self).tmp(),
    {
        let mut reply: Vec<u8> = Vec::new();
        let mut i: usize = 0;
        while i < data.len()
            invariant
                i <= data@.len(),
                reply@ == hex_bytes(data@.subrange(0, i as int)),
            decreases data@.len() - i,
        {
            let b = data[i];
            assert((b >> 4u8) & 0xFu8 == b / 16 && b & 0xFu8 == b % 16) by (bit_vector);
            reply.push(crate::hex::hex4((b >> 4) & 0xF));
            reply.push(crate::hex::hex4(b & 0xF));
            assert(data@.subrange(0, i + 1).drop_last() =~= data@.subrange(0, i as int));
            i = i + 1;
            assert(reply@ =~= hex_bytes(data@.subrange(0, i as int)));
        }
        assert(data@.subrange(0, data@.len() as int) =~= data@);
        let mut k: usize = 0;
        while k < reply.len() && k < OUTBUF_LEN
            invariant
                k <= OUTBUF_LEN,
                k <= reply@.len(),
                self.wf(),
                self.no_ack_on() == old(self).no_ack_on(),
                self.resumed() == old(self).resumed(),
                self.pending() == old(self).pending(),
                self.tmp() == old(self).tmp(),
                forall|j: int| 0 <= j < k ==> self.outbuf()[j] == reply@[j],
                forall|j: int| k <= j < OUTBUF_LEN ==> self.outbuf()[j] == old(self).outbuf()[j],
            decreases OUTBUF_LEN - k,
        {
            self.outbuf.set(k, reply[k]);
            k = k + 1;
        }
        assert(self.outbuf() =~= overlay(old(self).outbuf(), hex_bytes(data@)));
        reply
    }

    /// The reply to a `Z0` request once the caller tried to plant the
    /// breakpoint: `OK` and the slot filled when the patch held, `E01` otherwise.
    pub fn finish_plant(table: &mut BreakpointTable, slot: usize, addr: u64, orig: u8, patched: bool) -> (reply: Vec<u8>)
        requires
            old(table).wf(),
            slot < MAX_BP,
            may_commit(old(table)@, slot as int, addr),
        ensures
            final(table).wf(),
            final(table).replant() == old(table).replant(),
            reply@ == if patched { "OK".spec_bytes() } else { "E01".spec_bytes() },
            final(table)@ == if patched {
                old(table)@.update(slot as int, Some(crate::breakpoint::Bp { addr, orig, armed: true }))
            } else {
                old(table)@
            },
    {
        if table.commit_insert(slot, addr, orig, patched) {
            lit("OK")
        } else {
            lit("E01")
        }
    }

    fn resume_continue(&mut self, tf: &mut TrapFrame) -> (r: Step)
        requires
            old(self).wf(),
        ensures
            final(self).wf(),
            final(self).resumed(),
            final(self).pending() is None,
            final(self).no_ack_on() == old(self).no_ack_on(),
            final(self).outbuf() == old(self).outbuf(),
            final(self).tmp() == old(self).tmp(),
            r == (Step::Resume { restore: old(self).pending(), outcome: Outcome::Continue }),
            *final(tf) == (TrapFrame {
                rflags: old(tf).rflags & !0x100u64,
                rip: match old(self).pending() {
                    Some((a, _)) => if old(tf).rip == a + 1 { a } else { old(tf).rip },
                    None => old(tf).rip,
                },
                ..*old(tf)
            }),
    {
        clear_tf(tf);
        let restore = self.bkpt.take();
        if let Some((addr, _orig)) = restore {
            if tf.rip == addr + 1 {
                tf.rip = tf.rip.wrapping_sub(1);
            }
        }
        self.ever_resumed = true;
        Step::Resume { restore, outcome: Outcome::Continue }
    }
}

/// `a - b`, or zero below zero.
pub open spec fn sat_sub(a: usize, b: usize) -> usize {
    if a >= b { (a - b) as usize } else { 0 }
}

/// `a + b`, or `usize::MAX` above it.
pub open spec fn sat_add(a: usize, b: usize) -> usize {
    if a + b <= usize::MAX { (a + b) as usize } else { usize::MAX }
}

/// `n` zero bytes.
pub fn zeros(n: usize) -> (v: Vec<u8>)
    ensures
        v@ == Seq::new(n as nat, |i: int| 0u8),
{
    let mut v: Vec<u8> = Vec::new();
    let mut i: usize = 0;
    while i < n
        invariant
            i <= n,
            v@ == Seq::new(i as nat, |j: int| 0u8),
        decreases n - i,
    {
        v.push(0);
        i = i + 1;
        assert(v@ =~= Seq::new(i as nat, |j: int| 0u8));
    }
    v
}

} // verus!
