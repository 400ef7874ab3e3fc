//! Packet framing of the GDB remote serial protocol: `$payload#cc`, where
//! `cc` is the payload's byte sum modulo 256 in two hex digits.
use vstd::prelude::*;
use crate::hex::{hex4, from_hex, hex_char, hex_digit_value, hex_digits, write_hex_u64};
use crate::regs::hex_byte;

verus! {

/// Capacity of the receive buffer; bytes of a longer payload are dropped.
pub const INBUF_LEN: usize = 0x2000;

pub const DOLLAR: u8 = 36;

pub const HASH: u8 = 35;

pub const ACK: u8 = 43;

pub const NACK: u8 = 45;

pub const CTRL_C: u8 = 3;

/// The sum of the bytes of `s`.
pub open spec fn byte_sum(s: Seq<u8>) -> nat
    decreases s.len(),
{
    if s.len() == 0 {
        0
    } else {
        byte_sum(s.drop_last()) + s.last() as nat
    }
}

/// The byte sum of `s` modulo 256.
pub open spec fn checksum(s: Seq<u8>) -> u8 {
    (byte_sum(s) % 256) as u8
}

/// `$`, the payload, `#`, and the checksum in two lower-case hex digits.
pub open spec fn frame(payload: Seq<u8>) -> Seq<u8> {
    let c = checksum(payload);
    seq![DOLLAR] + payload + seq![HASH, hex_char((c / 16) as int), hex_char((c % 16) as int)]
}

/// The checksum of a payload.
pub fn checksum_of(payload: &[u8]) -> (c: u8)
    ensures
        c == checksum(payload@),
{
    let mut c: u8 = 0;
    let mut i: usize = 0;
    while i < payload.len()
        invariant
            i <= payload@.len(),
            c == checksum(payload@.subrange(0, i as int)),
        decreases payload@.len() - i,
    {
        assert(payload@.subrange(0, i + 1).drop_last() =~= payload@.subrange(0, i as int));
        proof {
            vstd::arithmetic::div_mod::lemma_add_mod_noop(
                byte_sum(payload@.subrange(0, i as int)) as int,
                payload@[i as int] as int,
                256,
            );
            vstd::arithmetic::div_mod::lemma_small_mod(payload@[i as int] as nat, 256);
        }
        c = c.wrapping_add(payload[i]);
        i = i + 1;
    }
    assert(payload@.subrange(0, payload@.len() as int) =~= payload@);
    c
}

/// The bytes that the stub writes for one packet.
pub fn frame_packet(payload: &[u8]) -> (out: Vec<u8>)
    ensures
        out@ == frame(payload@),
{
    let c = checksum_of(payload);
    let mut out: Vec<u8> = Vec::new();
    out.push(DOLLAR);
    let mut i: usize = 0;
    while i < payload.len()
        invariant
            i <= payload@.len(),
            out@ == seq![DOLLAR] + payload@.subrange(0, i as int),
        decreases payload@.len() - i,
    {
        out.push(payload[i]);
        i = i + 1;
        assert(out@ =~= seq![DOLLAR] + payload@.subrange(0, i as int));
    }
    assert((c >> 4u8) & 0xFu8 == c / 16 && c & 0xFu8 == c % 16) by (bit_vector);
    out.push(HASH);
    out.push(hex4((c >> 4) & 0xF));
    out.push(hex4(c & 0xF));
    assert(payload@.subrange(0, payload@.len() as int) =~= payload@);
    assert(out@ =~= frame(payload@));
    out
}

/// What the sender does with a byte read after it sent a packet.
#[derive(Clone, Copy, Debug, PartialEq, Eq)]
pub enum AckAction {
    /// `+`: the peer took the packet.
    Done,
    /// `-`: the peer asks for the packet again.
    Resend,
    /// Anything else is noise; keep reading.
    Wait,
}

/// The sender's answer to a byte read while it waits for an acknowledgement.
pub fn ack_action(b: u8) -> (a: AckAction)
    ensures
        a == (if b == ACK {
            AckAction::Done
        } else if b == NACK {
            AckAction::Resend
        } else {
            AckAction::Wait
        }),
{
    if b == ACK {
        AckAction::Done
    } else if b == NACK {
        AckAction::Resend
    } else {
        AckAction::Wait
    }
}

/// After a stop reply the stub stops waiting at either `+` or `-`.
pub fn stop_reply_ack_done(b: u8) -> (done: bool)
    ensures
        done == (b == ACK || b == NACK),
{
    b == ACK || b == NACK
}

/// Where the receiver is in the byte stream.
#[derive(Clone, Copy, Debug, PartialEq, Eq)]
pub enum RecvPhase {
    /// Between packets: waiting for `$`.
    Idle,
    /// Inside a payload, up to `#`.
    Body,
    /// Waiting for the first checksum digit.
    Hash1,
    /// Waiting for the second checksum digit.
    Hash2,
}

/// What one received byte yields.
#[derive(Clone, Copy, Debug, PartialEq, Eq)]
pub enum RecvEvent {
    /// Nothing complete yet.
    Pending,
    /// A payload of this length is at the head of the buffer (an interrupt
    /// request `^C` arrives as the one-byte payload `0x03`).
    Packet(usize),
}

/// The abstract state of a receiver.
pub struct RecvState {
    pub phase: RecvPhase,
    pub len: nat,
    pub cks: u8,
    pub h1: u8,
    pub buf: Seq<u8>,
}

/// The receiver's response to the byte `c`: its next state, the event, and
/// the acknowledgement byte it sends, if any.
pub open spec fn recv_step(s: RecvState, c: u8, no_ack: bool) -> (RecvState, RecvEvent, Option<u8>) {
    match s.phase {
        RecvPhase::Idle => {
            if c == ACK || c == NACK {
                (s, RecvEvent::Pending, None)
            } else if c == CTRL_C {
                (RecvState { buf: s.buf.update(0, CTRL_C), ..s }, RecvEvent::Packet(1), None)
            } else if c == DOLLAR {
                (RecvState { phase: RecvPhase::Body, len: 0, cks: 0, ..s }, RecvEvent::Pending, None)
            } else {
                (s, RecvEvent::Pending, None)
            }
        },
        RecvPhase::Body => {
            if c == HASH {
                (RecvState { phase: RecvPhase::Hash1, ..s }, RecvEvent::Pending, None)
            } else if s.len < INBUF_LEN {
                (
                    RecvState {
                        len: s.len + 1,
                        cks: ((s.cks + c) % 256) as u8,
                        buf: s.buf.update(s.len as int, c),
                        ..s
                    },
                    RecvEvent::Pending,
                    None,
                )
            } else {
                (s, RecvEvent::Pending, None)
            }
        },
        RecvPhase::Hash1 => (RecvState { phase: RecvPhase::Hash2, h1: c, ..s }, RecvEvent::Pending, None),
        RecvPhase::Hash2 => {
            let idle = RecvState { phase: RecvPhase::Idle, ..s };
            match (hex_digit_value(s.h1), hex_digit_value(c)) {
                (Some(a), Some(b)) => {
                    let ok = a * 16 + b == s.cks;
                    let ack = if no_ack {
                        None
                    } else if ok {
                        Some(ACK)
                    } else {
                        Some(NACK)
                    };
                    (idle, if ok { RecvEvent::Packet(s.len as usize) } else { RecvEvent::Pending }, ack)
                },
                _ => (idle, RecvEvent::Pending, if no_ack { None } else { Some(NACK) }),
            }
        },
    }
}

/// The receiver's states, events and acknowledgements over a byte stream.
pub open spec fn recv_run(s: RecvState, bytes: Seq<u8>, no_ack: bool) -> (RecvState, Seq<RecvEvent>, Seq<Option<u8>>)
    decreases bytes.len(),
{
    if bytes.len() == 0 {
        (s, Seq::empty(), Seq::empty())
    } else {
        let (s1, e, a) = recv_step(s, bytes[0], no_ack);
        let (s2, es, acks) = recv_run(s1, bytes.skip(1), no_ack);
        (s2, seq![e] + es, seq![a] + acks)
    }
}

/// Reassembles packets from the bytes read from the debugger link.
pub struct PacketReceiver {
    phase: RecvPhase,
    len: usize,
    cks: u8,
    h1: u8,
    buf: Vec<u8>,
}

impl PacketReceiver {
    pub closed spec fn view(&self) -> RecvState {
        RecvState { phase: self.phase, len: self.len as nat, cks: self.cks, h1: self.h1, buf: self.buf@ }
    }

    /// The buffer always holds `INBUF_LEN` bytes and the payload length never exceeds it.
    pub open spec fn wf(&self) -> bool {
        self@.buf.len() == INBUF_LEN && self@.len <= INBUF_LEN
    }

    /// A receiver between packets with a zeroed buffer.
    pub fn new() -> (r: PacketReceiver)
        ensures
            r.wf(),
            r@.phase == RecvPhase::Idle,
            r@.buf == Seq::new(INBUF_LEN as nat, |i: int| 0u8),
    {
        let mut buf: Vec<u8> = Vec::new();
        let mut i: usize = 0;
        while i < INBUF_LEN
            invariant
                i <= INBUF_LEN,
                buf@ == Seq::new(i as nat, |j: int| 0u8),
            decreases INBUF_LEN - i,
        {
            buf.push(0);
            i = i + 1;
            assert(buf@ =~= Seq::new(i as nat, |j: int| 0u8));
        }
        PacketReceiver { phase: RecvPhase::Idle, len: 0, cks: 0, h1: 0, buf }
    }

    /// The receive buffer: the latest payload at its head, older bytes after it.
    pub fn buffer(&self) -> (b: &Vec<u8>)
        ensures
            b@ == self@.buf,
    {
        &self.buf
    }

    /// Takes one byte from the link.
    pub fn feed(&mut self, c: u8, no_ack: bool) -> (r: (RecvEvent, Option<u8>))
        requires
            old(self).wf(),
        ensures
            final(self).wf(),
            (final(self)@, r.0, r.1) == recv_step(old(self)@, c, no_ack),
    {
        match self.phase {
            RecvPhase::Idle => {
                if c == ACK || c == NACK {
                    (RecvEvent::Pending, None)
                } else if c == CTRL_C {
                    self.buf.set(0, CTRL_C);
                    (RecvEvent::Packet(1), None)
                } else if c == DOLLAR {
                    self.phase = RecvPhase::Body;
                    self.len = 0;
                    self.cks = 0;
                    (RecvEvent::Pending, None)
                } else {
                    (RecvEvent::Pending, None)
                }
            },
            RecvPhase::Body => {
                if c == HASH {
                    self.phase = RecvPhase::Hash1;
                } else if self.len < INBUF_LEN {
                    self.buf.set(self.len, c);
                    self.len = self.len + 1;
                    self.cks = self.cks.wrapping_add(c);
                }
                (RecvEvent::Pending, None)
            },
            RecvPhase::Hash1 => {
                self.h1 = c;
                self.phase = RecvPhase::Hash2;
                (RecvEvent::Pending, None)
            },
            RecvPhase::Hash2 => {
                self.phase = RecvPhase::Idle;
                match (from_hex(self.h1), from_hex(c)) {
                    (Some(a), Some(b)) => {
                        assert((a << 4u8) | b == a * 16 + b) by (bit_vector)
                            requires
                                a < 16,
                                b < 16,
                        ;
                        let ok = ((a << 4) | b) == self.cks;
                        let ack = if no_ack {
                            None
                        } else if ok {
                            Some(ACK)
                        } else {
                            Some(NACK)
                        };
                        (if ok { RecvEvent::Packet(self.len) } else { RecvEvent::Pending }, ack)
                    },
                    _ => (RecvEvent::Pending, if no_ack { None } else { Some(NACK) }),
                }
            },
        }
    }
}

/// Running the receiver over two pieces of a stream runs it over the second
/// from where the first left it.
pub proof fn lemma_recv_run_append(s: RecvState, a: Seq<u8>, b: Seq<u8>, no_ack: bool)
    ensures
        ({
            let (s1, e1, k1) = recv_run(s, a, no_ack);
            let (s2, e2, k2) = recv_run(s1, b, no_ack);
            recv_run(s, a + b, no_ack) == (s2, e1 + e2, k1 + k2)
        }),
    decreases a.len(),
{
    if a.len() == 0 {
        assert(a + b =~= b);
        let (s2, e2, k2) = recv_run(s, b, no_ack);
        assert(Seq::<RecvEvent>::empty() + e2 =~= e2);
        assert(Seq::<Option<u8>>::empty() + k2 =~= k2);
    } else {
        let (s0, e0, k0) = recv_step(s, a[0], no_ack);
        lemma_recv_run_append(s0, a.skip(1), b, no_ack);
        assert((a + b).skip(1) =~= a.skip(1) + b);
        assert((a + b)[0] == a[0]);
        let (s1, e1, k1) = recv_run(s0, a.skip(1), no_ack);
        let (s2, e2, k2) = recv_run(s1, b, no_ack);
        assert(seq![e0] + (e1 + e2) =~= (seq![e0] + e1) + e2);
        assert(seq![k0] + (k1 + k2) =~= (seq![k0] + k1) + k2);
    }
}

/// Inside a payload, bytes other than `#` are stored and summed.
proof fn lemma_recv_body(s: RecvState, p: Seq<u8>, no_ack: bool)
    requires
        s.phase == RecvPhase::Body,
        s.buf.len() == INBUF_LEN,
        s.len + p.len() <= INBUF_LEN,
        forall|i: int| 0 <= i < p.len() ==> p[i] != HASH,
    ensures
        ({
            let (s2, es, ks) = recv_run(s, p, no_ack);
            &&& s2.phase == RecvPhase::Body
            &&& s2.len == s.len + p.len()
            &&& s2.cks == checksum_cont(s.cks, p)
            &&& s2.buf.len() == INBUF_LEN
            &&& s2.buf.subrange(s.len as int, s2.len as int) == p
            &&& s2.buf.subrange(0, s.len as int) == s.buf.subrange(0, s.len as int)
            &&& es == Seq::new(p.len(), |i: int| RecvEvent::Pending)
            &&& ks == Seq::new(p.len(), |i: int| None::<u8>)
        }),
    decreases p.len(),
{
    if p.len() == 0 {
        let (s2, es, ks) = recv_run(s, p, no_ack);
        assert(es =~= Seq::new(p.len(), |i: int| RecvEvent::Pending));
        assert(ks =~= Seq::new(p.len(), |i: int| None::<u8>));
        assert(s2.buf.subrange(s.len as int, s2.len as int) =~= p);
    } else {
        let (s1, e, k) = recv_step(s, p[0], no_ack);
        lemma_recv_body(s1, p.skip(1), no_ack);
        let (s2, es, ks) = recv_run(s1, p.skip(1), no_ack);
        assert(s2.buf.subrange(s1.len as int, s2.len as int) == p.skip(1));
        assert(s2.buf.subrange(s.len as int, s2.len as int) =~= p) by {
            assert(s2.buf.subrange(0, s1.len as int)[s.len as int] == s1.buf[s.len as int]);
            assert forall|i: int| 0 <= i < p.len() implies #[trigger] s2.buf.subrange(s.len as int, s2.len as int)[i] == p[i] by {
                if i == 0 {
                    assert(s2.buf.subrange(0, s1.len as int)[s.len as int] == s2.buf[s.len as int]);
                } else {
                    assert(s2.buf.subrange(s1.len as int, s2.len as int)[i - 1] == p.skip(1)[i - 1]);
                }
            }
        }
        assert(s2.buf.subrange(0, s.len as int) =~= s.buf.subrange(0, s.len as int)) by {
            assert forall|i: int| 0 <= i < s.len implies #[trigger] s2.buf.subrange(0, s.len as int)[i] == s.buf[i] by {
                assert(s2.buf.subrange(0, s1.len as int)[i] == s1.buf.subrange(0, s1.len as int)[i]);
            }
        }
        assert(seq![e] + es =~= Seq::new(p.len(), |i: int| RecvEvent::Pending));
        assert(seq![k] + ks =~= Seq::new(p.len(), |i: int| None::<u8>));
    }
}

/// The checksum of `p` added onto a running checksum `c`.
pub open spec fn checksum_cont(c: u8, p: Seq<u8>) -> u8
    decreases p.len(),
{
    if p.len() == 0 {
        c
    } else {
        checksum_cont(((c + p[0]) % 256) as u8, p.skip(1))
    }
}

proof fn lemma_byte_sum_front(p: Seq<u8>)
    requires
        p.len() > 0,
    ensures
        byte_sum(p) == p[0] + byte_sum(p.skip(1)),
    decreases p.len(),
{
    if p.len() == 1 {
        assert(p.drop_last() =~= Seq::<u8>::empty());
        assert(p.skip(1) =~= Seq::<u8>::empty());
    } else {
        lemma_byte_sum_front(p.drop_last());
        assert(p.drop_last().skip(1) =~= p.skip(1).drop_last());
        assert(p.skip(1).last() == p.last());
    }
}

proof fn lemma_checksum_cont(c: u8, p: Seq<u8>)
    ensures
        checksum_cont(c, p) as int == (c + byte_sum(p)) % 256,
    decreases p.len(),
{
    if p.len() == 0 {
        vstd::arithmetic::div_mod::lemma_small_mod(c as nat, 256);
    } else {
        let c1 = ((c + p[0]) % 256) as u8;
        lemma_checksum_cont(c1, p.skip(1));
        lemma_byte_sum_front(p);
        vstd::arithmetic::div_mod::lemma_add_mod_noop(
            (c + p[0]) as int,
            byte_sum(p.skip(1)) as int,
            256,
        );
        vstd::arithmetic::div_mod::lemma_mod_twice((byte_sum(p.skip(1))) as int, 256);
        vstd::arithmetic::div_mod::lemma_add_mod_noop(
            c1 as int,
            byte_sum(p.skip(1)) as int,
            256,
        );
        vstd::arithmetic::div_mod::lemma_small_mod(c1 as nat, 256);
    }
}

/// The trailer `#cc` with the right checksum ends the packet.
proof fn lemma_recv_trailer(s: RecvState, no_ack: bool)
    requires
        s.phase == RecvPhase::Body,
    ensures
        ({
            let c = s.cks;
            let tail = seq![HASH, hex_char((c / 16) as int), hex_char((c % 16) as int)];
            let (s3, e3, k3) = recv_run(s, tail, no_ack);
            &&& s3.phase == RecvPhase::Idle
            &&& s3.buf == s.buf
            &&& s3.len == s.len
            &&& e3 == seq![RecvEvent::Pending, RecvEvent::Pending, RecvEvent::Packet(s.len as usize)]
            &&& k3 == seq![None, None, if no_ack { None } else { Some(ACK) }]
        }),
{
    let c = s.cks;
    let tail = seq![HASH, hex_char((c / 16) as int), hex_char((c % 16) as int)];
    crate::hex::lemma_hex_char_roundtrip((c / 16) as int);
    crate::hex::lemma_hex_char_roundtrip((c % 16) as int);
    assert((c / 16) * 16 + c % 16 == c);
    let (t1, f1, a1) = recv_step(s, HASH, no_ack);
    let (t2, f2, a2) = recv_step(t1, hex_char((c / 16) as int), no_ack);
    let (t3, f3, a3) = recv_step(t2, hex_char((c % 16) as int), no_ack);
    assert(tail.skip(1).skip(1).skip(1) =~= Seq::<u8>::empty());
    assert(recv_run(t3, tail.skip(1).skip(1).skip(1), no_ack) == (t3, Seq::<RecvEvent>::empty(), Seq::<Option<u8>>::empty()));
    assert(tail.skip(1).skip(1)[0] == hex_char((c % 16) as int));
    assert(recv_run(t2, tail.skip(1).skip(1), no_ack) == (t3, seq![f3], seq![a3])) by {
        assert(seq![f3] + Seq::<RecvEvent>::empty() =~= seq![f3]);
        assert(seq![a3] + Seq::<Option<u8>>::empty() =~= seq![a3]);
    }
    assert(tail.skip(1)[0] == hex_char((c / 16) as int));
    assert(recv_run(t1, tail.skip(1), no_ack) == (t3, seq![f2, f3], seq![a2, a3])) by {
        assert(seq![f2] + seq![f3] =~= seq![f2, f3]);
        assert(seq![a2] + seq![a3] =~= seq![a2, a3]);
    }
    assert(recv_run(s, tail, no_ack) == (t3, seq![f1, f2, f3], seq![a1, a2, a3])) by {
        assert(seq![f1] + seq![f2, f3] =~= seq![f1, f2, f3]);
        assert(seq![a1] + seq![a2, a3] =~= seq![a1, a2, a3]);
    }
}

/// A packet framed by `frame`, whose payload holds no `#` and fits the
/// buffer, arrives whole from a receiver between packets: the last byte
/// yields the packet, every byte before it nothing, the payload stands at the
/// head of the buffer, and the receiver acknowledges it with `+` unless
/// acknowledgements are off.
pub proof fn lemma_frame_received(s: RecvState, p: Seq<u8>, no_ack: bool)
    requires
        s.phase == RecvPhase::Idle,
        s.buf.len() == INBUF_LEN,
        p.len() <= INBUF_LEN,
        forall|i: int| 0 <= i < p.len() ==> p[i] != HASH,
    ensures
        ({
            let (s2, es, ks) = recv_run(s, frame(p), no_ack);
            &&& s2.phase == RecvPhase::Idle
            &&& es.len() == p.len() + 4
            &&& es.last() == RecvEvent::Packet(p.len() as usize)
            &&& forall|i: int| 0 <= i < es.len() - 1 ==> es[i] == RecvEvent::Pending
            &&& s2.buf.subrange(0, p.len() as int) == p
            &&& ks.last() == (if no_ack { None } else { Some(ACK) })
        }),
{
    let c = checksum(p);
    let tail = seq![HASH, hex_char((c / 16) as int), hex_char((c % 16) as int)];
    assert(frame(p) =~= seq![DOLLAR] + (p + tail));
    let (s1, e1, k1) = recv_step(s, DOLLAR, no_ack);
    assert(recv_run(s, seq![DOLLAR], no_ack) == (s1, seq![e1], seq![k1])) by {
        assert(seq![DOLLAR].skip(1) =~= Seq::<u8>::empty());
        assert(recv_run(s1, Seq::<u8>::empty(), no_ack) == (s1, Seq::<RecvEvent>::empty(), Seq::<Option<u8>>::empty()));
        assert(seq![e1] + Seq::<RecvEvent>::empty() =~= seq![e1]);
        assert(seq![k1] + Seq::<Option<u8>>::empty() =~= seq![k1]);
    }
    lemma_recv_run_append(s, seq![DOLLAR], p + tail, no_ack);
    lemma_recv_run_append(s1, p, tail, no_ack);
    lemma_recv_body(s1, p, no_ack);
    let (s2, e2, k2) = recv_run(s1, p, no_ack);
    lemma_checksum_cont(0, p);
    assert(s2.cks == c);
    lemma_recv_trailer(s2, no_ack);
    let (s3, e3, k3) = recv_run(s2, tail, no_ack);
    assert(s3.buf == s2.buf);
    let es = seq![e1] + (e2 + e3);
    assert forall|i: int| 0 <= i < es.len() - 1 implies es[i] == RecvEvent::Pending by {
        if 1 <= i < 1 + p.len() {
            assert(es[i] == e2[i - 1]);
        }
    }
    assert(s2.buf.subrange(0, p.len() as int) == s2.buf.subrange(s1.len as int, s2.len as int));
}

/// The payload of a stop reply: `T`, the signal in two hex digits,
/// `;thread:` and the thread id, `;pc:` and the program counter (both without
/// leading zeros), and a closing `;`.
pub open spec fn stop_reply(sig: u8, tid: u64, pc: u64) -> Seq<u8> {
    seq![84u8] + hex_byte(sig as nat) + seq![59u8, 116u8, 104u8, 114u8, 101u8, 97u8, 100u8, 58u8]
        + hex_digits(tid as nat) + seq![59u8, 112u8, 99u8, 58u8] + hex_digits(pc as nat) + seq![59u8]
}

/// Builds the stop reply that the stub sends when it is re-entered after a resume.
pub fn stop_reply_payload(sig: u8, tid: u64, pc: u64) -> (out: Vec<u8>)
    ensures
        out@ == stop_reply(sig, tid, pc),
{
    let mut out: Vec<u8> = Vec::new();
    out.push(84u8);  // 'T'
    assert((sig >> 4u8) & 0xFu8 == sig / 16 && sig & 0xFu8 == sig % 16) by (bit_vector);
    out.push(hex4((sig >> 4) & 0xF));
    out.push(hex4(sig & 0xF));
    let thread_tag: [u8; 8] = [59, 116, 104, 114, 101, 97, 100, 58];  // ";thread:"
    let pc_tag: [u8; 4] = [59, 112, 99, 58];  // ";pc:"
    append(&mut out, &thread_tag);
    let t = write_hex_u64(tid);
    append(&mut out, t.as_slice());
    append(&mut out, &pc_tag);
    let p = write_hex_u64(pc);
    append(&mut out, p.as_slice());
    out.push(59u8);  // ';'
    assert(thread_tag@ =~= seq![59u8, 116u8, 104u8, 114u8, 101u8, 97u8, 100u8, 58u8]);
    assert(pc_tag@ =~= seq![59u8, 112u8, 99u8, 58u8]);
    assert(out@ =~= stop_reply(sig, tid, pc));
    out
}

/// Appends `src` to `out`.
pub fn append(out: &mut Vec<u8>, src: &[u8])
    ensures
        final(out)@ == old(out)@ + src@,
{
    let mut i: usize = 0;
    while i < src.len()
        invariant
            i <= src@.len(),
            out@ == old(out)@ + src@.subrange(0, i as int),
        decreases src@.len() - i,
    {
        out.push(src[i]);
        i = i + 1;
        assert(out@ =~= old(out)@ + src@.subrange(0, i as int));
    }
    assert(src@.subrange(0, src@.len() as int) =~= src@);
}

} // verus!
