//! The fault log: per-CPU rings of fault records, written from exception
//! handlers and read back as snapshots or drained for printing.
//!
//! Each CPU numbers its records 1, 2, 3, ...; record `s` lives in slot
//! `(s - 1) % RING_LEN`, whose tag is `s << 1` once the record is complete.
//! A reader takes a slot only when its tag and the record's number match the
//! number it looks for.
use vstd::prelude::*;

verus! {

/// Maximum number of CPUs supported by the fault logger.
pub const MAX_CPUS: usize = 64;

/// Number of entries per per-CPU ring.
pub const RING_LEN: usize = 128;

/// A fault record captured from an exception handler.
#[derive(Clone, Copy, Debug, PartialEq, Eq)]
pub struct FaultRecord {
    pub cpu: u32,
    pub vector: u8,
    pub has_err: u8,
    pub _pad0: u16,
    pub error_code: u64,
    pub rip: u64,
    pub cs: u64,
    pub rflags: u64,
    pub rsp: u64,
    pub ss: u64,
    pub cr2: u64,
    pub tsc: u64,
    pub seq: u64,
}

/// The part of the trap frame that a fault record keeps.
#[derive(Clone, Copy, Debug, PartialEq, Eq)]
pub struct TrapFrameView {
    pub rip: u64,
    pub cs: u64,
    pub rflags: u64,
    pub rsp: u64,
    pub ss: u64,
}

/// One ring slot: its tag and, once written, its record.
struct Slot {
    seq: u64,
    rec: Option<FaultRecord>,
}

/// One CPU's ring: the write position and the slots.
struct Ring {
    head: usize,
    slots: Vec<Slot>,
}

/// The logger: how many CPUs log, each CPU's count of records, the rings,
/// and (as a model) every record each CPU has logged.
pub struct FaultLog {
    max_cpus: usize,
    seq: Vec<u64>,
    rings: Vec<Ring>,
    history: Ghost<Seq<Seq<FaultRecord>>>,
}

/// The last `min(k, h.len())` records of `h`.
pub open spec fn last_n(h: Seq<FaultRecord>, k: int) -> Seq<FaultRecord> {
    if k >= h.len() {
        h
    } else {
        h.subrange(h.len() - k, h.len() as int)
    }
}

/// What a drain yields for CPUs `0..c`: each CPU's last ring's worth of
/// records, in order, CPU by CPU.
pub open spec fn drain_spec(h: Seq<Seq<FaultRecord>>, c: int) -> Seq<FaultRecord>
    decreases c,
{
    if c <= 0 {
        Seq::empty()
    } else {
        drain_spec(h, c - 1) + last_n(h[c - 1], RING_LEN as int)
    }
}

/// The CPU a record from a handler that reports CPU `hint` is filed under.
pub open spec fn cpu_slot(hint: usize, max_cpus: usize) -> usize {
    let top = if max_cpus == 0 {
        0
    } else {
        (max_cpus - 1) as usize
    };
    if hint < top {
        hint
    } else {
        top
    }
}

/// The record a handler logs, numbered `seq`.
pub open spec fn make_record(
    cpu: usize,
    vector: u8,
    error_code: u64,
    has_err: bool,
    tf: TrapFrameView,
    cr2: u64,
    tsc: u64,
    seq: u64,
) -> FaultRecord {
    FaultRecord {
        cpu: cpu as u32,
        vector,
        has_err: if has_err {
            1
        } else {
            0
        },
        _pad0: 0,
        error_code,
        rip: tf.rip,
        cs: tf.cs,
        rflags: tf.rflags,
        rsp: tf.rsp,
        ss: tf.ss,
        cr2,
        tsc,
        seq,
    }
}

impl FaultLog {
    /// Every record each CPU has logged, oldest first.
    pub closed spec fn history(&self) -> Seq<Seq<FaultRecord>> {
        self.history@
    }

    /// How many CPUs log.
    pub closed spec fn max_cpus_spec(&self) -> usize {
        self.max_cpus
    }

    /// The rings hold the last `RING_LEN` records of each CPU.
    pub closed spec fn inv(&self) -> bool {
        &&& self.seq@.len() == MAX_CPUS
        &&& self.rings@.len() == MAX_CPUS
        &&& self.history@.len() == MAX_CPUS
        &&& self.max_cpus <= MAX_CPUS
        &&& forall|c: int| 0 <= c < MAX_CPUS ==> #[trigger] self.ring_ok(c)
    }

    closed spec fn ring_ok(&self, c: int) -> bool {
        let ring = self.rings@[c];
        let h = self.history@[c];
        let p = self.seq@[c];
        &&& ring.slots@.len() == RING_LEN
        &&& p == h.len()
        &&& ring.head % 128 == p % 128
        &&& forall|i: int| 0 <= i < h.len() ==> (#[trigger] h[i]).seq == i + 1
        &&& forall|s: u64|
            1 <= s <= p && s + RING_LEN > p ==> {
                let slot = #[trigger] ring.slots@[((s - 1) % 128) as int];
                slot.seq == s << 1 && slot.rec == Some(h[s - 1])
            }
    }

    /// An empty log for one CPU.
    pub fn new() -> (log: FaultLog)
        ensures
            log.inv(),
            log.max_cpus_spec() == 1,
            log.history() =~= Seq::new(MAX_CPUS as nat, |c: int| Seq::<FaultRecord>::empty()),
    {
        let mut seq: Vec<u64> = Vec::new();
        let mut rings: Vec<Ring> = Vec::new();
        let mut c: usize = 0;
        while c < MAX_CPUS
            invariant
                c <= MAX_CPUS,
                seq@.len() == c,
                rings@.len() == c,
                forall|j: int| 0 <= j < c ==> seq@[j] == 0,
                forall|j: int|
                    0 <= j < c ==> (#[trigger] rings@[j]).slots@.len() == RING_LEN && rings@[j].head
                        == 0,
            decreases MAX_CPUS - c,
        {
            let mut slots: Vec<Slot> = Vec::new();
            let mut i: usize = 0;
            while i < RING_LEN
                invariant
                    i <= RING_LEN,
                    slots@.len() == i,
                decreases RING_LEN - i,
            {
                slots.push(Slot { seq: 0, rec: None });
                i += 1;
            }
            seq.push(0);
            rings.push(Ring { head: 0, slots });
            c += 1;
        }
        let log = FaultLog {
            max_cpus: 1,
            seq,
            rings,
            history: Ghost(Seq::new(MAX_CPUS as nat, |c: int| Seq::<FaultRecord>::empty())),
        };
        assert forall|c: int| 0 <= c < MAX_CPUS implies #[trigger] log.ring_ok(c) by {
            assert(log.seq@[c] == 0);
        }
        log
    }

    /// Sets how many CPUs log (at most `MAX_CPUS`); records already logged
    /// stay.
    pub fn init_smp(&mut self, max_cpus: usize)
        requires
            old(self).inv(),
        ensures
            final(self).inv(),
            final(self).history() == old(self).history(),
            final(self).max_cpus_spec() == if max_cpus < MAX_CPUS {
                max_cpus
            } else {
                MAX_CPUS
            },
    {
        self.max_cpus = if max_cpus < MAX_CPUS {
            max_cpus
        } else {
            MAX_CPUS
        };
        assert forall|c: int| 0 <= c < MAX_CPUS implies #[trigger] self.ring_ok(c) by {
            assert(old(self).ring_ok(c));
        }
    }

    /// How many records CPU `cpu` has logged.
    pub fn produced(&self, cpu: usize) -> (n: u64)
        requires
            self.inv(),
            cpu < MAX_CPUS,
        ensures
            n == self.history()[cpu as int].len(),
    {
        assert(self.ring_ok(cpu as int));
        self.seq[cpu]
    }

    /// Appends `rec`, numbered one past the CPU's last record.
    fn push(&mut self, cpu_ix: usize, rec: FaultRecord)
        requires
            old(self).inv(),
            cpu_ix < MAX_CPUS,
            old(self).history()[cpu_ix as int].len() < u64::MAX,
        ensures
            final(self).inv(),
            final(self).max_cpus_spec() == old(self).max_cpus_spec(),
            final(self).history() == old(self).history().update(
                cpu_ix as int,
                old(self).history()[cpu_ix as int].push(
                    FaultRecord { seq: (old(self).history()[cpu_ix as int].len() + 1) as u64, ..rec },
                ),
            ),
    {
        proof {
            assert(self.ring_ok(cpu_ix as int));
        }
        let ghost old_log = *self;
        let p = self.seq[cpu_ix];
        let mut ring = self.rings.remove(cpu_ix);
        let head = ring.head;
        ring.head = head.wrapping_add(1);
        let idx = head % RING_LEN;
        let s = p + 1;
        self.seq.set(cpu_ix, s);
        let mut r = rec;
        r.seq = s;
        ring.slots.set(idx, Slot { seq: s << 1, rec: Some(r) });
        self.rings.insert(cpu_ix, ring);
        proof {
            let h = self.history@[cpu_ix as int].push(r);
            self.history@ = self.history@.update(cpu_ix as int, h);
            lemma_wrap_mod(head);
            assert forall|c: int| 0 <= c < MAX_CPUS implies #[trigger] self.ring_ok(c) by {
                if c != cpu_ix {
                    assert(old_log.ring_ok(c));
                    assert(self.rings@[c] == old_log.rings@[c]);
                } else {
                    let ring2 = self.rings@[c];
                    assert forall|t: u64| 1 <= t <= s && t + RING_LEN > s implies {
                        let slot = #[trigger] ring2.slots@[((t - 1) % 128) as int];
                        slot.seq == t << 1 && slot.rec == Some(h[t - 1])
                    } by {
                        if t < s {
                            assert(((t - 1) % 128) != idx);
                            assert(old_log.rings@[c].slots@[((t - 1) % 128) as int] == ring2.slots@[((
                            t - 1) % 128) as int]);
                        }
                    }
                }
            }
        }
    }

    /// Logs a fault from a handler on the CPU that reports index
    /// `cpu_hint` (clamped to the CPUs that log).
    pub fn log_from_isr(
        &mut self,
        cpu_hint: usize,
        vector: u8,
        error_code: u64,
        has_err: bool,
        tf: &TrapFrameView,
        cr2: u64,
        tsc: u64,
    )
        requires
            old(self).inv(),
            old(self).history()[cpu_slot(cpu_hint, old(self).max_cpus_spec()) as int].len() < u64::MAX,
        ensures
            final(self).inv(),
            final(self).max_cpus_spec() == old(self).max_cpus_spec(),
            ({
                let ix = cpu_slot(cpu_hint, old(self).max_cpus_spec()) as int;
                let h = old(self).history()[ix];
                final(self).history() == old(self).history().update(
                    ix,
                    h.push(make_record(ix as usize, vector, error_code, has_err, *tf, cr2, tsc, (h.len() + 1) as u64)),
                )
            }),
    {
        let max = self.max_cpus;
        let top = max.saturating_sub(1);
        let cpu_ix = if cpu_hint < top {
            cpu_hint
        } else {
            top
        };
        let rec = FaultRecord {
            cpu: cpu_ix as u32,
            vector,
            has_err: if has_err {
                1
            } else {
                0
            },
            _pad0: 0,
            error_code,
            rip: tf.rip,
            cs: tf.cs,
            rflags: tf.rflags,
            rsp: tf.rsp,
            ss: tf.ss,
            cr2,
            tsc,
            seq: 0,
        };
        self.push(cpu_ix, rec);
    }

    /// The committed record numbered `s` of CPU `c`, if its slot still
    /// holds it.
    fn committed(&self, c: usize, s: u64) -> (r: Option<FaultRecord>)
        requires
            self.inv(),
            c < MAX_CPUS,
            1 <= s <= self.history()[c as int].len(),
            s + RING_LEN > self.history()[c as int].len(),
        ensures
            r == Some(self.history()[c as int][s - 1]),
    {
        proof {
            assert(self.ring_ok(c as int));
        }
        let idx = ((s - 1) % 128) as usize;
        let slot = &self.rings[c].slots[idx];
        if slot.seq != (s << 1) {
            return None;
        }
        match slot.rec {
            Some(rec) => if rec.seq == s {
                Some(rec)
            } else {
                None
            },
            None => None,
        }
    }

    /// Copies the most recent records of CPU `cpu_ix` (as many as `out`
    /// holds, at most a ring's worth), oldest first, into the front of
    /// `out`, and returns how many it copied.
    pub fn snapshot_cpu(&self, cpu_ix: usize, out: &mut Vec<FaultRecord>) -> (n: usize)
        requires
            self.inv(),
        ensures
            final(out)@.len() == old(out)@.len(),
            (cpu_ix >= self.max_cpus_spec() || old(out)@.len() == 0) ==> n == 0
                && final(out)@ == old(out)@,
            (cpu_ix < self.max_cpus_spec() && old(out)@.len() > 0) ==> {
                let k = if old(out)@.len() < RING_LEN {
                    old(out)@.len() as int
                } else {
                    RING_LEN as int
                };
                let got = last_n(self.history()[cpu_ix as int], k);
                &&& n == got.len()
                &&& final(out)@ == got + old(out)@.subrange(n as int, old(out)@.len() as int)
            },
    {
        let max = self.max_cpus;
        if cpu_ix >= max || out.len() == 0 {
            return 0;
        }
        proof {
            assert(self.ring_ok(cpu_ix as int));
        }
        let produced = self.seq[cpu_ix];
        let want: u64 = if (out.len() as u64) < (RING_LEN as u64) {
            out.len() as u64
        } else {
            RING_LEN as u64
        };
        let start = produced.saturating_sub(want) + 1;
        let ghost h = self.history()[cpu_ix as int];
        let ghost got = last_n(h, want as int);
        let ghost out0 = out@;
        let mut n: usize = 0;
        if start <= produced {
            let mut s = start;
            loop
                invariant_except_break
                    n == s - start,
                invariant
                    self.inv(),
                    cpu_ix < MAX_CPUS,
                    h == self.history()[cpu_ix as int],
                    produced == h.len(),
                    start == produced - (if want < produced { want } else { produced }) + 1,
                    got == last_n(h, want as int),
                    start <= s <= produced,
                    n <= s + 1 - start,
                    out@.len() == out0.len(),
                    want <= out0.len(),
                    want <= RING_LEN,
                    forall|j: int| 0 <= j < n ==> out@[j] == h[start - 1 + j],
                    forall|j: int| n <= j < out0.len() ==> out@[j] == out0[j],
                ensures
                    n == produced + 1 - start,
                    out@.len() == out0.len(),
                    forall|j: int| 0 <= j < n ==> out@[j] == h[start - 1 + j],
                    forall|j: int| n <= j < out0.len() ==> out@[j] == out0[j],
                decreases produced - s,
            {
                let r = self.committed(cpu_ix, s);
                if let Some(rec) = r {
                    out.set(n, rec);
                    n = n + 1;
                }
                if s == produced {
                    break;
                }
                s = s + 1;
            }
        }
        assert(out@ =~= got + out0.subrange(n as int, out0.len() as int));
        n
    }

    /// Every CPU's most recent records (a ring's worth each), CPU by CPU,
    /// oldest first; the log is left as it was.
    pub fn drain_records(&self) -> (v: Vec<FaultRecord>)
        requires
            self.inv(),
        ensures
            v@ == drain_spec(self.history(), self.max_cpus_spec() as int),
    {
        let max = self.max_cpus;
        let mut v: Vec<FaultRecord> = Vec::new();
        let mut c: usize = 0;
        while c < max
            invariant
                self.inv(),
                max == self.max_cpus_spec(),
                c <= max,
                v@ == drain_spec(self.history(), c as int),
            decreases max - c,
        {
            proof {
                assert(self.ring_ok(c as int));
            }
            let produced = self.seq[c];
            let from = produced.saturating_sub(RING_LEN as u64) + 1;
            let ghost h = self.history()[c as int];
            let ghost v0 = v@;
            if from <= produced {
                let mut s = from;
                loop
                    invariant_except_break
                        v@ == v0 + h.subrange(from - 1, s - 1),
                    invariant
                        self.inv(),
                        c < MAX_CPUS,
                        h == self.history()[c as int],
                        produced == h.len(),
                        1 <= from <= s <= produced,
                        from + RING_LEN > produced,
                    ensures
                        v@ == v0 + h.subrange(from - 1, produced as int),
                    decreases produced - s,
                {
                    let r = self.committed(c, s);
                    if let Some(rec) = r {
                        v.push(rec);
                    }
                    assert(h.subrange(from - 1, s as int) =~= h.subrange(from - 1, s - 1).push(h[s - 1]));
                    if s == produced {
                        break;
                    }
                    s = s + 1;
                }
            } else {
                assert(h.subrange(from - 1, produced as int) =~= Seq::<FaultRecord>::empty());
            }
            assert(h.subrange(from - 1, produced as int) =~= last_n(h, RING_LEN as int));
            c += 1;
        }
        v
    }
}

proof fn lemma_wrap_mod(head: usize)
    ensures
        vstd::wrapping::usize_specs::wrapping_add(head, 1) % 128 == (head + 1) % 128,
{
    assert(usize::MAX == 0xffff_ffff || usize::MAX == 0xffff_ffff_ffff_ffff);
}

/// A record logged from a handler is the newest one that the next snapshot
/// of its CPU returns, provided the snapshot has room for at least one.
pub proof fn lemma_logged_then_seen(h: Seq<FaultRecord>, rec: FaultRecord, k: int)
    requires
        1 <= k,
    ensures
        ({
            let got = last_n(h.push(rec), k);
            got.len() >= 1 && got[got.len() - 1] == rec
        }),
{
}

} // verus!
