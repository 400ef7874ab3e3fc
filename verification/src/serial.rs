//! The serial consoles: COM1 for the kernel log, COM2 for the debugger.
//! Which bytes go out on a port, and whether a port is up, are decided
//! here; the caller drives the UART.
use vstd::prelude::*;
use vstd::string::*;

verus! {

/// I/O base of COM1.
pub const COM1_BASE: u16 = 0x3F8;

/// I/O base of COM2.
pub const COM2_BASE: u16 = 0x2F8;

/// Which ports have been initialised.
#[derive(Clone, Copy, Debug, PartialEq, Eq)]
pub struct SerialState {
    pub com1: bool,
    pub com2: bool,
}

/// The bytes a log writer hands the port for `s`: each line feed preceded
/// by a carriage return.
pub open spec fn crlf(s: Seq<u8>) -> Seq<u8>
    decreases s.len(),
{
    if s.len() == 0 {
        Seq::empty()
    } else {
        let rest = crlf(s.drop_last());
        if s.last() == 10 {
            rest.push(13).push(10)
        } else {
            rest.push(s.last())
        }
    }
}

/// The banner framing of `s`: "\n---[ " before and " ]---\n" after.
pub open spec fn banner_spec(s: Seq<u8>) -> Seq<u8> {
    seq![10u8, 45, 45, 45, 91, 32] + s + seq![32u8, 93, 45, 45, 45, 10]
}

impl SerialState {
    /// No port up yet.
    pub fn new() -> (s: SerialState)
        ensures
            !s.com1 && !s.com2,
    {
        SerialState { com1: false, com2: false }
    }

    /// Records that COM1 has been initialised.
    pub fn init_com1(&mut self)
        ensures
            final(self).com1 && final(self).com2 == old(self).com2,
    {
        self.com1 = true;
    }

    /// Records that COM2 has been initialised.
    pub fn init_com2(&mut self)
        ensures
            final(self).com2 && final(self).com1 == old(self).com1,
    {
        self.com2 = true;
    }

    /// Whether COM1 is up.
    pub fn com1_ready(&self) -> (b: bool)
        ensures
            b == self.com1,
    {
        self.com1
    }

    /// Whether COM2 is up.
    pub fn com2_ready(&self) -> (b: bool)
        ensures
            b == self.com2,
    {
        self.com2
    }

    /// The raw bytes to send on COM1 for one byte: none while it is down.
    pub fn com1_putc(&self, b: u8) -> (out: Vec<u8>)
        ensures
            out@ == if self.com1 {
                seq![b]
            } else {
                Seq::<u8>::empty()
            },
    {
        let mut out: Vec<u8> = Vec::new();
        if self.com1 {
            out.push(b);
        }
        out
    }

    /// The raw bytes to send on COM2 for one byte: none while it is down.
    pub fn com2_putc(&self, b: u8) -> (out: Vec<u8>)
        ensures
            out@ == if self.com2 {
                seq![b]
            } else {
                Seq::<u8>::empty()
            },
    {
        let mut out: Vec<u8> = Vec::new();
        if self.com2 {
            out.push(b);
        }
        out
    }

    /// The raw bytes to send on COM1 for `bytes`, untranslated.
    pub fn com1_write(&self, bytes: &[u8]) -> (out: Vec<u8>)
        ensures
            out@ == if self.com1 {
                bytes@
            } else {
                Seq::<u8>::empty()
            },
    {
        if self.com1 {
            vstd::slice::slice_to_vec(bytes)
        } else {
            Vec::new()
        }
    }

    /// The raw bytes to send on COM2 for `bytes`, untranslated.
    pub fn com2_write(&self, bytes: &[u8]) -> (out: Vec<u8>)
        ensures
            out@ == if self.com2 {
                bytes@
            } else {
                Seq::<u8>::empty()
            },
    {
        if self.com2 {
            vstd::slice::slice_to_vec(bytes)
        } else {
            Vec::new()
        }
    }

    /// A received byte, if COM1 is up and the poll gave one.
    pub fn com1_getc_nb(&self, polled: Option<u8>) -> (r: Option<u8>)
        ensures
            r == if self.com1 {
                polled
            } else {
                None::<u8>
            },
    {
        if self.com1 {
            polled
        } else {
            None
        }
    }

    /// A received byte, if COM2 is up and the poll gave one.
    pub fn com2_getc_nb(&self, polled: Option<u8>) -> (r: Option<u8>)
        ensures
            r == if self.com2 {
                polled
            } else {
                None::<u8>
            },
    {
        if self.com2 {
            polled
        } else {
            None
        }
    }

    /// The raw bytes of a banner line around `s` on COM1.
    pub fn banner_com1(&self, s: &str) -> (out: Vec<u8>)
        ensures
            out@ == if self.com1 {
                banner_spec(s.spec_bytes())
            } else {
                Seq::<u8>::empty()
            },
    {
        if !self.com1 {
            return Vec::new();
        }
        banner(s)
    }

    /// The raw bytes of a banner line around `s` on COM2.
    pub fn banner_com2(&self, s: &str) -> (out: Vec<u8>)
        ensures
            out@ == if self.com2 {
                banner_spec(s.spec_bytes())
            } else {
                Seq::<u8>::empty()
            },
    {
        if !self.com2 {
            return Vec::new();
        }
        banner(s)
    }

    /// What the COM1 log writer hands the port for `s` (see `crlf`);
    /// `None` (a formatting error) while COM1 is down.
    pub fn com1_text(&self, s: &[u8]) -> (out: Option<Vec<u8>>)
        ensures
            self.com1 ==> (out matches Some(v) && v@ == crlf(s@)),
            !self.com1 ==> out is None,
    {
        if self.com1 {
            Some(writer_bytes(s))
        } else {
            None
        }
    }

    /// What the COM2 writer hands the port for `s`; `None` while COM2 is
    /// down.
    pub fn com2_text(&self, s: &[u8]) -> (out: Option<Vec<u8>>)
        ensures
            self.com2 ==> (out matches Some(v) && v@ == crlf(s@)),
            !self.com2 ==> out is None,
    {
        if self.com2 {
            Some(writer_bytes(s))
        } else {
            None
        }
    }
}

/// The banner bytes around `s`.
fn banner(s: &str) -> (out: Vec<u8>)
    ensures
        out@ == banner_spec(s.spec_bytes()),
{
    let bytes = s.as_bytes();
    let mut out: Vec<u8> = Vec::new();
    out.push(10);
    out.push(45);
    out.push(45);
    out.push(45);
    out.push(91);
    out.push(32);
    let n = bytes.len();
    let mut i: usize = 0;
    while i < n
        invariant
            i <= n,
            n == bytes@.len(),
            out@ == seq![10u8, 45, 45, 45, 91, 32] + bytes@.subrange(0, i as int),
        decreases n - i,
    {
        out.push(bytes[i]);
        i += 1;
    }
    out.push(32);
    out.push(93);
    out.push(45);
    out.push(45);
    out.push(45);
    out.push(10);
    assert(bytes@.subrange(0, n as int) =~= bytes@);
    assert(out@ =~= banner_spec(s.spec_bytes()));
    out
}

/// The log writer's bytes for `s` (see `crlf`).
pub fn writer_bytes(s: &[u8]) -> (out: Vec<u8>)
    ensures
        out@ == crlf(s@),
{
    let mut out: Vec<u8> = Vec::new();
    let n = s.len();
    let mut i: usize = 0;
    while i < n
        invariant
            i <= n,
            n == s@.len(),
            out@ == crlf(s@.subrange(0, i as int)),
        decreases n - i,
    {
        assert(s@.subrange(0, i + 1).drop_last() =~= s@.subrange(0, i as int));
        if s[i] == 10 {
            out.push(13);
        }
        out.push(s[i]);
        i += 1;
    }
    assert(s@.subrange(0, n as int) =~= s@);
    out
}

/// Dropping the carriage return inserted before each line feed gives the
/// text back: the log writer's output is the text with `\r\n` for `\n`.
pub open spec fn strip_cr(s: Seq<u8>) -> Seq<u8>
    decreases s.len(),
{
    if s.len() == 0 {
        Seq::empty()
    } else if s.len() >= 2 && s.last() == 10 && s[s.len() - 2] == 13 {
        strip_cr(s.subrange(0, s.len() - 2)).push(10)
    } else {
        strip_cr(s.drop_last()).push(s.last())
    }
}

/// The log writer's expansion is undone by dropping the inserted carriage
/// returns, and every line feed it emits follows a carriage return.
pub proof fn lemma_crlf_roundtrip(s: Seq<u8>)
    ensures
        strip_cr(crlf(s)) == s,
        forall|i: int| 0 <= i < crlf(s).len() && #[trigger] crlf(s)[i] == 10 ==> i > 0 && crlf(s)[i - 1] == 13,
    decreases s.len(),
{
    if s.len() > 0 {
        let init = s.drop_last();
        lemma_crlf_roundtrip(init);
        let r = crlf(init);
        if s.last() == 10 {
            let out = r.push(13).push(10);
            assert(out.subrange(0, out.len() - 2) =~= r);
            assert(strip_cr(out) =~= strip_cr(r).push(10));
            assert(s =~= init.push(10));
            assert forall|i: int| 0 <= i < out.len() && #[trigger] out[i] == 10 implies i > 0 && out[i - 1] == 13 by {
                if i < r.len() {
                    assert(out[i] == r[i]);
                    assert(out[i - 1] == r[i - 1]);
                }
            }
        } else {
            let out = r.push(s.last());
            assert(out.drop_last() =~= r);
            if out.len() >= 2 && out.last() == 10 {
                assert(false);
            }
            assert(s =~= init.push(s.last()));
            assert forall|i: int| 0 <= i < out.len() && #[trigger] out[i] == 10 implies i > 0 && out[i - 1] == 13 by {
                if i < r.len() {
                    assert(out[i] == r[i]);
                    assert(out[i - 1] == r[i - 1]);
                }
            }
        }
    }
}

} // verus!
