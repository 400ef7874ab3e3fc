//! The debugger's serial line on COM2: which status bits the byte-wise
//! transport polls before it sends or receives.
use vstd::prelude::*;

verus! {

/// The COM2 backend of the debugger's transport.
#[derive(Clone, Copy, Debug, PartialEq, Eq)]
pub struct Com2Transport;

/// COM2's data register.
pub const COM2_DATA: u16 = 0x2F8;

/// COM2's line-status register.
pub const COM2_LSR: u16 = 0x2FD;

impl Com2Transport {
    /// The transmit holding register is empty (line status bit 5): a byte
    /// may be written.
    pub fn can_send(&self, lsr: u8) -> (b: bool)
        ensures
            b == (lsr & 0x20 != 0),
    {
        lsr & 0x20 != 0
    }

    /// Data is ready (line status bit 0): a byte may be read.
    pub fn can_receive(&self, lsr: u8) -> (b: bool)
        ensures
            b == (lsr & 0x01 != 0),
    {
        lsr & 0x01 != 0
    }
}

} // verus!
