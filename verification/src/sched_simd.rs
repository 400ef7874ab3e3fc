//! The per-task area that holds a task's saved SIMD registers.
use vstd::prelude::*;

verus! {

/// Bytes of a SIMD save area.
pub const SIZE: usize = 4096;

/// A task's SIMD save area.
#[derive(Clone, Copy, Debug)]
pub struct SimdArea {
    pub dump: [u8; 4096],
}

impl SimdArea {
    /// A zeroed area.
    pub fn new() -> (a: SimdArea)
        ensures
            a.dump@ == Seq::new(SIZE as nat, |i: int| 0u8),
    {
        let a = SimdArea { dump: [0u8; 4096] };
        assert(a.dump@ =~= Seq::new(SIZE as nat, |i: int| 0u8));
        a
    }
}

} // verus!
