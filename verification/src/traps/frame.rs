//! The register state saved on an exception.
use vstd::prelude::*;

verus! {

/// The trap frame pushed on exception entry: the interrupted context's
/// return address, saved program status, stack pointer, thread id,
/// translation table bases and general-purpose registers `x0`..`x30`.
pub struct TrapFrame {
    pub elr: u64,
    pub spsr: u64,
    pub sp: u64,
    pub tpidr: u64,
    pub ttbr0: u64,
    pub ttbr1: u64,
    pub x: [u64; 31],
}

impl TrapFrame {
    /// Every register of the frame is zero.
    pub open spec fn is_zeroed(&self) -> bool {
        &&& self.elr == 0 && self.spsr == 0 && self.sp == 0 && self.tpidr == 0
        &&& self.ttbr0 == 0 && self.ttbr1 == 0
        &&& forall|i: int| 0 <= i < 31 ==> #[trigger] self.x[i] == 0
    }

    /// A zeroed trap frame.
    pub fn new() -> (tf: TrapFrame)
        ensures
            tf.is_zeroed(),
    {
        TrapFrame { elr: 0, spsr: 0, sp: 0, tpidr: 0, ttbr0: 0, ttbr1: 0, x: [0u64; 31] }
    }
}

} // verus!
