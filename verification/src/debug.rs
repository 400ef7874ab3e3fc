//! Entry to the debugger: one session at a time; a debug exception taken
//! while a session runs resumes at once.
use vstd::prelude::*;
use crate::rsp::Outcome;

verus! {

/// Whether a debugger session is running.
#[derive(Clone, Copy, Debug, PartialEq, Eq)]
pub struct DebugGate {
    pub active: bool,
}

impl DebugGate {
    /// No session running.
    pub fn new() -> (g: DebugGate)
        ensures
            !g.active,
    {
        DebugGate { active: false }
    }
}

/// Entering the debugger: while a session runs the answer is to continue
/// at once (`Some(Continue)`); otherwise the session is marked running and
/// `None` tells the caller to run it.
pub fn serve(gate: &mut DebugGate) -> (r: Option<Outcome>)
    ensures
        old(gate).active ==> r == Some(Outcome::Continue) && final(gate).active,
        !old(gate).active ==> r is None && final(gate).active,
{
    if gate.active {
        return Some(Outcome::Continue);
    }
    gate.active = true;
    None
}

/// Leaving the debugger with the session's outcome: no session runs any more.
pub fn serve_done(gate: &mut DebugGate, out: Outcome) -> (r: Outcome)
    ensures
        r == out,
        !final(gate).active,
{
    gate.active = false;
    out
}

/// What a kernel fault handler does: in a debug build it plants a
/// breakpoint at the faulting instruction and returns into the debugger;
/// otherwise it ends the current task.
#[derive(Clone, Copy, Debug, PartialEq, Eq)]
pub enum FaultAction {
    Breakpoint(u64),
    ExitTask,
}

/// The fault handler's choice for a fault at `rip`.
pub fn fault_action(debug_build: bool, rip: u64) -> (a: FaultAction)
    ensures
        a == if debug_build {
            FaultAction::Breakpoint(rip)
        } else {
            FaultAction::ExitTask
        },
{
    if debug_build {
        FaultAction::Breakpoint(rip)
    } else {
        FaultAction::ExitTask
    }
}

} // verus!
