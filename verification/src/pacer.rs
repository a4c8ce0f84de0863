//! The cycle pacer's decision rule.
//!
//! The run loop measures wall-clock time and counts the instructions
//! executed in the current 1000 ms frame; this module decides, from those
//! two numbers and the configured instructions-per-second target, what the
//! loop does next. The loop itself, which reads the clock and waits, lives
//! outside the library.

use vstd::prelude::*;

verus! {

/// What the run loop does next.
#[derive(Clone, Copy, Debug, PartialEq, Eq, Structural)]
pub enum PacerAction {
    /// The frame's instruction budget is spent and its 1000 ms have passed:
    /// reset the counter and restart the frame clock.
    NextFrame,
    /// The budget is not yet spent: execute one cycle and count it.
    Execute,
    /// The budget is spent before the 1000 ms boundary: spin until it.
    Throttle,
}

/// Decide the next action of the pacer: with `op_count` instructions done in
/// the frame so far, a target of `fps` instructions per frame, and
/// `elapsed_ms` milliseconds since the frame started.
pub fn pacer_action(op_count: u32, fps: u32, elapsed_ms: u128) -> (r: PacerAction)
    ensures
        r == (if op_count == fps && elapsed_ms >= 1000 {
            PacerAction::NextFrame
        } else if op_count < fps {
            PacerAction::Execute
        } else {
            PacerAction::Throttle
        }),
{
    if op_count == fps && elapsed_ms >= 1000 {
        PacerAction::NextFrame
    } else if op_count < fps {
        PacerAction::Execute
    } else {
        PacerAction::Throttle
    }
}

} // verus!
