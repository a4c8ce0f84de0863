//! Screen positions for the debugger pane.
//!
//! In step/debug mode an adapter prints the instruction about to execute and
//! the register contents next to the display. This module computes where
//! each item goes: the pane starts at a given cursor position, the opcode
//! line sits two rows below it, and the sixteen register lines follow two
//! rows further down, with the program counter and index register beside the
//! first two of them.

use vstd::prelude::*;

verus! {

/// A terminal cursor position: (column, row).
pub type CursorPos = (u16, u16);

/// Where each element of the debugger pane is drawn.
pub struct DebuggerLayout {
    /// The pane's top-left corner, where its title goes.
    pub start: CursorPos,
    /// One line per register `V0..VF`.
    pub registers: Vec<CursorPos>,
    /// The program counter readout, beside the first register line.
    pub pc: CursorPos,
    /// The index register readout, beside the second register line.
    pub vi: CursorPos,
    /// The line naming the instruction about to execute.
    pub op: CursorPos,
}

impl DebuggerLayout {
    /// Lay the pane out from its top-left corner. The bound on `start` only
    /// keeps every computed row and column inside `u16`.
    pub fn new(start: CursorPos) -> (l: DebuggerLayout)
        requires
            start.0 + 12 <= u16::MAX,
            start.1 + 19 <= u16::MAX,
        ensures
            l.start == start,
            l.op == (start.0, (start.1 + 2) as u16),
            l.registers@.len() == 16,
            forall|i: int|
                0 <= i < 16 ==> l.registers@[i] == (start.0, (start.1 + 4 + i) as u16),
            l.pc == ((start.0 + 12) as u16, (start.1 + 4) as u16),
            l.vi == ((start.0 + 12) as u16, (start.1 + 5) as u16),
    {
        let (start_x, start_y) = start;
        let op = (start_x, start_y + 2);
        let register_start_y = start_y + 4;

        let mut registers: Vec<CursorPos> = Vec::new();
        let mut row: u16 = 0;
        while row < 16
            invariant
                row <= 16,
                registers@.len() == row,
                start_x == start.0,
                start_y == start.1,
                start_y + 19 <= u16::MAX,
                register_start_y == start_y + 4,
                forall|i: int|
                    0 <= i < row ==> registers@[i] == (start_x, (start_y + 4 + i) as u16),
            decreases 16 - row,
        {
            registers.push((start_x, register_start_y + row));
            row = row + 1;
        }

        DebuggerLayout {
            start,
            op,
            registers,
            pc: (start_x + 12, register_start_y),
            vi: (start_x + 12, register_start_y + 1),
        }
    }
}

} // verus!
