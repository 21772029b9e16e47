//! The fatal conditions that can end an emulation session.

use vstd::prelude::*;

verus! {

/// A fatal condition met while executing one instruction. None of these are
/// recoverable: the step that reports one leaves the machine state exactly as
/// it was before the step, and the session is expected to end.
#[derive(Clone, Copy, Debug, PartialEq, Eq, Structural)]
pub enum StepError {
    /// The two fetched bytes match no CHIP-8 instruction.
    UnrecognizedOpcode(u8, u8),
    /// A call was executed with the sixteen-entry stack already full.
    StackOverflow,
    /// A return was executed with an empty stack.
    StackUnderflow,
    /// A memory access derived from the index register or the program
    /// counter, or a keypad access derived from a register value, falls
    /// outside its range.
    OutOfRange,
}

} // verus!
