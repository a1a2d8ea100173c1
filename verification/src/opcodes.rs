//! The instruction set and the ways a program can fail.

use vstd::prelude::*;

verus! {

/// One resolved instruction. A jump carries the index, within the resolved
/// program, of the bracket instruction that closes or opens its loop.
#[derive(Clone, Copy, Debug, PartialEq, Eq, Structural)]
pub enum Opcodes {
    /// `>`: move the address pointer one cell to the right.
    Right,
    /// `<`: move the address pointer one cell to the left.
    Left,
    /// `+`: add one to the current cell, wrapping from 255 to 0.
    Inc,
    /// `-`: subtract one from the current cell, wrapping from 0 to 255.
    Dec,
    /// `.`: write the current cell.
    Disp,
    /// `,`: read one byte into the current cell.
    Read,
    /// `[`: jump to the given index when the current cell is zero.
    JpZero(usize),
    /// `]`: jump to the given index when the current cell is not zero.
    JpNonZero(usize),
}

/// Why translation or execution stopped.
#[derive(Clone, Copy, Debug, PartialEq, Eq, Structural)]
pub enum Error {
    /// The source holds a `[` without a `]` after it, or a `]` without a `[` before it.
    MalformedProgramError,
    /// A `,` was executed and no input byte was left.
    InputExhaustedError,
    /// The address pointer would have left the tape.
    TapeBoundsError,
}

/// How a written cell appears in the output.
#[derive(Clone, Copy, Debug, PartialEq, Eq, Structural)]
pub enum OutputMode {
    /// The byte itself, whatever its value.
    Character,
    /// `0x`, two lower-case hexadecimal digits and a line feed.
    Numeric,
}

/// Why a run stopped.
#[derive(Clone, Copy, Debug, PartialEq, Eq, Structural)]
pub enum Stop {
    /// The program counter ran past the last instruction.
    Halted,
    /// The step budget was used up before the program halted.
    OutOfSteps,
    /// An instruction failed.
    Failed(Error),
}

impl Opcodes {
    /// The source character that this instruction stands for.
    pub open spec fn symbol(self) -> char {
        match self {
            Opcodes::Right => '>',
            Opcodes::Left => '<',
            Opcodes::Inc => '+',
            Opcodes::Dec => '-',
            Opcodes::Disp => '.',
            Opcodes::Read => ',',
            Opcodes::JpZero(_) => '[',
            Opcodes::JpNonZero(_) => ']',
        }
    }
}

} // verus!
