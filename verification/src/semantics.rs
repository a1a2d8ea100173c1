//! The mathematical model of the machine: its state, the effect of each
//! instruction, and what a whole run computes.

use vstd::prelude::*;
use crate::opcodes::{Error, Opcodes, OutputMode, Stop};
use crate::syntax::resolved;

verus! {

/// The state of a processor as plain mathematical values.
pub struct Machine {
    /// Index of the next instruction to fetch.
    pub pc: int,
    /// Index of the current cell.
    pub ap: int,
    /// The cells.
    pub tape: Seq<u8>,
    /// The resolved program.
    pub program: Seq<Opcodes>,
    /// How written bytes are rendered.
    pub mode: OutputMode,
}

/// The ASCII code of the lower-case hexadecimal digit for `d`, where `d` is below 16.
pub open spec fn hex_digit(d: int) -> u8 {
    if d < 10 {
        (48 + d) as u8
    } else {
        (87 + d) as u8
    }
}

/// The bytes that go to the output for one written cell: the byte itself in
/// character mode; `0x`, two hexadecimal digits and a line feed in numeric mode.
pub open spec fn rendered(mode: OutputMode, byte: u8) -> Seq<u8> {
    match mode {
        OutputMode::Character => seq![byte],
        OutputMode::Numeric => seq![
            48u8,
            120u8,
            hex_digit(byte as int / 16),
            hex_digit(byte as int % 16),
            10u8,
        ],
    }
}

impl Machine {
    /// The address pointer is on the tape (or at 0 of an empty tape), and
    /// every jump of the program targets its matching bracket.
    pub open spec fn wf(self) -> bool {
        &&& 0 <= self.pc
        &&& self.ap == 0 || 0 <= self.ap < self.tape.len()
        &&& resolved(self.program)
    }

    /// No instruction is left to fetch.
    pub open spec fn halted(self) -> bool {
        !(0 <= self.pc < self.program.len())
    }

    /// The address pointer names a cell.
    pub open spec fn on_tape(self) -> bool {
        0 <= self.ap < self.tape.len()
    }

    /// The current cell.
    pub open spec fn cell(self) -> u8 {
        self.tape[self.ap]
    }

    /// The machine after the fetch: the program counter has moved on by one.
    pub open spec fn fetched(self) -> Machine {
        Machine { pc: self.pc + 1, ..self }
    }

    /// The machine with `value` in the current cell.
    pub open spec fn store(self, value: u8) -> Machine {
        Machine { tape: self.tape.update(self.ap, value), ..self }
    }

    /// The effect of `op` on a machine whose program counter has already
    /// moved past it: the next machine and the byte written, if any, or the
    /// error. `input` is the byte that a `Read` receives, `None` when the
    /// input has run out.
    pub open spec fn apply(self, op: Opcodes, input: Option<u8>) -> Result<
        (Machine, Option<u8>),
        Error,
    > {
        match op {
            Opcodes::Right => if self.ap + 1 < self.tape.len() {
                Ok((Machine { ap: self.ap + 1, ..self }, None))
            } else {
                Err(Error::TapeBoundsError)
            },
            Opcodes::Left => if self.ap > 0 {
                Ok((Machine { ap: self.ap - 1, ..self }, None))
            } else {
                Err(Error::TapeBoundsError)
            },
            Opcodes::Inc => if self.on_tape() {
                Ok((self.store(((self.cell() + 1) % 256) as u8), None))
            } else {
                Err(Error::TapeBoundsError)
            },
            Opcodes::Dec => if self.on_tape() {
                Ok((self.store(((self.cell() + 255) % 256) as u8), None))
            } else {
                Err(Error::TapeBoundsError)
            },
            Opcodes::Disp => if self.on_tape() {
                Ok((self, Some(self.cell())))
            } else {
                Err(Error::TapeBoundsError)
            },
            Opcodes::Read => match input {
                None => Err(Error::InputExhaustedError),
                Some(byte) => if self.on_tape() {
                    Ok((self.store(byte), None))
                } else {
                    Err(Error::TapeBoundsError)
                },
            },
            Opcodes::JpZero(target) => if !self.on_tape() {
                Err(Error::TapeBoundsError)
            } else if self.cell() == 0 {
                Ok((Machine { pc: target as int, ..self }, None))
            } else {
                Ok((self, None))
            },
            Opcodes::JpNonZero(target) => if !self.on_tape() {
                Err(Error::TapeBoundsError)
            } else if self.cell() != 0 {
                Ok((Machine { pc: target as int, ..self }, None))
            } else {
                Ok((self, None))
            },
        }
    }
}

/// A run in progress: the machine, how many input bytes it has taken, and
/// the output so far.
pub struct Trace {
    /// The machine.
    pub machine: Machine,
    /// The number of input bytes stored on the tape so far.
    pub consumed: int,
    /// The bytes written so far.
    pub output: Seq<u8>,
}

/// The byte that the next `Read` receives, `None` when the input has run out.
pub open spec fn next_input(input: Seq<u8>, consumed: int) -> Option<u8> {
    if 0 <= consumed < input.len() {
        Some(input[consumed])
    } else {
        None
    }
}

/// One fetch-execute cycle of a machine that has not halted. On an error the
/// instruction has been fetched and has had no effect.
pub open spec fn cycle(t: Trace, input: Seq<u8>) -> (Trace, Option<Error>) {
    let op = t.machine.program[t.machine.pc];
    let fetched = t.machine.fetched();
    match fetched.apply(op, next_input(input, t.consumed)) {
        Ok((machine, written)) => (
            Trace {
                machine,
                consumed: if op == Opcodes::Read {
                    t.consumed + 1
                } else {
                    t.consumed
                },
                output: match written {
                    Some(byte) => t.output + rendered(machine.mode, byte),
                    None => t.output,
                },
            },
            None,
        ),
        Err(e) => (Trace { machine: fetched, ..t }, Some(e)),
    }
}

/// What a run of at most `budget` cycles reaches from `t`, and why it stopped.
pub open spec fn run_of(t: Trace, input: Seq<u8>, budget: nat) -> (Trace, Stop)
    decreases budget,
{
    if t.machine.halted() {
        (t, Stop::Halted)
    } else if budget == 0 {
        (t, Stop::OutOfSteps)
    } else {
        let (next, failure) = cycle(t, input);
        match failure {
            Some(e) => (next, Stop::Failed(e)),
            None => run_of(next, input, (budget - 1) as nat),
        }
    }
}

} // verus!
