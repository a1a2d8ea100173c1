//! The executable machine.

use vstd::prelude::*;
use crate::opcodes::{Error, Opcodes, OutputMode, Stop};
use crate::semantics::{hex_digit, rendered, run_of, Machine, Trace};
use crate::source::source_chars;
use crate::syntax::{balanced, instructions, targets_mutual, translates};
use crate::translate::translate;

verus! {

/// A program, a tape, and the two indices that move over them.
#[derive(Debug)]
pub struct Processor {
    /// Location in program
    pc: usize,
    /// Address pointer to tape
    ap: usize,
    tape: Vec<u8>,
    parsed_program: Vec<Opcodes>,
    mode: OutputMode,
}

/// What a bounded run produced.
#[derive(Debug)]
pub struct RunReport {
    /// The bytes written, rendered in the processor's output mode.
    pub output: Vec<u8>,
    /// The number of input bytes stored on the tape.
    pub consumed: usize,
    /// Why the run stopped.
    pub stop: Stop,
}

impl View for Processor {
    type V = Machine;

    closed spec fn view(&self) -> Machine {
        Machine {
            pc: self.pc as int,
            ap: self.ap as int,
            tape: self.tape@,
            program: self.parsed_program@,
            mode: self.mode,
        }
    }
}

/// The machine before its first cycle: both indices at 0 and every cell 0.
pub open spec fn initial(program: Seq<Opcodes>, tape_len: nat, mode: OutputMode) -> Machine {
    Machine { pc: 0, ap: 0, tape: Seq::new(tape_len, |i: int| 0u8), program, mode }
}

/// The ASCII code of the lower-case hexadecimal digit for `d`.
fn hex_digit_of(d: u8) -> (code: u8)
    requires
        d < 16,
    ensures
        code == hex_digit(d as int),
{
    if d < 10 {
        48 + d
    } else {
        87 + d
    }
}

/// The bytes that one written cell adds to the output in the given mode.
pub fn render(mode: OutputMode, byte: u8) -> (bytes: Vec<u8>)
    ensures
        bytes@ == rendered(mode, byte),
{
    let mut bytes: Vec<u8> = Vec::new();
    match mode {
        OutputMode::Character => {
            bytes.push(byte);
        },
        OutputMode::Numeric => {
            bytes.push(48);
            bytes.push(120);
            bytes.push(hex_digit_of(byte / 16));
            bytes.push(hex_digit_of(byte % 16));
            bytes.push(10);
        },
    }
    assert(bytes@ =~= rendered(mode, byte));
    bytes
}

impl Processor {
    /// The invariant of a processor: see [`Machine::wf`].
    pub open spec fn wf(&self) -> bool {
        self@.wf()
    }

    /// A processor in character mode for the program in `program`, with a
    /// zeroed tape of `tape_len` cells. Fails exactly when the brackets of
    /// the program are not balanced.
    pub fn new(program: &str, tape_len: usize) -> (made: Result<Processor, Error>)
        ensures
            balanced(instructions(program@)) <==> made is Ok,
            made matches Ok(p) ==> p.wf() && translates(instructions(program@), p@.program)
                && targets_mutual(p@.program) && p@ == initial(
                p@.program,
                tape_len as nat,
                OutputMode::Character,
            ),
            made matches Err(e) ==> e == Error::MalformedProgramError,
    {
        Processor::with_mode(program, tape_len, OutputMode::Character)
    }

    /// As [`Processor::new`], with the output mode chosen.
    pub fn with_mode(program: &str, tape_len: usize, mode: OutputMode) -> (made: Result<
        Processor,
        Error,
    >)
        ensures
            balanced(instructions(program@)) <==> made is Ok,
            made matches Ok(p) ==> p.wf() && translates(instructions(program@), p@.program)
                && targets_mutual(p@.program) && p@ == initial(p@.program, tape_len as nat, mode),
            made matches Err(e) ==> e == Error::MalformedProgramError,
    {
        match Processor::parse(program) {
            Ok(parsed_program) => {
                let tape: Vec<u8> = vec![0u8; tape_len];
                let p = Processor { pc: 0, ap: 0, tape, parsed_program, mode };
                proof {
                    assert(p@.tape =~= Seq::new(tape_len as nat, |i: int| 0u8));
                    crate::laws::lemma_translation_is_resolved(
                        instructions(program@),
                        p@.program,
                    );
                }
                Ok(p)
            },
            Err(e) => Err(e),
        }
    }

    /// Resolves program text. Succeeds exactly when the brackets among its
    /// instruction characters are balanced; the result then has one
    /// instruction per instruction character, in order, and each jump holds
    /// the index of its matching bracket.
    pub fn parse(program: &str) -> (outcome: Result<Vec<Opcodes>, Error>)
        ensures
            balanced(instructions(program@)) <==> outcome is Ok,
            outcome matches Ok(parsed) ==> translates(instructions(program@), parsed@)
                && targets_mutual(parsed@),
            outcome matches Err(e) ==> e == Error::MalformedProgramError,
    {
        let text = source_chars(program);
        translate(&text)
    }

    /// Index of the next instruction to fetch.
    pub fn pc(&self) -> (pc: usize)
        ensures
            pc == self@.pc,
    {
        self.pc
    }

    /// Index of the current cell.
    pub fn ap(&self) -> (ap: usize)
        ensures
            ap == self@.ap,
    {
        self.ap
    }

    /// The cells.
    pub fn tape(&self) -> (tape: &Vec<u8>)
        ensures
            tape@ == self@.tape,
    {
        &self.tape
    }

    /// The resolved program.
    pub fn program(&self) -> (program: &Vec<Opcodes>)
        ensures
            program@ == self@.program,
    {
        &self.parsed_program
    }

    /// The output mode that the processor was made with.
    pub fn mode(&self) -> (mode: OutputMode)
        ensures
            mode == self@.mode,
    {
        self.mode
    }

    /// Whether no instruction is left to fetch.
    pub fn halted(&self) -> (yes: bool)
        ensures
            yes == self@.halted(),
    {
        self.pc >= self.parsed_program.len()
    }

    /// Fetches the instruction at the program counter and moves the counter
    /// past it. A halted processor gives `None` and stays as it is.
    pub fn get_op(&mut self) -> (op: Option<Opcodes>)
        ensures
            old(self)@.halted() ==> op is None && final(self)@ == old(self)@,
            !old(self)@.halted() ==> op == Some(old(self)@.program[old(self)@.pc]) && final(self)@
                == old(self)@.fetched(),
            old(self).wf() ==> final(self).wf(),
    {
        if self.pc < self.parsed_program.len() {
            let op = self.parsed_program[self.pc];
            self.pc += 1;
            Some(op)
        } else {
            None
        }
    }

    /// Applies the effect of a fetched instruction. `input` is the byte
    /// that a `Read` receives, `None` when the input has run out. Gives the
    /// byte that a `Disp` writes. On an error the processor stays as it is.
    pub fn parsed_step(&mut self, op: Opcodes, input: Option<u8>) -> (effect: Result<
        Option<u8>,
        Error,
    >)
        ensures
            match old(self)@.apply(op, input) {
                Ok((next, written)) => effect == Ok::<Option<u8>, Error>(written) && final(self)@
                    == next,
                Err(e) => effect == Err::<Option<u8>, Error>(e) && final(self)@ == old(self)@,
            },
            old(self).wf() ==> final(self).wf(),
    {
        match op {
            Opcodes::Right => {
                if self.tape.len() > 0 && self.ap < self.tape.len() - 1 {
                    self.ap += 1;
                    Ok(None)
                } else {
                    Err(Error::TapeBoundsError)
                }
            },
            Opcodes::Left => {
                if self.ap > 0 {
                    self.ap -= 1;
                    Ok(None)
                } else {
                    Err(Error::TapeBoundsError)
                }
            },
            Opcodes::Inc => {
                if self.ap < self.tape.len() {
                    let value = self.tape[self.ap].wrapping_add(1);
                    self.tape.set(self.ap, value);
                    Ok(None)
                } else {
                    Err(Error::TapeBoundsError)
                }
            },
            Opcodes::Dec => {
                if self.ap < self.tape.len() {
                    let value = self.tape[self.ap].wrapping_sub(1);
                    self.tape.set(self.ap, value);
                    Ok(None)
                } else {
                    Err(Error::TapeBoundsError)
                }
            },
            Opcodes::Disp => {
                if self.ap < self.tape.len() {
                    Ok(Some(self.tape[self.ap]))
                } else {
                    Err(Error::TapeBoundsError)
                }
            },
            Opcodes::Read => {
                match input {
                    None => Err(Error::InputExhaustedError),
                    Some(byte) => {
                        if self.ap < self.tape.len() {
                            self.tape.set(self.ap, byte);
                            Ok(None)
                        } else {
                            Err(Error::TapeBoundsError)
                        }
                    },
                }
            },
            Opcodes::JpZero(target) => {
                if self.ap >= self.tape.len() {
                    Err(Error::TapeBoundsError)
                } else {
                    if self.tape[self.ap] == 0 {
                        self.pc = target;
                    }
                    Ok(None)
                }
            },
            Opcodes::JpNonZero(target) => {
                if self.ap >= self.tape.len() {
                    Err(Error::TapeBoundsError)
                } else {
                    if self.tape[self.ap] != 0 {
                        self.pc = target;
                    }
                    Ok(None)
                }
            },
        }
    }

    /// Runs fetch-execute cycles until the program halts, an instruction
    /// fails, or `max_steps` cycles are done, whichever comes first. A `Read`
    /// takes the next byte of `input`. A program may loop for ever, so the
    /// budget is what makes every call return; a caller that wants no limit
    /// and live streams drives [`Processor::get_op`] and
    /// [`Processor::parsed_step`] itself.
    pub fn run(&mut self, input: &[u8], max_steps: u64) -> (report: RunReport)
        ensures
            ({
                let start = Trace { machine: old(self)@, consumed: 0, output: Seq::empty() };
                let (end, stop) = run_of(start, input@, max_steps as nat);
                &&& final(self)@ == end.machine
                &&& report.output@ == end.output
                &&& report.consumed == end.consumed
                &&& report.stop == stop
            }),
            old(self).wf() ==> final(self).wf(),
    {
        let ghost start = Trace { machine: self@, consumed: 0, output: Seq::empty() };
        let mut output: Vec<u8> = Vec::new();
        let mut consumed: usize = 0;
        let mut left: u64 = max_steps;
        while left > 0
            invariant
                consumed <= input.len(),
                start == (Trace { machine: old(self)@, consumed: 0, output: Seq::empty() }),
                run_of(Trace { machine: self@, consumed: consumed as int, output: output@ }, input@, left as nat)
                    == run_of(start, input@, max_steps as nat),
                start.machine.wf() ==> self.wf(),
            decreases left,
        {
            let ghost t = Trace { machine: self@, consumed: consumed as int, output: output@ };
            let fetch = self.get_op();
            match fetch {
                None => {
                    return RunReport { output, consumed, stop: Stop::Halted };
                },
                Some(op) => {
                    let byte = if consumed < input.len() {
                        Some(input[consumed])
                    } else {
                        None
                    };
                    match self.parsed_step(op, byte) {
                        Ok(written) => {
                            match op {
                                Opcodes::Read => {
                                    consumed += 1;
                                },
                                _ => {},
                            }
                            match written {
                                Some(value) => {
                                    let mut bytes = render(self.mode, value);
                                    output.append(&mut bytes);
                                },
                                None => {},
                            }
                        },
                        Err(e) => {
                            return RunReport { output, consumed, stop: Stop::Failed(e) };
                        },
                    }
                },
            }
            left -= 1;
        }
        let stop = if self.halted() {
            Stop::Halted
        } else {
            Stop::OutOfSteps
        };
        RunReport { output, consumed, stop }
    }
}

} // verus!
