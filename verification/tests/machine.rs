use tape_machine::processor::render;
use tape_machine::{Error, Opcodes, OutputMode, Processor, Stop};

fn machine(source: &str, tape_len: usize) -> Processor {
    Processor::new(source, tape_len).unwrap()
}

#[test]
fn a_new_processor_starts_at_zero() {
    let p = machine("+[-]", 10);
    assert_eq!(p.pc(), 0);
    assert_eq!(p.ap(), 0);
    assert_eq!(p.tape(), &vec![0u8; 10]);
    assert_eq!(
        p.program(),
        &vec![Opcodes::Inc, Opcodes::JpZero(3), Opcodes::Dec, Opcodes::JpNonZero(1)]
    );
    assert_eq!(p.mode(), OutputMode::Character);
    assert!(!p.halted());
}

#[test]
fn with_mode_sets_the_output_mode() {
    let p = Processor::with_mode(".", 3, OutputMode::Numeric).unwrap();
    assert_eq!(p.mode(), OutputMode::Numeric);
    assert_eq!(p.tape().len(), 3);
}

#[test]
fn get_op_fetches_and_advances() {
    let mut p = machine("+-", 1);
    assert_eq!(p.get_op(), Some(Opcodes::Inc));
    assert_eq!(p.pc(), 1);
    assert_eq!(p.get_op(), Some(Opcodes::Dec));
    assert_eq!(p.pc(), 2);
    assert!(p.halted());
    assert_eq!(p.get_op(), None);
    assert_eq!(p.pc(), 2);
}

#[test]
fn increment_wraps_from_255_to_0() {
    let mut p = machine("", 1);
    assert_eq!(p.parsed_step(Opcodes::Read, Some(255)), Ok(None));
    assert_eq!(p.tape()[0], 255);
    assert_eq!(p.parsed_step(Opcodes::Inc, None), Ok(None));
    assert_eq!(p.tape()[0], 0);
    assert_eq!(p.parsed_step(Opcodes::Inc, None), Ok(None));
    assert_eq!(p.tape()[0], 1);
}

#[test]
fn decrement_wraps_from_0_to_255() {
    let mut p = machine("", 1);
    assert_eq!(p.parsed_step(Opcodes::Dec, None), Ok(None));
    assert_eq!(p.tape()[0], 255);
    assert_eq!(p.parsed_step(Opcodes::Dec, None), Ok(None));
    assert_eq!(p.tape()[0], 254);
}

#[test]
fn moves_stay_on_the_tape() {
    let mut p = machine("", 2);
    assert_eq!(p.parsed_step(Opcodes::Left, None), Err(Error::TapeBoundsError));
    assert_eq!(p.ap(), 0);
    assert_eq!(p.parsed_step(Opcodes::Right, None), Ok(None));
    assert_eq!(p.ap(), 1);
    assert_eq!(p.parsed_step(Opcodes::Right, None), Err(Error::TapeBoundsError));
    assert_eq!(p.ap(), 1);
    assert_eq!(p.parsed_step(Opcodes::Left, None), Ok(None));
    assert_eq!(p.ap(), 0);
}

#[test]
fn an_empty_tape_has_no_cell() {
    let mut p = machine("", 0);
    for op in [
        Opcodes::Right,
        Opcodes::Left,
        Opcodes::Inc,
        Opcodes::Dec,
        Opcodes::Disp,
        Opcodes::JpZero(0),
        Opcodes::JpNonZero(0),
    ] {
        assert_eq!(p.parsed_step(op, None), Err(Error::TapeBoundsError));
    }
    assert_eq!(p.parsed_step(Opcodes::Read, Some(1)), Err(Error::TapeBoundsError));
    assert_eq!(p.parsed_step(Opcodes::Read, None), Err(Error::InputExhaustedError));
}

#[test]
fn read_stores_and_disp_writes_the_cell() {
    let mut p = machine("", 1);
    assert_eq!(p.parsed_step(Opcodes::Read, Some(65)), Ok(None));
    assert_eq!(p.tape()[0], 65);
    assert_eq!(p.parsed_step(Opcodes::Disp, None), Ok(Some(65)));
    assert_eq!(p.tape()[0], 65);
}

#[test]
fn read_without_input_fails_and_changes_nothing() {
    let mut p = machine("", 1);
    assert_eq!(p.parsed_step(Opcodes::Inc, None), Ok(None));
    assert_eq!(p.parsed_step(Opcodes::Read, None), Err(Error::InputExhaustedError));
    assert_eq!(p.tape()[0], 1);
}

#[test]
fn jumps_follow_the_current_cell() {
    let mut p = machine("[-]", 1);
    assert_eq!(p.parsed_step(Opcodes::JpNonZero(2), None), Ok(None));
    assert_eq!(p.pc(), 0);
    assert_eq!(p.parsed_step(Opcodes::JpZero(2), None), Ok(None));
    assert_eq!(p.pc(), 2);
    assert_eq!(p.parsed_step(Opcodes::Inc, None), Ok(None));
    assert_eq!(p.parsed_step(Opcodes::JpZero(0), None), Ok(None));
    assert_eq!(p.pc(), 2);
    assert_eq!(p.parsed_step(Opcodes::JpNonZero(0), None), Ok(None));
    assert_eq!(p.pc(), 0);
}

#[test]
fn a_loop_on_a_zero_cell_is_skipped() {
    let mut p = machine("[+.>]-", 2);
    let report = p.run(&[], 2);
    assert_eq!(report.stop, Stop::OutOfSteps);
    assert_eq!(p.pc(), 5);
    assert_eq!(p.tape(), &vec![0, 0]);
    let report = p.run(&[], 10);
    assert_eq!(report.stop, Stop::Halted);
    assert_eq!(report.output, Vec::<u8>::new());
    assert_eq!(p.tape(), &vec![255, 0]);
    assert_eq!(p.ap(), 0);
}

#[test]
fn a_loop_on_a_non_zero_cell_is_entered_again() {
    let mut p = machine("+++[.-]", 1);
    let report = p.run(&[], 1000);
    assert_eq!(report.stop, Stop::Halted);
    assert_eq!(report.output, vec![3, 2, 1]);
    assert_eq!(p.tape()[0], 0);
    assert_eq!(p.pc(), 7);
}

#[test]
fn transfer_program_leaves_seven_in_cell_zero() {
    let source = "++>+++++[<+>-]<.";
    let mut p = machine(source, 2);
    let report = p.run(&[], 1_000_000);
    assert_eq!(report.stop, Stop::Halted);
    assert_eq!(p.tape(), &vec![7, 0]);
    assert_eq!(report.output, vec![0x07]);
    assert_eq!(report.consumed, 0);

    let mut q = Processor::with_mode(source, 10, OutputMode::Numeric).unwrap();
    let report = q.run(&[], 1_000_000);
    assert_eq!(report.stop, Stop::Halted);
    assert_eq!(q.tape()[0], 7);
    assert_eq!(report.output, b"0x07\n".to_vec());
}

#[test]
fn transfer_program_needs_two_cells() {
    let mut p = machine("++>+++++[<+>-]<.", 1);
    let report = p.run(&[], 1_000_000);
    assert_eq!(report.stop, Stop::Failed(Error::TapeBoundsError));
    assert_eq!(p.pc(), 3);
    assert_eq!(p.tape(), &vec![2]);
}

#[test]
fn echo_program_writes_its_input() {
    let mut p = machine(",.", 10);
    let report = p.run(&[65], 100);
    assert_eq!(report.stop, Stop::Halted);
    assert_eq!(report.output, b"A".to_vec());
    assert_eq!(report.consumed, 1);

    let mut q = Processor::with_mode(",.", 10, OutputMode::Numeric).unwrap();
    let report = q.run(&[65, 66], 100);
    assert_eq!(report.stop, Stop::Halted);
    assert_eq!(report.output, b"0x41\n".to_vec());
    assert_eq!(report.consumed, 1);
}

#[test]
fn empty_program_halts_at_once() {
    let mut p = machine("only a comment", 10);
    assert!(p.halted());
    let report = p.run(&[1, 2, 3], 100);
    assert_eq!(report.stop, Stop::Halted);
    assert_eq!(report.output, Vec::<u8>::new());
    assert_eq!(report.consumed, 0);
    assert_eq!(p.pc(), 0);
    assert_eq!(p.tape(), &vec![0u8; 10]);
}

#[test]
fn exhausted_input_stops_the_run() {
    let mut p = machine("+.,+.", 10);
    let report = p.run(&[], 100);
    assert_eq!(report.stop, Stop::Failed(Error::InputExhaustedError));
    assert_eq!(report.output, vec![1]);
    assert_eq!(report.consumed, 0);
    assert_eq!(p.tape()[0], 1);
    assert_eq!(p.pc(), 3);
}

#[test]
fn second_read_fails_when_one_byte_is_given() {
    let mut p = machine(",.,.", 10);
    let report = p.run(&[9], 100);
    assert_eq!(report.stop, Stop::Failed(Error::InputExhaustedError));
    assert_eq!(report.output, vec![9]);
    assert_eq!(report.consumed, 1);
}

#[test]
fn moving_left_of_cell_zero_fails() {
    let mut p = machine("+<+", 10);
    let report = p.run(&[], 100);
    assert_eq!(report.stop, Stop::Failed(Error::TapeBoundsError));
    assert_eq!(p.ap(), 0);
    assert_eq!(p.tape()[0], 1);
}

#[test]
fn moving_past_the_last_cell_fails() {
    let mut p = machine(">>>", 3);
    let report = p.run(&[], 100);
    assert_eq!(report.stop, Stop::Failed(Error::TapeBoundsError));
    assert_eq!(p.ap(), 2);
    assert_eq!(p.pc(), 3);
}

#[test]
fn an_endless_loop_uses_up_the_budget() {
    let mut p = machine("+[]", 1);
    let report = p.run(&[], 1001);
    assert_eq!(report.stop, Stop::OutOfSteps);
    assert_eq!(p.tape()[0], 1);
    assert_eq!(p.pc(), 1);
}

#[test]
fn the_budget_counts_cycles() {
    let mut p = machine("+++", 1);
    let report = p.run(&[], 2);
    assert_eq!(report.stop, Stop::OutOfSteps);
    assert_eq!(p.tape()[0], 2);
    let report = p.run(&[], 1);
    assert_eq!(report.stop, Stop::Halted);
    assert_eq!(p.tape()[0], 3);

    let mut q = machine("+", 1);
    assert_eq!(q.run(&[], 0).stop, Stop::OutOfSteps);
    assert_eq!(q.pc(), 0);
}

#[test]
fn cells_wrap_in_a_run() {
    let mut p = machine("-.+.", 1);
    let report = p.run(&[], 10);
    assert_eq!(report.stop, Stop::Halted);
    assert_eq!(report.output, vec![255, 0]);
}

#[test]
fn character_mode_writes_any_byte_as_it_is() {
    assert_eq!(render(OutputMode::Character, 0), vec![0]);
    assert_eq!(render(OutputMode::Character, 65), vec![65]);
    assert_eq!(render(OutputMode::Character, 200), vec![200]);
}

#[test]
fn numeric_mode_writes_two_hex_digits_and_a_line_feed() {
    assert_eq!(render(OutputMode::Numeric, 0), b"0x00\n".to_vec());
    assert_eq!(render(OutputMode::Numeric, 7), b"0x07\n".to_vec());
    assert_eq!(render(OutputMode::Numeric, 0x41), b"0x41\n".to_vec());
    assert_eq!(render(OutputMode::Numeric, 0xab), b"0xab\n".to_vec());
    assert_eq!(render(OutputMode::Numeric, 255), b"0xff\n".to_vec());
    for byte in 0..=255u8 {
        assert_eq!(render(OutputMode::Numeric, byte), format!("{:#04x}\n", byte).into_bytes());
    }
}

#[test]
fn numeric_run_writes_one_line_per_output() {
    let mut p = Processor::with_mode("+.+.", 1, OutputMode::Numeric).unwrap();
    let report = p.run(&[], 10);
    assert_eq!(report.output, b"0x01\n0x02\n".to_vec());
}
