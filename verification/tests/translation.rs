use tape_machine::source::source_chars;
use tape_machine::translate::{emit, is_instruction_char, link_brackets, translate};
use tape_machine::{Error, Opcodes, Processor};

#[test]
fn every_instruction_character_is_recognised() {
    for c in ['>', '<', '+', '-', '.', ',', '[', ']'] {
        assert!(is_instruction_char(c));
    }
    for c in [' ', '\n', 'a', '0', '(', ')', '{', '}', 'é', '\0'] {
        assert!(!is_instruction_char(c));
    }
}

#[test]
fn source_chars_keeps_every_character_in_order() {
    assert_eq!(source_chars("a[é]\n"), vec!['a', '[', 'é', ']', '\n']);
    assert_eq!(source_chars(""), Vec::<char>::new());
}

#[test]
fn plain_instructions_translate_one_for_one() {
    assert_eq!(
        Processor::parse("><+-.,"),
        Ok(vec![
            Opcodes::Right,
            Opcodes::Left,
            Opcodes::Inc,
            Opcodes::Dec,
            Opcodes::Disp,
            Opcodes::Read,
        ])
    );
}

#[test]
fn a_loop_gets_mutual_targets() {
    assert_eq!(
        Processor::parse("[-]"),
        Ok(vec![Opcodes::JpZero(2), Opcodes::Dec, Opcodes::JpNonZero(0)])
    );
}

#[test]
fn nested_loops_get_their_own_partners() {
    assert_eq!(
        Processor::parse("[[][]]"),
        Ok(vec![
            Opcodes::JpZero(5),
            Opcodes::JpZero(2),
            Opcodes::JpNonZero(1),
            Opcodes::JpZero(4),
            Opcodes::JpNonZero(3),
            Opcodes::JpNonZero(0),
        ])
    );
}

#[test]
fn targets_count_instructions_not_characters() {
    assert_eq!(
        Processor::parse("  [ skip this ] é"),
        Ok(vec![Opcodes::JpZero(1), Opcodes::JpNonZero(0)])
    );
    assert_eq!(
        Processor::parse("a[b[c]d]"),
        Ok(vec![
            Opcodes::JpZero(3),
            Opcodes::JpZero(2),
            Opcodes::JpNonZero(1),
            Opcodes::JpNonZero(0),
        ])
    );
}

#[test]
fn every_jump_of_a_translated_program_is_answered() {
    let program = Processor::parse("+[>,[-<+>]<.[[-]]]++[]").unwrap();
    let mut jumps = 0;
    for (k, op) in program.iter().enumerate() {
        match *op {
            Opcodes::JpZero(t) => {
                assert!(k < t);
                assert_eq!(program[t], Opcodes::JpNonZero(k));
                jumps += 1;
            }
            Opcodes::JpNonZero(t) => {
                assert!(t < k);
                assert_eq!(program[t], Opcodes::JpZero(k));
                jumps += 1;
            }
            _ => {}
        }
    }
    assert_eq!(jumps, 10);
}

#[test]
fn comment_only_source_gives_an_empty_program() {
    assert_eq!(Processor::parse("no instructions here"), Ok(vec![]));
    assert_eq!(Processor::parse(""), Ok(vec![]));
}

#[test]
fn a_lone_close_is_malformed() {
    assert_eq!(Processor::parse("]"), Err(Error::MalformedProgramError));
}

#[test]
fn a_lone_open_is_malformed() {
    assert_eq!(Processor::parse("["), Err(Error::MalformedProgramError));
}

#[test]
fn unbalanced_sources_are_malformed() {
    for source in ["[[]", "[]]", "][", "+[>[-]", "+]-[", "[]][[]", "a]b"] {
        assert_eq!(Processor::parse(source), Err(Error::MalformedProgramError), "{}", source);
        assert!(matches!(Processor::new(source, 10), Err(Error::MalformedProgramError)));
    }
}

#[test]
fn link_brackets_gives_each_bracket_its_partner() {
    let text = source_chars("x[+[-]y]");
    let partner = link_brackets(&text).unwrap();
    assert_eq!(partner.len(), 6);
    assert_eq!(partner[0], 5);
    assert_eq!(partner[5], 0);
    assert_eq!(partner[2], 4);
    assert_eq!(partner[4], 2);
}

#[test]
fn link_brackets_refuses_unbalanced_text() {
    assert_eq!(link_brackets(&source_chars("[")), None);
    assert_eq!(link_brackets(&source_chars("]")), None);
    assert_eq!(link_brackets(&source_chars("[]]")), None);
    assert_eq!(link_brackets(&source_chars("")), Some(vec![]));
}

#[test]
fn emit_uses_the_table() {
    let text = source_chars("[.]");
    let partner = link_brackets(&text).unwrap();
    assert_eq!(
        emit(&text, &partner),
        vec![Opcodes::JpZero(2), Opcodes::Disp, Opcodes::JpNonZero(0)]
    );
}

#[test]
fn translate_agrees_with_parse() {
    let source = "++>+++++[<+>-]<.";
    assert_eq!(translate(&source_chars(source)), Processor::parse(source));
    assert_eq!(translate(&source_chars("[")), Err(Error::MalformedProgramError));
}

#[test]
fn deep_nesting_translates() {
    let depth = 2000;
    let mut source = String::new();
    for _ in 0..depth {
        source.push('[');
    }
    for _ in 0..depth {
        source.push(']');
    }
    let program = Processor::parse(&source).unwrap();
    assert_eq!(program.len(), 2 * depth);
    for k in 0..depth {
        assert_eq!(program[k], Opcodes::JpZero(2 * depth - 1 - k));
        assert_eq!(program[2 * depth - 1 - k], Opcodes::JpNonZero(k));
    }
}
