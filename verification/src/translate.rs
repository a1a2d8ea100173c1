//! From program text to resolved instructions, in two linear passes.

use vstd::prelude::*;
use crate::opcodes::{Error, Opcodes};
use crate::laws::{lemma_resolved_targets_mutual, lemma_translation_is_resolved};
use crate::syntax::{balanced, bracket_weight, depth, instructions, is_instruction, is_match, lemma_instructions_prefix, lemma_instructions_step, links, resolved_at, targets_mutual, translates, unclosed};

verus! {

/// Whether `c` is one of the eight instruction characters.
pub fn is_instruction_char(c: char) -> (yes: bool)
    ensures
        yes == is_instruction(c),
{
    c == '>' || c == '<' || c == '+' || c == '-' || c == '.' || c == ',' || c == '[' || c == ']'
}

/// What the first pass knows of position `a` once `seen` instruction
/// characters are read: a `]` has its `[`, and a `[` has its `]` or is still open.
pub open spec fn linked_so_far(s: Seq<char>, a: int, b: int, seen: int) -> bool {
    &&& s[a] == '[' ==> is_match(s, a, b) || unclosed(s, a, seen)
    &&& s[a] == ']' ==> is_match(s, b, a)
}

/// What the first pass knows of the `m`-th bracket on its stack.
pub open spec fn open_at_level(s: Seq<char>, a: int, m: int, seen: int) -> bool {
    &&& 0 <= a < seen
    &&& s[a] == '['
    &&& depth(s, a) == m
    &&& unclosed(s, a, seen)
}

/// The bracket-matching pass: one scan with a stack of the positions of the
/// `[` that are still open. Positions count instruction characters only.
/// Gives the table of partners, or `None` when the brackets are not balanced.
pub fn link_brackets(text: &Vec<char>) -> (table: Option<Vec<usize>>)
    ensures
        balanced(instructions(text@)) <==> table is Some,
        table matches Some(partner) ==> links(instructions(text@), partner@),
{
    let ghost s = instructions(text@);
    let mut partner: Vec<usize> = Vec::new();
    let mut stack: Vec<usize> = Vec::new();
    let mut i: usize = 0;
    proof {
        assert(text@.take(0) =~= Seq::<char>::empty());
        assert(s.take(0) =~= Seq::<char>::empty());
    }
    while i < text.len()
        invariant
            i <= text.len(),
            s == instructions(text@),
            partner.len() <= s.len(),
            instructions(text@.take(i as int)) == s.take(partner.len() as int),
            stack.len() == depth(s, partner.len() as int),
            forall|n: int| 0 <= n <= partner.len() ==> depth(s, n) >= 0,
            forall|m: int|
                0 <= m < stack.len() ==> open_at_level(
                    s,
                    #[trigger] stack[m] as int,
                    m,
                    partner.len() as int,
                ),
            forall|a: int|
                0 <= a < partner.len() ==> linked_so_far(
                    s,
                    a,
                    #[trigger] partner[a] as int,
                    partner.len() as int,
                ),
        decreases text.len() - i,
    {
        let c = text[i];
        let k: usize = partner.len();
        proof {
            lemma_instructions_step(text@, i as int);
            lemma_instructions_prefix(text@, i + 1);
            if is_instruction(c) {
                assert(s.take(k as int).push(c).len() == k + 1);
                assert(s.take(k + 1)[k as int] == c);
                assert(depth(s, k + 1) == depth(s, k as int) + bracket_weight(c));
            }
        }
        if c == '[' {
            stack.push(k);
            partner.push(0);
        } else if c == ']' {
            if stack.len() == 0 {
                return None;
            }
            let a = stack.pop().unwrap();
            let ghost before = partner@;
            assert(open_at_level(s, a as int, stack.len() as int, k as int));
            partner.set(a, k);
            partner.push(a);
            proof {
                assert(is_match(s, a as int, k as int));
                assert forall|b: int| 0 <= b < partner.len() implies linked_so_far(
                    s,
                    b,
                    #[trigger] partner[b] as int,
                    partner.len() as int,
                ) by {
                    if b < k && b != a {
                        assert(linked_so_far(s, b, before[b] as int, k as int));
                        if s[b] == '[' && !is_match(s, b, before[b] as int) {
                            assert(depth(s, k as int) > depth(s, b));
                            if b < a {
                                assert(depth(s, a as int) > depth(s, b));
                            } else {
                                assert(depth(s, b) > depth(s, a as int));
                            }
                        }
                    }
                }
            }
        } else if is_instruction_char(c) {
            partner.push(0);
            proof {
                assert forall|b: int| 0 <= b < partner.len() implies linked_so_far(
                    s,
                    b,
                    #[trigger] partner[b] as int,
                    partner.len() as int,
                ) by {
                    if b < k {
                        assert(linked_so_far(s, b, partner[b] as int, k as int));
                    }
                }
            }
        }
        i += 1;
    }
    proof {
        assert(text@.take(text@.len() as int) =~= text@);
        assert(s.take(partner.len() as int).len() == s.len());
    }
    if stack.len() != 0 {
        return None;
    }
    proof {
        assert forall|k: int| 0 <= k < s.len() implies (s[k] == '[' ==> is_match(
            s,
            k,
            #[trigger] partner[k] as int,
        )) && (s[k] == ']' ==> is_match(s, partner[k] as int, k)) by {
            assert(linked_so_far(s, k, partner[k] as int, partner.len() as int));
            if s[k] == '[' && !is_match(s, k, partner[k] as int) {
                assert(depth(s, s.len() as int) > depth(s, k));
            }
        }
    }
    Some(partner)
}

/// The emission pass: one instruction per instruction character, each jump
/// with the partner that the table gives for its position.
pub fn emit(text: &Vec<char>, partner: &Vec<usize>) -> (program: Vec<Opcodes>)
    requires
        links(instructions(text@), partner@),
    ensures
        translates(instructions(text@), program@),
{
    let ghost s = instructions(text@);
    let mut program: Vec<Opcodes> = Vec::new();
    let mut i: usize = 0;
    proof {
        assert(text@.take(0) =~= Seq::<char>::empty());
        assert(s.take(0) =~= Seq::<char>::empty());
    }
    while i < text.len()
        invariant
            i <= text.len(),
            s == instructions(text@),
            links(s, partner@),
            program.len() <= s.len(),
            instructions(text@.take(i as int)) == s.take(program.len() as int),
            forall|k: int| 0 <= k < program.len() ==> resolved_at(s, k, #[trigger] program[k]),
        decreases text.len() - i,
    {
        let c = text[i];
        let k: usize = program.len();
        proof {
            lemma_instructions_step(text@, i as int);
            lemma_instructions_prefix(text@, i + 1);
            if is_instruction(c) {
                assert(s.take(k as int).push(c).len() == k + 1);
                assert(s.take(k + 1)[k as int] == c);
            }
        }
        if c == '>' {
            program.push(Opcodes::Right);
        } else if c == '<' {
            program.push(Opcodes::Left);
        } else if c == '+' {
            program.push(Opcodes::Inc);
        } else if c == '-' {
            program.push(Opcodes::Dec);
        } else if c == '.' {
            program.push(Opcodes::Disp);
        } else if c == ',' {
            program.push(Opcodes::Read);
        } else if c == '[' {
            program.push(Opcodes::JpZero(partner[k]));
        } else if c == ']' {
            program.push(Opcodes::JpNonZero(partner[k]));
        }
        i += 1;
    }
    proof {
        assert(text@.take(text@.len() as int) =~= text@);
        assert(s.take(program.len() as int).len() == s.len());
    }
    program
}

/// Resolves the characters of a program: succeeds exactly when the brackets
/// among them are balanced, and then gives the one program that stands for
/// the instruction characters with every jump aimed at its matching bracket.
pub fn translate(text: &Vec<char>) -> (outcome: Result<Vec<Opcodes>, Error>)
    ensures
        balanced(instructions(text@)) <==> outcome is Ok,
        outcome matches Ok(program) ==> translates(instructions(text@), program@)
            && targets_mutual(program@),
        outcome matches Err(e) ==> e == Error::MalformedProgramError,
{
    match link_brackets(text) {
        Some(partner) => {
            let program = emit(text, &partner);
            proof {
                lemma_translation_is_resolved(instructions(text@), program@);
                lemma_resolved_targets_mutual(program@);
            }
            Ok(program)
        },
        None => Err(Error::MalformedProgramError),
    }
}

} // verus!
