//! The mathematical model of program text: which characters are instructions,
//! how deeply brackets nest, and which bracket matches which.

use vstd::prelude::*;
use crate::opcodes::Opcodes;

verus! {

/// The eight characters that are instructions. Every other character is a comment.
pub open spec fn is_instruction(c: char) -> bool {
    c == '>' || c == '<' || c == '+' || c == '-' || c == '.' || c == ',' || c == '[' || c == ']'
}

/// The instruction characters of `text`, in order, with everything else removed.
pub open spec fn instructions(text: Seq<char>) -> Seq<char>
    decreases text.len(),
{
    if text.len() == 0 {
        Seq::empty()
    } else if is_instruction(text.last()) {
        instructions(text.drop_last()).push(text.last())
    } else {
        instructions(text.drop_last())
    }
}

/// What one character adds to the nesting depth.
pub open spec fn bracket_weight(c: char) -> int {
    if c == '[' {
        1
    } else if c == ']' {
        -1
    } else {
        0
    }
}

/// The number of `[` minus the number of `]` among the first `n` characters of `s`.
pub open spec fn depth(s: Seq<char>, n: int) -> int
    decreases n,
{
    if n <= 0 || n > s.len() {
        0
    } else {
        depth(s, n - 1) + bracket_weight(s[n - 1])
    }
}

/// Brackets are balanced: no prefix closes more than it opened, and the whole
/// sequence closes everything it opened.
pub open spec fn balanced(s: Seq<char>) -> bool {
    &&& forall|n: int| 0 <= n <= s.len() ==> depth(s, n) >= 0
    &&& depth(s, s.len() as int) == 0
}

/// From position `open` (exclusive) through position `upto`, the depth stays
/// above the depth at `open`: the bracket at `open` has not been closed yet.
pub open spec fn unclosed(s: Seq<char>, open: int, upto: int) -> bool {
    forall|n: int| open < n <= upto ==> depth(s, n) > depth(s, open)
}

/// The `[` at position `open` and the `]` at position `close` belong together:
/// `close` is the first position after `open` at which the depth returns to
/// what it was before `open`.
pub open spec fn is_match(s: Seq<char>, open: int, close: int) -> bool {
    &&& 0 <= open < close < s.len()
    &&& s[open] == '['
    &&& s[close] == ']'
    &&& depth(s, close + 1) == depth(s, open)
    &&& unclosed(s, open, close)
}

/// `op` is the instruction for position `k` of the instruction characters `s`:
/// it stands for the character there, and a jump targets the matching bracket.
pub open spec fn resolved_at(s: Seq<char>, k: int, op: Opcodes) -> bool {
    &&& op.symbol() == s[k]
    &&& match op {
        Opcodes::JpZero(t) => is_match(s, k, t as int),
        Opcodes::JpNonZero(t) => is_match(s, t as int, k),
        _ => true,
    }
}

/// `program` is the resolved form of the instruction characters `s`.
pub open spec fn translates(s: Seq<char>, program: Seq<Opcodes>) -> bool {
    &&& program.len() == s.len()
    &&& forall|k: int| 0 <= k < s.len() ==> resolved_at(s, k, #[trigger] program[k])
}

/// The characters that `program` stands for.
pub open spec fn symbols(program: Seq<Opcodes>) -> Seq<char> {
    Seq::new(program.len(), |k: int| program[k].symbol())
}

/// Every jump of `program` targets the bracket that matches it.
pub open spec fn resolved(program: Seq<Opcodes>) -> bool {
    translates(symbols(program), program)
}

/// The two jumps of every loop target each other: a `[` holds the index of a
/// later `]` that holds the index of that `[`, and the other way round.
pub open spec fn targets_mutual(program: Seq<Opcodes>) -> bool {
    forall|k: int|
        0 <= k < program.len() ==> match #[trigger] program[k] {
            Opcodes::JpZero(t) => k < t < program.len() && program[t as int] == Opcodes::JpNonZero(
                k as usize,
            ),
            Opcodes::JpNonZero(t) => t < k && program[t as int] == Opcodes::JpZero(k as usize),
            _ => true,
        }
}

/// A table that gives, for each bracket among the instruction characters `s`,
/// the position of the bracket that matches it.
pub open spec fn links(s: Seq<char>, partner: Seq<usize>) -> bool {
    &&& partner.len() == s.len()
    &&& forall|k: int|
        0 <= k < s.len() ==> (s[k] == '[' ==> is_match(s, k, #[trigger] partner[k] as int)) && (s[k]
            == ']' ==> is_match(s, partner[k] as int, k))
}

/// Reading one more character of `text` adds it to the instruction characters
/// exactly when it is an instruction.
pub proof fn lemma_instructions_step(text: Seq<char>, i: int)
    requires
        0 <= i < text.len(),
    ensures
        instructions(text.take(i + 1)) == if is_instruction(text[i]) {
            instructions(text.take(i)).push(text[i])
        } else {
            instructions(text.take(i))
        },
{
    assert(text.take(i + 1).drop_last() =~= text.take(i));
}

/// The instruction characters of a prefix of `text` are a prefix of the
/// instruction characters of `text`.
pub proof fn lemma_instructions_prefix(text: Seq<char>, i: int)
    requires
        0 <= i <= text.len(),
    ensures
        instructions(text.take(i)).len() <= instructions(text).len(),
        instructions(text.take(i)) == instructions(text).take(instructions(text.take(i)).len() as int),
    decreases text.len(),
{
    if i == text.len() {
        assert(text.take(i) =~= text);
        assert(instructions(text).take(instructions(text).len() as int) =~= instructions(text));
    } else {
        let shorter = text.drop_last();
        assert(shorter.take(i) =~= text.take(i));
        lemma_instructions_prefix(shorter, i);
        let n = instructions(text.take(i)).len() as int;
        assert(instructions(shorter).take(n) =~= instructions(text).take(n));
    }
}

} // verus!
