//! What holds of every program and every machine.

use vstd::prelude::*;
use crate::opcodes::{Error, Opcodes, Stop};
use crate::semantics::{cycle, next_input, run_of, Machine, Trace};
use crate::syntax::{
    balanced, bracket_weight, depth, is_match, resolved, resolved_at, symbols, targets_mutual,
    translates,
};

verus! {

/// A `[` has at most one matching `]`.
pub proof fn lemma_close_unique(s: Seq<char>, open: int, close1: int, close2: int)
    requires
        is_match(s, open, close1),
        is_match(s, open, close2),
    ensures
        close1 == close2,
{
    if close1 < close2 {
        assert(depth(s, close1 + 1) > depth(s, open));
    } else if close2 < close1 {
        assert(depth(s, close2 + 1) > depth(s, open));
    }
}

/// A `]` has at most one matching `[`.
pub proof fn lemma_open_unique(s: Seq<char>, open1: int, open2: int, close: int)
    requires
        is_match(s, open1, close),
        is_match(s, open2, close),
    ensures
        open1 == open2,
{
    if open1 < open2 {
        assert(depth(s, open2) > depth(s, open1));
    } else if open2 < open1 {
        assert(depth(s, open1) > depth(s, open2));
    }
}

/// A sequence of instruction characters has at most one resolved form.
pub proof fn lemma_translation_unique(s: Seq<char>, p: Seq<Opcodes>, q: Seq<Opcodes>)
    requires
        translates(s, p),
        translates(s, q),
    ensures
        p == q,
{
    assert forall|k: int| 0 <= k < s.len() implies p[k] == q[k] by {
        assert(resolved_at(s, k, p[k]));
        assert(resolved_at(s, k, q[k]));
        match (p[k], q[k]) {
            (Opcodes::JpZero(a), Opcodes::JpZero(b)) => {
                lemma_close_unique(s, k, a as int, b as int);
            },
            (Opcodes::JpNonZero(a), Opcodes::JpNonZero(b)) => {
                lemma_open_unique(s, a as int, b as int, k);
            },
            _ => {},
        }
    }
    assert(p =~= q);
}

/// The resolved form of any instruction characters is a resolved program.
pub proof fn lemma_translation_is_resolved(s: Seq<char>, p: Seq<Opcodes>)
    requires
        translates(s, p),
    ensures
        symbols(p) == s,
        resolved(p),
{
    assert forall|k: int| 0 <= k < s.len() implies symbols(p)[k] == s[k] by {
        assert(resolved_at(s, k, p[k]));
    }
    assert(symbols(p) =~= s);
}

/// In a resolved program the two jumps of a loop target each other: where
/// the instruction at `k` is a jump to `t`, the instruction at `t` is the
/// jump of the other kind back to `k`, and the `[` comes first.
pub proof fn lemma_jump_targets_mutual(p: Seq<Opcodes>, k: int)
    requires
        resolved(p),
        0 <= k < p.len(),
    ensures
        p[k] matches Opcodes::JpZero(t) ==> k < t < p.len() && p[t as int] == Opcodes::JpNonZero(
            k as usize,
        ),
        p[k] matches Opcodes::JpNonZero(t) ==> t < k && p[t as int] == Opcodes::JpZero(k as usize),
{
    let s = symbols(p);
    assert(resolved_at(s, k, p[k]));
    match p[k] {
        Opcodes::JpZero(t) => {
            assert(resolved_at(s, t as int, p[t as int]));
            match p[t as int] {
                Opcodes::JpNonZero(back) => {
                    lemma_open_unique(s, back as int, k, t as int);
                },
                _ => {},
            }
        },
        Opcodes::JpNonZero(t) => {
            assert(resolved_at(s, t as int, p[t as int]));
            match p[t as int] {
                Opcodes::JpZero(forth) => {
                    lemma_close_unique(s, t as int, forth as int, k);
                },
                _ => {},
            }
        },
        _ => {},
    }
}

/// In a resolved program every pair of jumps is mutual.
pub proof fn lemma_resolved_targets_mutual(p: Seq<Opcodes>)
    requires
        resolved(p),
    ensures
        targets_mutual(p),
{
    assert forall|k: int| 0 <= k < p.len() implies (match #[trigger] p[k] {
        Opcodes::JpZero(t) => k < t < p.len() && p[t as int] == Opcodes::JpNonZero(k as usize),
        Opcodes::JpNonZero(t) => t < k && p[t as int] == Opcodes::JpZero(k as usize),
        _ => true,
    }) by {
        lemma_jump_targets_mutual(p, k);
    }
}

/// Walks left from `i` to the `[` that the `]` at `close` closes.
proof fn lemma_find_open(s: Seq<char>, close: int, i: int) -> (open: int)
    requires
        balanced(s),
        0 <= i < close < s.len(),
        s[close] == ']',
        forall|n: int| i < n <= close ==> #[trigger] depth(s, n) > depth(s, close + 1),
    ensures
        is_match(s, open, close),
    decreases i,
{
    let d = depth(s, close + 1);
    assert(depth(s, i + 1) == depth(s, i) + bracket_weight(s[i]));
    assert(depth(s, i + 1) > d);
    if depth(s, i) == d {
        i
    } else {
        if i == 0 {
            assert(depth(s, 0) == 0);
            assert(false);
            0
        } else {
            lemma_find_open(s, close, i - 1)
        }
    }
}

/// Walks right from `j` to the `]` that closes the `[` at `open`.
proof fn lemma_find_close(s: Seq<char>, open: int, j: int) -> (close: int)
    requires
        balanced(s),
        0 <= open < j <= s.len(),
        s[open] == '[',
        forall|n: int| open < n <= j ==> #[trigger] depth(s, n) > depth(s, open),
    ensures
        is_match(s, open, close),
    decreases s.len() - j,
{
    let d = depth(s, open);
    if j == s.len() {
        assert(depth(s, j) > d);
        assert(false);
        0
    } else {
        assert(depth(s, j + 1) == depth(s, j) + bracket_weight(s[j]));
        assert(depth(s, j) > d);
        if depth(s, j + 1) == d {
            j
        } else {
            lemma_find_close(s, open, j + 1)
        }
    }
}

/// Where brackets are balanced, every bracket has its match.
pub proof fn lemma_balanced_has_matches(s: Seq<char>, k: int)
    requires
        balanced(s),
        0 <= k < s.len(),
    ensures
        s[k] == '[' ==> exists|close: int| is_match(s, k, close),
        s[k] == ']' ==> exists|open: int| is_match(s, open, k),
{
    assert(depth(s, k + 1) == depth(s, k) + bracket_weight(s[k]));
    if s[k] == '[' {
        let close = lemma_find_close(s, k, k + 1);
        assert(is_match(s, k, close));
    } else if s[k] == ']' {
        if k == 0 {
            assert(depth(s, 0) == 0);
            assert(false);
        } else {
            let open = lemma_find_open(s, k, k - 1);
            assert(is_match(s, open, k));
        }
    }
}

/// A sequence that holds a `[` that nothing closes, or a `]` that closes
/// nothing, is not balanced.
pub proof fn lemma_unmatched_bracket_unbalanced(s: Seq<char>, k: int)
    requires
        0 <= k < s.len(),
        (s[k] == '[' && forall|close: int| !is_match(s, k, close)) || (s[k] == ']' && forall|
            open: int,
        | !is_match(s, open, k)),
    ensures
        !balanced(s),
{
    if balanced(s) {
        lemma_balanced_has_matches(s, k);
    }
}

/// Every bracket of `s` has its match.
pub open spec fn all_matched(s: Seq<char>) -> bool {
    forall|k: int|
        0 <= k < s.len() ==> (#[trigger] s[k] == '[' ==> exists|close: int| is_match(s, k, close))
            && (s[k] == ']' ==> exists|open: int| is_match(s, open, k))
}

/// Where every `]` has its `[`, no prefix closes more than it opened.
proof fn lemma_matched_closes_keep_depth(s: Seq<char>, n: int)
    requires
        all_matched(s),
        0 <= n <= s.len(),
    ensures
        forall|m: int| 0 <= m <= n ==> depth(s, m) >= 0,
    decreases n,
{
    if n > 0 {
        lemma_matched_closes_keep_depth(s, n - 1);
        assert(depth(s, n) == depth(s, n - 1) + bracket_weight(s[n - 1]));
        if depth(s, n) < 0 {
            let last = n - 1;
            assert(s[last] == ']');
            let open = choose|open: int| is_match(s, open, last);
            assert(depth(s, open) == depth(s, n));
        }
    }
}

/// Walks left from `i` to a `[` that nothing closes, where the depth at the
/// end of `s` is above 0.
proof fn lemma_find_unclosed(s: Seq<char>, i: int) -> (open: int)
    requires
        0 <= i <= s.len(),
        depth(s, s.len() as int) > 0,
        forall|m: int| 0 <= m <= s.len() ==> depth(s, m) >= 0,
        forall|n: int| i < n <= s.len() ==> #[trigger] depth(s, n) > 0,
    ensures
        0 <= open < s.len(),
        s[open] == '[',
        forall|close: int| !is_match(s, open, close),
    decreases i,
{
    if depth(s, i) == 0 {
        assert(i < s.len());
        assert(depth(s, i + 1) == depth(s, i) + bracket_weight(s[i]));
        assert forall|close: int| !is_match(s, i, close) by {
            if is_match(s, i, close) {
                assert(depth(s, close + 1) > 0);
            }
        }
        i
    } else {
        if i == 0 {
            assert(depth(s, 0) == 0);
            assert(false);
            0
        } else {
            lemma_find_unclosed(s, i - 1)
        }
    }
}

/// Brackets are balanced exactly when every bracket has its match.
pub proof fn lemma_balanced_iff_all_matched(s: Seq<char>)
    ensures
        balanced(s) <==> all_matched(s),
{
    if balanced(s) {
        assert forall|k: int| 0 <= k < s.len() implies (#[trigger] s[k] == '[' ==> exists|
            close: int,
        | is_match(s, k, close)) && (s[k] == ']' ==> exists|open: int| is_match(s, open, k)) by {
            lemma_balanced_has_matches(s, k);
        }
    }
    if all_matched(s) {
        lemma_matched_closes_keep_depth(s, s.len() as int);
        if depth(s, s.len() as int) != 0 {
            let open = lemma_find_unclosed(s, s.len() as int);
            assert(s[open] == '[');
            assert(exists|close: int| is_match(s, open, close));
            assert(false);
        }
    }
}

/// A machine at a `[`. With the current cell 0 the loop body is skipped:
/// two cycles later the program counter stands just past the matching `]`,
/// and nothing else has changed. With another value the body is entered:
/// one cycle later the program counter stands on the instruction after the `[`.
pub proof fn lemma_loop_entry(t: Trace, input: Seq<u8>)
    requires
        t.machine.wf(),
        !t.machine.halted(),
        t.machine.on_tape(),
        t.machine.program[t.machine.pc] is JpZero,
    ensures
        ({
            let close = t.machine.program[t.machine.pc]->JpZero_0 as int;
            let (first, failed_first) = cycle(t, input);
            let (second, failed_second) = cycle(first, input);
            &&& failed_first is None
            &&& t.machine.pc < close < t.machine.program.len()
            &&& t.machine.cell() == 0 ==> first == (Trace {
                machine: Machine { pc: close, ..t.machine },
                ..t
            }) && failed_second is None && second == (Trace {
                machine: Machine { pc: close + 1, ..t.machine },
                ..t
            })
            &&& t.machine.cell() != 0 ==> first == (Trace {
                machine: Machine { pc: t.machine.pc + 1, ..t.machine },
                ..t
            })
        }),
{
    lemma_jump_targets_mutual(t.machine.program, t.machine.pc);
}

/// A machine at a `]`. With the current cell not 0 the loop body is entered
/// again: two cycles later the program counter stands on the instruction
/// after the matching `[`, and nothing else has changed. With the cell 0 the
/// loop is left: one cycle later the program counter stands just past the `]`.
pub proof fn lemma_loop_exit(t: Trace, input: Seq<u8>)
    requires
        t.machine.wf(),
        !t.machine.halted(),
        t.machine.on_tape(),
        t.machine.program[t.machine.pc] is JpNonZero,
    ensures
        ({
            let open = t.machine.program[t.machine.pc]->JpNonZero_0 as int;
            let (first, failed_first) = cycle(t, input);
            let (second, failed_second) = cycle(first, input);
            &&& failed_first is None
            &&& 0 <= open < t.machine.pc
            &&& t.machine.cell() != 0 ==> first == (Trace {
                machine: Machine { pc: open, ..t.machine },
                ..t
            }) && failed_second is None && second == (Trace {
                machine: Machine { pc: open + 1, ..t.machine },
                ..t
            })
            &&& t.machine.cell() == 0 ==> first == (Trace {
                machine: Machine { pc: t.machine.pc + 1, ..t.machine },
                ..t
            })
        }),
{
    lemma_jump_targets_mutual(t.machine.program, t.machine.pc);
}

/// One cycle leaves the program, the output mode and the length of the tape
/// as they were, and keeps a well-formed machine well-formed.
pub proof fn lemma_cycle_keeps_shape(t: Trace, input: Seq<u8>)
    requires
        !t.machine.halted(),
    ensures
        ({
            let next = cycle(t, input).0;
            &&& next.machine.program == t.machine.program
            &&& next.machine.mode == t.machine.mode
            &&& next.machine.tape.len() == t.machine.tape.len()
            &&& t.machine.wf() ==> next.machine.wf()
        }),
{
}

/// A run of any length leaves the program, the output mode and the length
/// of the tape as they were, and keeps a well-formed machine well-formed:
/// the address pointer never leaves the tape.
pub proof fn lemma_run_keeps_shape(t: Trace, input: Seq<u8>, budget: nat)
    ensures
        ({
            let end = run_of(t, input, budget).0;
            &&& end.machine.program == t.machine.program
            &&& end.machine.mode == t.machine.mode
            &&& end.machine.tape.len() == t.machine.tape.len()
            &&& t.machine.wf() ==> end.machine.wf()
        }),
    decreases budget,
{
    if !t.machine.halted() && budget > 0 {
        lemma_cycle_keeps_shape(t, input);
        let (next, failure) = cycle(t, input);
        if failure is None {
            lemma_run_keeps_shape(next, input, (budget - 1) as nat);
        }
    }
}

/// A run that stopped for another reason than its budget is the run of
/// every larger budget too: the budget changes nothing but where an
/// unfinished run is cut off.
pub proof fn lemma_budget_irrelevant_once_stopped(
    t: Trace,
    input: Seq<u8>,
    budget: nat,
    larger: nat,
)
    requires
        budget <= larger,
        run_of(t, input, budget).1 != Stop::OutOfSteps,
    ensures
        run_of(t, input, larger) == run_of(t, input, budget),
    decreases budget,
{
    if !t.machine.halted() && budget > 0 {
        let (next, failure) = cycle(t, input);
        if failure is None {
            lemma_budget_irrelevant_once_stopped(
                next,
                input,
                (budget - 1) as nat,
                (larger - 1) as nat,
            );
        }
    }
}

/// A run stops at the first instruction that fails: the failing instruction
/// has been fetched, and the tape, the output and the input taken are what
/// they were before it.
pub proof fn lemma_failure_stops_the_run(t: Trace, input: Seq<u8>, budget: nat)
    requires
        !t.machine.halted(),
        budget > 0,
        cycle(t, input).1 is Some,
    ensures
        run_of(t, input, budget) == (
            Trace { machine: t.machine.fetched(), ..t },
            Stop::Failed(cycle(t, input).1->0),
        ),
{
}

/// A `Read` that finds no input byte left fails with `InputExhaustedError`.
pub proof fn lemma_read_needs_input(t: Trace, input: Seq<u8>)
    requires
        !t.machine.halted(),
        t.machine.program[t.machine.pc] == Opcodes::Read,
        next_input(input, t.consumed) is None,
    ensures
        cycle(t, input).1 == Some(Error::InputExhaustedError),
{
}

} // verus!
