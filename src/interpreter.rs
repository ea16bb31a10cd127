//! The whole pipeline on a source text: parse, compile, run.
use vstd::prelude::*;

use crate::ast::Command;
use crate::bytecode::{Instruction, counter_after, output_of, printed_counters};
use crate::compiler::{compile, compile_from, compiled, step};
use crate::lexer::{line_col, located};
use crate::parse_result::ParseError;
use crate::parser::{command_of, commands_of, is_first_x, parse_file};
use crate::vm::VM;

verus! {

/// The number of newline characters in `s`.
pub open spec fn newline_count(s: Seq<char>) -> nat
    decreases s.len(),
{
    if s.len() == 0 {
        0
    } else {
        (if s[0] == '\n' {
            1nat
        } else {
            0nat
        }) + newline_count(s.drop_first())
    }
}

/// The lines, by number, that hold a character other than a newline at or
/// after index `k` of `s`.
pub open spec fn content_lines_from(s: Seq<char>, k: int) -> Set<int> {
    Set::new(
        |line: int|
            exists|i: int|
                #![trigger s[i]]
                k <= i < s.len() && s[i] != '\n' && line_col(s, i).0 == line,
    )
}

/// The lines, by number, that hold at least one character other than a
/// newline.
pub open spec fn content_lines(s: Seq<char>) -> Set<int> {
    content_lines_from(s, 0)
}

/// What running a source text prints.
pub open spec fn listing(s: Seq<char>) -> Seq<char> {
    output_of(compiled(commands_of(s)), 1)
}

/// Running the instructions of one command and then `rest`.
proof fn lemma_run_step(cmd: Command, at_line_start: bool, rest: Seq<Instruction>, counter: int)
    ensures
        counter_after(step(cmd, at_line_start) + rest, counter) == counter_after(
            rest,
            if cmd is Newline {
                counter + 1
            } else {
                counter
            },
        ),
        printed_counters(step(cmd, at_line_start) + rest, counter) == if cmd is Char
            && at_line_start {
            printed_counters(rest, counter).insert(counter)
        } else {
            printed_counters(
                rest,
                if cmd is Newline {
                    counter + 1
                } else {
                    counter
                },
            )
        },
{
    let first = step(cmd, at_line_start);
    let all = first + rest;
    assert(all[0] == first[0]);
    if first.len() == 2 {
        assert(all.drop_first()[0] == first[1]);
        assert(all.drop_first().drop_first() =~= rest);
        if cmd is Newline {
            assert(counter_after(all.drop_first(), counter) == counter_after(rest, counter + 1));
            assert(printed_counters(all.drop_first(), counter) == printed_counters(
                rest,
                counter + 1,
            ));
        } else {
            assert(counter_after(all.drop_first(), counter) == counter_after(rest, counter));
            assert(printed_counters(all.drop_first(), counter) == printed_counters(rest, counter));
        }
    } else {
        assert(all.drop_first() =~= rest);
    }
}

/// The commands after the first character of a text are those of the rest.
proof fn lemma_commands_drop_first(s: Seq<char>)
    requires
        s.len() > 0,
    ensures
        commands_of(s).len() == s.len(),
        commands_of(s)[0] == command_of(s[0]),
        commands_of(s).drop_first() == commands_of(s.drop_first()),
{
    assert(commands_of(s).drop_first() =~= commands_of(s.drop_first()));
}

/// Running the code for a text raises the counter once per newline.
proof fn lemma_counter_counts_newlines(s: Seq<char>, at_line_start: bool, counter: int)
    ensures
        counter_after(compile_from(commands_of(s), at_line_start), counter) == counter
            + newline_count(s),
        newline_count(s) <= s.len(),
    decreases s.len(),
{
    if s.len() > 0 {
        lemma_commands_drop_first(s);
        let rest = compile_from(commands_of(s.drop_first()), s[0] == '\n');
        lemma_run_step(command_of(s[0]), at_line_start, rest, counter);
        lemma_counter_counts_newlines(
            s.drop_first(),
            s[0] == '\n',
            if s[0] == '\n' {
                counter + 1
            } else {
                counter
            },
        );
    } else {
        assert(commands_of(s) =~= Seq::<Command>::empty());
    }
}

/// The content lines from `k` on are those from `k + 1` on, and the line of
/// index `k` where that index holds a character other than a newline.
proof fn lemma_content_lines_step(s: Seq<char>, k: int)
    requires
        0 <= k < s.len(),
    ensures
        content_lines_from(s, k) == if s[k] != '\n' {
            content_lines_from(s, k + 1).insert(line_col(s, k).0)
        } else {
            content_lines_from(s, k + 1)
        },
{
    let lhs = content_lines_from(s, k);
    let rhs = if s[k] != '\n' {
        content_lines_from(s, k + 1).insert(line_col(s, k).0)
    } else {
        content_lines_from(s, k + 1)
    };
    assert forall|l: int| lhs.contains(l) implies rhs.contains(l) by {
        let i = choose|i: int|
            #![trigger s[i]]
            k <= i < s.len() && s[i] != '\n' && line_col(s, i).0 == l;
        if i > k {
            assert(content_lines_from(s, k + 1).contains(l));
        }
    }
    assert forall|l: int| rhs.contains(l) implies lhs.contains(l) by {
        if s[k] != '\n' && l == line_col(s, k).0 {
            assert(s[k] != '\n');
        } else {
            let i = choose|i: int|
                #![trigger s[i]]
                k + 1 <= i < s.len() && s[i] != '\n' && line_col(s, i).0 == l;
            assert(s[i] != '\n');
        }
    }
    assert(lhs =~= rhs);
}

/// From index `k` on, the printed counters are the content lines, where the
/// line of `k` counts as printed already when `k` does not start a line.
proof fn lemma_printed_lines_from(s: Seq<char>, k: int, at_line_start: bool)
    requires
        0 <= k <= s.len(),
        at_line_start == (k == 0 || s[k - 1] == '\n'),
    ensures
        ({
            let line = line_col(s, k).0;
            let printed = printed_counters(
                compile_from(commands_of(s).skip(k), at_line_start),
                line,
            );
            if at_line_start {
                printed == content_lines_from(s, k)
            } else {
                printed.insert(line) == content_lines_from(s, k).insert(line)
            }
        }),
    decreases s.len() - k,
{
    let line = line_col(s, k).0;
    let cmds = commands_of(s).skip(k);
    if k == s.len() {
        assert(cmds =~= Seq::<Command>::empty());
        assert(content_lines_from(s, k) =~= Set::<int>::empty());
        assert(printed_counters(seq![Instruction::Halt], line) =~= Set::<int>::empty());
    } else {
        assert(cmds.drop_first() =~= commands_of(s).skip(k + 1));
        assert(cmds[0] == command_of(s[k]));
        let rest = compile_from(commands_of(s).skip(k + 1), s[k] == '\n');
        lemma_run_step(command_of(s[k]), at_line_start, rest, line);
        lemma_printed_lines_from(s, k + 1, s[k] == '\n');
        lemma_content_lines_step(s, k);
        let next = line_col(s, k + 1).0;
        if s[k] == '\n' {
            assert(next == line + 1);
        } else {
            assert(next == line);
        }
        let printed = printed_counters(compile_from(cmds, at_line_start), line);
        if at_line_start {
            assert(printed =~= content_lines_from(s, k));
        } else {
            assert(printed.insert(line) =~= content_lines_from(s, k).insert(line));
        }
    }
}

/// For a text with no `X`, whose `n` newlines each raise the counter once,
/// running its code leaves the counter at `1 + n`, and the counters printed are
/// exactly the numbers of the lines that hold a character before their end.
pub proof fn lemma_counter_and_prefixes(text: Seq<char>)
    requires
        !text.contains('X'),
    ensures
        counter_after(compiled(commands_of(text)), 1) == 1 + newline_count(text),
        printed_counters(compiled(commands_of(text)), 1) == content_lines(text),
{
    lemma_counter_counts_newlines(text, true, 1);
    lemma_printed_lines_from(text, 0, true);
    assert(commands_of(text).skip(0) =~= commands_of(text));
}

/// Runs a source text through the pipeline: it is parsed, compiled and run,
/// and what it prints is returned. Parsing fails at the first `X`, and then
/// nothing runs.
pub fn execute_script(source: &str) -> (r: Result<String, ParseError>)
    requires
        source@.len() < usize::MAX,
    ensures
        r is Ok <==> !source@.contains('X'),
        r matches Ok(out) ==> out@ == listing(source@),
        r matches Err(e) ==> exists|i: int|
            #![trigger source@[i]]
            is_first_x(source@, i) && located(e.location, source@, i) && e.message@ == "X"@,
{
    let program = match parse_file(source) {
        Ok(p) => p,
        Err(e) => {
            return Err(e);
        },
    };
    let bytecode = compile(program);
    proof {
        lemma_counter_counts_newlines(source@, true, 1);
        assert(bytecode.instructions@.skip(0) =~= bytecode.instructions@);
    }
    let mut vm = VM::new(bytecode);
    let out = vm.run();
    Ok(out)
}

} // verus!
