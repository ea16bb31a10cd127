//! Translates a `Program` into bytecode in one left-to-right pass.
use vstd::prelude::*;

use crate::ast::{Command, Program};
use crate::bytecode::{CompiledProgram, Instruction, halt_terminated};

verus! {

/// The instructions for one command. A line break is emitted only to close a
/// line that has characters; the counter prefix only before a line's first
/// character.
pub open spec fn step(cmd: Command, at_line_start: bool) -> Seq<Instruction> {
    match cmd {
        Command::Newline => if at_line_start {
            seq![Instruction::IncrementCounter]
        } else {
            seq![Instruction::Newline, Instruction::IncrementCounter]
        },
        Command::Char(c) => if at_line_start {
            seq![Instruction::PrintCounter, Instruction::Char(c)]
        } else {
            seq![Instruction::Char(c)]
        },
    }
}

/// The instructions for `cmds`, starting in the given line state, ending in
/// `Halt`.
pub open spec fn compile_from(cmds: Seq<Command>, at_line_start: bool) -> Seq<Instruction>
    decreases cmds.len(),
{
    if cmds.len() == 0 {
        seq![Instruction::Halt]
    } else {
        step(cmds[0], at_line_start) + compile_from(cmds.drop_first(), cmds[0] is Newline)
    }
}

/// The instructions that a program's commands compile to.
pub open spec fn compiled(cmds: Seq<Command>) -> Seq<Instruction> {
    compile_from(cmds, true)
}

/// `out` is what `compile` makes of `program`.
pub open spec fn compiles_to(program: Program, out: CompiledProgram) -> bool {
    &&& out.initial_counter == 1
    &&& out.instructions@ == compiled(program.commands@)
}

/// Compiled code ends in its only `Halt`.
pub proof fn lemma_compile_from_halt_terminated(cmds: Seq<Command>, at_line_start: bool)
    ensures
        halt_terminated(compile_from(cmds, at_line_start)),
    decreases cmds.len(),
{
    if cmds.len() > 0 {
        lemma_compile_from_halt_terminated(cmds.drop_first(), cmds[0] is Newline);
        let s = step(cmds[0], at_line_start);
        let rest = compile_from(cmds.drop_first(), cmds[0] is Newline);
        assert(forall|i: int| 0 <= i < s.len() ==> !(#[trigger] s[i] is Halt));
        assert forall|i: int| 0 <= i < s.len() + rest.len() - 1 implies !((s + rest)[i] is Halt) by {
            if i >= s.len() {
                assert((s + rest)[i] == rest[i - s.len()]);
            }
        }
    }
}

/// Compiling the same program twice gives instruction sequences that agree
/// element by element, and the same starting counter.
pub proof fn lemma_compile_deterministic(program: Program, a: CompiledProgram, b: CompiledProgram)
    requires
        compiles_to(program, a),
        compiles_to(program, b),
    ensures
        a.initial_counter == b.initial_counter,
        a.instructions@.len() == b.instructions@.len(),
        forall|i: int|
            0 <= i < a.instructions@.len() ==> a.instructions@[i] == b.instructions@[i],
{
}

/// Compiles a program: one pass over its commands, tracking whether the next
/// character starts a line, then a final `Halt`. The counter starts at 1.
pub fn compile(program: Program) -> (r: CompiledProgram)
    ensures
        compiles_to(program, r),
        halt_terminated(r.instructions@),
{
    let ghost cmds = program.commands@;
    let mut instructions: Vec<Instruction> = Vec::new();
    let mut start_of_line = true;
    let mut i: usize = 0;
    assert(cmds.skip(0) =~= cmds);
    assert(instructions@ + compile_from(cmds, true) =~= compiled(cmds));
    while i < program.commands.len()
        invariant
            cmds == program.commands@,
            i <= cmds.len(),
            instructions@ + compile_from(cmds.skip(i as int), start_of_line) == compiled(cmds),
        decreases cmds.len() - i,
    {
        let command = program.commands[i];
        let ghost before = instructions@;
        let ghost old_start = start_of_line;
        assert(cmds.skip(i as int).drop_first() =~= cmds.skip(i as int + 1));
        match command {
            Command::Newline => {
                if !start_of_line {
                    instructions.push(Instruction::Newline);
                }
                instructions.push(Instruction::IncrementCounter);
                start_of_line = true;
            },
            Command::Char(ch) => {
                if start_of_line {
                    instructions.push(Instruction::PrintCounter);
                }
                instructions.push(Instruction::Char(ch));
                start_of_line = false;
            },
        }
        assert(instructions@ =~= before + step(command, old_start));
        assert(instructions@ + compile_from(cmds.skip(i as int + 1), start_of_line) =~= before
            + compile_from(cmds.skip(i as int), old_start));
        i = i + 1;
    }
    assert(cmds.skip(i as int) =~= Seq::<Command>::empty());
    let ghost body = instructions@;
    instructions.push(Instruction::Halt);
    assert(instructions@ =~= body + seq![Instruction::Halt]);
    proof {
        lemma_compile_from_halt_terminated(cmds, true);
    }
    CompiledProgram { initial_counter: 1, instructions }
}

} // verus!
