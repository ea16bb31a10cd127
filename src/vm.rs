//! A fetch-execute loop over bytecode, with a program counter and a counter
//! register. What it prints is returned as text.
use vstd::prelude::*;

use crate::bytecode::{
    CompiledProgram, Instruction, counter_after, counter_prefix, lemma_counter_after_grows,
    output_of,
};
use crate::text::push_decimal_aligned;

verus! {

pub struct VM {
    instructions: Vec<Instruction>,
    pc: usize,
    counter: usize,
}

impl VM {
    /// The instructions being run.
    pub closed spec fn program(&self) -> Seq<Instruction> {
        self.instructions@
    }

    /// The index of the next instruction to run.
    pub closed spec fn pc(&self) -> int {
        self.pc as int
    }

    /// The value of the counter register.
    pub closed spec fn counter_value(&self) -> int {
        self.counter as int
    }

    /// Run can proceed: an instruction remains, the last one is `Halt`, and
    /// the counter will not exceed `usize::MAX` on the way there.
    pub open spec fn ready(&self) -> bool {
        &&& 0 <= self.pc() < self.program().len()
        &&& self.program().last() is Halt
        &&& counter_after(self.program().skip(self.pc()), self.counter_value()) <= usize::MAX
    }

    pub fn new(program: CompiledProgram) -> (r: VM)
        ensures
            r.program() == program.instructions@,
            r.pc() == 0,
            r.counter_value() == program.initial_counter,
    {
        VM { instructions: program.instructions, pc: 0, counter: program.initial_counter }
    }

    /// The value of the counter register.
    pub fn counter(&self) -> (r: usize)
        ensures
            r == self.counter_value(),
    {
        self.counter
    }

    /// Runs up to and including the first `Halt`, returning what the
    /// instructions print.
    pub fn run(&mut self) -> (out: String)
        requires
            old(self).ready(),
        ensures
            out@ == output_of(old(self).program().skip(old(self).pc()), old(self).counter_value()),
            final(self).counter_value() == counter_after(
                old(self).program().skip(old(self).pc()),
                old(self).counter_value(),
            ),
            final(self).program() == old(self).program(),
    {
        let ghost instrs = self.instructions@;
        let ghost total = output_of(instrs.skip(self.pc as int), self.counter as int);
        let ghost last = counter_after(instrs.skip(self.pc as int), self.counter as int);
        let n = self.instructions.len();
        let mut out = String::new();
        loop
            invariant_except_break
                self.pc < instrs.len(),
                out@ + output_of(instrs.skip(self.pc as int), self.counter as int) == total,
                counter_after(instrs.skip(self.pc as int), self.counter as int) == last,
            invariant
                self.instructions@ == instrs,
                n == instrs.len(),
                0 <= self.pc <= instrs.len(),
                instrs.last() is Halt,
                last <= usize::MAX,
            ensures
                out@ == total,
                self.counter == last,
                self.instructions@ == instrs,
            decreases instrs.len() - self.pc,
        {
            let inst = self.instructions[self.pc];
            let ghost rest = instrs.skip(self.pc as int);
            let ghost before = out@;
            let ghost old_counter = self.counter;
            assert(rest.drop_first() =~= instrs.skip(self.pc as int + 1));
            assert(rest[0] == inst);
            self.pc = self.pc + 1;
            match inst {
                Instruction::Newline => {
                    out.push('\n');
                    assert(out@ =~= before + seq!['\n']);
                },
                Instruction::IncrementCounter => {
                    proof {
                        lemma_counter_after_grows(rest.drop_first(), self.counter + 1);
                    }
                    self.counter = self.counter + 1;
                },
                Instruction::PrintCounter => {
                    push_decimal_aligned(&mut out, self.counter, 4);
                    out.push(':');
                    out.push(' ');
                    out.push(' ');
                    assert(out@ =~= before + counter_prefix(self.counter as int));
                },
                Instruction::Char(ch) => {
                    out.push(ch);
                    assert(out@ =~= before + seq![ch]);
                },
                Instruction::Halt => {
                    assert(out@ =~= total);
                    assert(self.counter == last);
                    break;
                },
            }
            assert(out@ + output_of(instrs.skip(self.pc as int), self.counter as int) =~= before
                + output_of(rest, old_counter as int));
        }
        out
    }
}

} // verus!
