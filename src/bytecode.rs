//! The instructions of the virtual machine, and what running them produces.
use vstd::prelude::*;

use crate::text::{decimal, right_aligned};

verus! {

/// One operation of the virtual machine.
#[derive(Debug, Clone, Copy, PartialEq, Eq, Structural)]
pub enum Instruction {
    Newline,
    IncrementCounter,
    PrintCounter,
    Char(char),
    Halt,
}

/// A compiled program: its instructions and the counter's starting value.
#[derive(Debug, Clone)]
pub struct CompiledProgram {
    pub initial_counter: usize,
    pub instructions: Vec<Instruction>,
}

/// The prefix printed before a line: the counter right-aligned in four
/// columns, then a colon and two spaces.
pub open spec fn counter_prefix(counter: int) -> Seq<char> {
    right_aligned(decimal(counter as nat), 4) + seq![':', ' ', ' ']
}

/// The text produced by running `instrs` from its first instruction with the
/// counter at `counter`, up to the first `Halt` or the end.
pub open spec fn output_of(instrs: Seq<Instruction>, counter: int) -> Seq<char>
    decreases instrs.len(),
{
    if instrs.len() == 0 {
        Seq::empty()
    } else {
        let rest = instrs.drop_first();
        match instrs[0] {
            Instruction::Newline => seq!['\n'] + output_of(rest, counter),
            Instruction::IncrementCounter => output_of(rest, counter + 1),
            Instruction::PrintCounter => counter_prefix(counter) + output_of(rest, counter),
            Instruction::Char(c) => seq![c] + output_of(rest, counter),
            Instruction::Halt => Seq::empty(),
        }
    }
}

/// The counter once `instrs` has run from its first instruction with the
/// counter at `counter`, up to the first `Halt` or the end.
pub open spec fn counter_after(instrs: Seq<Instruction>, counter: int) -> int
    decreases instrs.len(),
{
    if instrs.len() == 0 {
        counter
    } else {
        let rest = instrs.drop_first();
        match instrs[0] {
            Instruction::IncrementCounter => counter_after(rest, counter + 1),
            Instruction::Halt => counter,
            _ => counter_after(rest, counter),
        }
    }
}

/// The counter values printed while `instrs` runs with the counter at
/// `counter`, up to the first `Halt` or the end.
pub open spec fn printed_counters(instrs: Seq<Instruction>, counter: int) -> Set<int>
    decreases instrs.len(),
{
    if instrs.len() == 0 {
        Set::empty()
    } else {
        let rest = instrs.drop_first();
        match instrs[0] {
            Instruction::IncrementCounter => printed_counters(rest, counter + 1),
            Instruction::PrintCounter => printed_counters(rest, counter).insert(counter),
            Instruction::Halt => Set::empty(),
            _ => printed_counters(rest, counter),
        }
    }
}

/// `Halt` is the last instruction and appears nowhere else.
pub open spec fn halt_terminated(instrs: Seq<Instruction>) -> bool {
    &&& instrs.len() > 0
    &&& instrs.last() is Halt
    &&& forall|i: int| 0 <= i < instrs.len() - 1 ==> !(instrs[i] is Halt)
}

/// Running never lowers the counter.
pub proof fn lemma_counter_after_grows(instrs: Seq<Instruction>, counter: int)
    ensures
        counter <= counter_after(instrs, counter),
    decreases instrs.len(),
{
    if instrs.len() > 0 {
        lemma_counter_after_grows(instrs.drop_first(), counter);
        lemma_counter_after_grows(instrs.drop_first(), counter + 1);
    }
}

} // verus!
