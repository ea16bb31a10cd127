//! The parsed form of a source text.
use vstd::prelude::*;

verus! {

/// One parsed unit of input: a line break or a literal character.
#[derive(Debug, Clone, Copy, PartialEq, Eq, Structural)]
pub enum Command {
    Newline,
    Char(char),
}

/// The commands of a source text, in textual order.
#[derive(Debug, Clone)]
pub struct Program {
    pub commands: Vec<Command>,
}

} // verus!
