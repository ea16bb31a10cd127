//! Turns a source text into a `Program`.
use vstd::prelude::*;
use vstd::string::StringExecFns;

use crate::ast::{Command, Program};
use crate::lexer::{Lexer, located};
use crate::parse_result::ParseError;

verus! {

/// The command that a character of the source stands for.
pub open spec fn command_of(c: char) -> Command {
    if c == '\n' {
        Command::Newline
    } else {
        Command::Char(c)
    }
}

/// The commands of a text: one per character, in order.
pub open spec fn commands_of(s: Seq<char>) -> Seq<Command> {
    s.map_values(|c: char| command_of(c))
}

/// `i` is the index of the first `X` in `s`.
pub open spec fn is_first_x(s: Seq<char>, i: int) -> bool {
    &&& 0 <= i < s.len()
    &&& s[i] == 'X'
    &&& forall|j: int| 0 <= j < i ==> s[j] != 'X'
}

/// Parses a source text: each newline becomes `Command::Newline`, each other
/// character `Command::Char`, and the first `X` is an error at its position.
pub fn parse_file(source: &str) -> (r: Result<Program, ParseError>)
    requires
        source@.len() < usize::MAX,
    ensures
        r is Ok <==> !source@.contains('X'),
        r matches Ok(p) ==> p.commands@ == commands_of(source@),
        r matches Err(e) ==> exists|i: int|
            #![trigger source@[i]]
            is_first_x(source@, i) && located(e.location, source@, i) && e.message@ == "X"@,
{
    let mut lexer = Lexer::new(String::from_str(source));
    let mut commands: Vec<Command> = Vec::new();
    loop
        invariant
            lexer.wf(),
            lexer.text() == source@,
            0 <= lexer.position() <= source@.len(),
            commands@ == commands_of(source@.take(lexer.position())),
            forall|j: int| 0 <= j < lexer.position() ==> source@[j] != 'X',
        ensures
            lexer.position() == source@.len(),
            commands@ == commands_of(source@.take(lexer.position())),
            forall|j: int| 0 <= j < lexer.position() ==> source@[j] != 'X',
        decreases source@.len() - lexer.position(),
    {
        let ghost pos = lexer.position();
        match lexer.next() {
            None => {
                break;
            },
            Some((ch, location)) => {
                if ch == 'X' {
                    assert(is_first_x(source@, pos));
                    return Err(ParseError::new("X", location));
                }
                if ch == '\n' {
                    commands.push(Command::Newline);
                } else {
                    commands.push(Command::Char(ch));
                }
                assert(commands_of(source@.take(pos + 1)) =~= commands_of(source@.take(pos)).push(
                    command_of(ch),
                ));
            },
        }
    }
    assert(source@.take(source@.len() as int) =~= source@);
    Ok(Program { commands })
}

} // verus!
