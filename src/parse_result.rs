//! Source positions, the positioned parse error, and the text that attaches
//! a file name to an error.
use vstd::prelude::*;
use vstd::string::StringExecFns;

use crate::text::{decimal, push_decimal};

verus! {

/// A 1-based (line, column) position in the source text.
#[derive(Debug, Clone, Copy, PartialEq, Eq, Structural)]
pub struct SourceLocation {
    pub line: usize,
    pub column: usize,
}

/// `"<line>:<column>"`.
pub open spec fn location_text(loc: SourceLocation) -> Seq<char> {
    decimal(loc.line as nat) + seq![':'] + decimal(loc.column as nat)
}

impl SourceLocation {
    /// Renders the location as `<line>:<column>`.
    pub fn to_text(&self) -> (r: String)
        ensures
            r@ == location_text(*self),
    {
        let mut s = String::new();
        push_decimal(&mut s, self.line);
        s.push(':');
        push_decimal(&mut s, self.column);
        assert(s@ =~= location_text(*self));
        s
    }
}

/// A failure to parse, with a description and the place where it happened.
#[derive(Debug, Clone)]
pub struct ParseError {
    pub message: String,
    pub location: SourceLocation,
}

/// `"<message> at position <line>:<column>"`.
pub open spec fn parse_error_text(message: Seq<char>, loc: SourceLocation) -> Seq<char> {
    message + " at position "@ + location_text(loc)
}

impl ParseError {
    pub fn new(message: &str, location: SourceLocation) -> (r: ParseError)
        ensures
            r.message@ == message@,
            r.location == location,
    {
        ParseError { message: String::from_str(message), location }
    }

    /// Renders the error as `<message> at position <line>:<column>`.
    pub fn to_text(&self) -> (r: String)
        ensures
            r@ == parse_error_text(self.message@, self.location),
    {
        let mut s = self.message.clone();
        s.append(" at position ");
        let loc = self.location.to_text();
        s.append(loc.as_str());
        s
    }
}

/// What `<str as Debug>::fmt` writes for a string: the string in double
/// quotes, with quotes, backslashes and control characters escaped.
pub uninterp spec fn debug_quoted(s: Seq<char>) -> Seq<char>;

/// Relies on `<str as Debug>::fmt`, reached through `format!("{:?}")`: the
/// quoted form of a string depends on its characters alone.
#[verifier::external_body]
fn quoted(s: &str) -> (r: String)
    ensures
        r@ == debug_quoted(s@),
{
    format!("{:?}", s)
}

/// `"Error with file <quoted name>:\n<error>"`.
pub open spec fn file_context_text(quoted_name: Seq<char>, error: Seq<char>) -> Seq<char> {
    "Error with file "@ + quoted_name + seq![':', '\n'] + error
}

/// Builds the message of an error in the context of a file, from the file
/// name already in its quoted form.
pub fn file_context_message(quoted_name: &str, error: &str) -> (r: String)
    ensures
        r@ == file_context_text(quoted_name@, error@),
{
    let mut s = String::from_str("Error with file ");
    s.append(quoted_name);
    s.push(':');
    s.push('\n');
    s.append(error);
    assert(s@ =~= file_context_text(quoted_name@, error@));
    s
}

/// The message of `error` once the name of the file it concerns is attached.
pub fn in_file_context(file_name: &str, error: &str) -> (r: String)
    ensures
        r@ == file_context_text(debug_quoted(file_name@), error@),
{
    let name = quoted(file_name);
    file_context_message(name.as_str(), error)
}

} // verus!
