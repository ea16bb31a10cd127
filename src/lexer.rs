//! Splits a source text into characters, each with its position.
use vstd::prelude::*;
use vstd::string::StrSliceExecFns;

use crate::parse_result::SourceLocation;

verus! {

/// The 1-based (line, column) of the character at index `i` of `s`: the line
/// advances and the column returns to 1 after each newline; any other
/// character advances the column.
pub open spec fn line_col(s: Seq<char>, i: int) -> (int, int)
    decreases i,
{
    if i <= 0 {
        (1, 1)
    } else {
        let prev = line_col(s, i - 1);
        if s[i - 1] == '\n' {
            (prev.0 + 1, 1)
        } else {
            (prev.0, prev.1 + 1)
        }
    }
}

/// `loc` is the position of index `i` of `s`.
pub open spec fn located(loc: SourceLocation, s: Seq<char>, i: int) -> bool {
    loc.line == line_col(s, i).0 && loc.column == line_col(s, i).1
}

/// Positions start at 1, and line and column together grow by at most one
/// per character.
pub proof fn lemma_line_col_bounds(s: Seq<char>, i: int)
    requires
        0 <= i,
    ensures
        line_col(s, i).0 >= 1,
        line_col(s, i).1 >= 1,
        line_col(s, i).0 + line_col(s, i).1 <= i + 2,
    decreases i,
{
    if i > 0 {
        lemma_line_col_bounds(s, i - 1);
    }
}

/// Consecutive characters never go back a line, and on one line each is one
/// column to the right of the one before.
pub proof fn lemma_locations_increase(s: Seq<char>, i: int)
    requires
        0 <= i,
        i + 1 < s.len(),
    ensures
        line_col(s, i).0 <= line_col(s, i + 1).0,
        line_col(s, i).0 == line_col(s, i + 1).0 ==> line_col(s, i).1 < line_col(s, i + 1).1,
        line_col(s, i + 1).0 >= 1,
        line_col(s, i + 1).1 >= 1,
{
    lemma_line_col_bounds(s, i + 1);
}

/// A single pass over a source text, yielding each character with its
/// position.
pub struct Lexer {
    contents: String,
    position: usize,
    location: SourceLocation,
}

impl Lexer {
    /// The text being scanned.
    pub closed spec fn text(&self) -> Seq<char> {
        self.contents@
    }

    /// The index of the next character to yield.
    pub closed spec fn position(&self) -> int {
        self.position as int
    }

    pub closed spec fn wf(&self) -> bool {
        &&& self.position <= self.contents@.len() < usize::MAX
        &&& located(self.location, self.contents@, self.position as int)
    }

    pub fn new(contents: String) -> (r: Lexer)
        requires
            contents@.len() < usize::MAX,
        ensures
            r.wf(),
            r.text() == contents@,
            r.position() == 0,
    {
        Lexer { contents, position: 0, location: SourceLocation { line: 1, column: 1 } }
    }

    /// The next character and its position, or `None` once the text is
    /// exhausted.
    pub fn next(&mut self) -> (r: Option<(char, SourceLocation)>)
        requires
            old(self).wf(),
        ensures
            final(self).wf(),
            final(self).text() == old(self).text(),
            old(self).position() < old(self).text().len() ==> {
                &&& r matches Some((ch, loc))
                &&& ch == old(self).text()[old(self).position()]
                &&& located(loc, old(self).text(), old(self).position())
                &&& final(self).position() == old(self).position() + 1
            },
            old(self).position() >= old(self).text().len() ==> {
                &&& r is None
                &&& final(self).position() == old(self).position()
            },
    {
        let len = self.contents.as_str().unicode_len();
        if self.position >= len {
            return None;
        }
        let ch = self.contents.as_str().get_char(self.position);
        let location = self.location;
        proof {
            lemma_line_col_bounds(self.contents@, self.position as int + 1);
        }
        self.position = self.position + 1;
        if ch == '\n' {
            self.location.line = self.location.line + 1;
            self.location.column = 1;
        } else {
            self.location.column = self.location.column + 1;
        }
        Some((ch, location))
    }
}

} // verus!
