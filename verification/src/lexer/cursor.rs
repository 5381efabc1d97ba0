//! The source cursor: the input text, a place in it, and the line and column of that place.

use vstd::prelude::*;
use crate::lexer::classify::NEWLINE;

verus! {

/// A place in the source text. Lines, columns and offsets count characters and start at
/// zero.
#[derive(Clone, Copy, Debug, PartialEq, Eq, Structural)]
pub struct Position {
    pub line: usize,
    pub column: usize,
    pub offset: usize,
}

/// The line of the character at offset `at`: the number of line ends before it.
pub open spec fn line_of(src: Seq<char>, at: int) -> nat
    decreases at,
{
    if at <= 0 {
        0
    } else if src[at - 1] == NEWLINE {
        line_of(src, at - 1) + 1
    } else {
        line_of(src, at - 1)
    }
}

/// The column of the character at offset `at`: the number of characters between it and the
/// line end before it, or the start of the text.
pub open spec fn column_of(src: Seq<char>, at: int) -> nat
    decreases at,
{
    if at <= 0 {
        0
    } else if src[at - 1] == NEWLINE {
        0
    } else {
        column_of(src, at - 1) + 1
    }
}

/// The position of the character at offset `at`.
pub open spec fn position_at(src: Seq<char>, at: int) -> Position {
    Position {
        line: line_of(src, at) as usize,
        column: column_of(src, at) as usize,
        offset: at as usize,
    }
}

/// Neither the line nor the column of a place exceeds its offset.
pub proof fn lemma_position_bounds(src: Seq<char>, at: int)
    requires
        0 <= at,
    ensures
        line_of(src, at) <= at,
        column_of(src, at) <= at,
        line_of(src, at) + column_of(src, at) <= at,
    decreases at,
{
    if at > 0 {
        lemma_position_bounds(src, at - 1);
    }
}

/// The column counts back to the start of the line: no line end lies within it, and just
/// before it lies a line end or the start of the text.
pub proof fn lemma_column_reaches_line_start(src: Seq<char>, at: int)
    requires
        0 <= at <= src.len(),
    ensures
        forall|i: int| at - column_of(src, at) <= i < at ==> src[i] != NEWLINE,
        at - column_of(src, at) == 0 || src[at - column_of(src, at) - 1] == NEWLINE,
    decreases at,
{
    if at > 0 {
        lemma_column_reaches_line_start(src, at - 1);
    }
}

/// Lines never decrease along the text, and on one line the column grows with the offset.
pub proof fn lemma_position_monotonic(src: Seq<char>, from: int, to: int)
    requires
        0 <= from <= to,
    ensures
        line_of(src, from) <= line_of(src, to),
        line_of(src, from) == line_of(src, to) ==> column_of(src, to) == column_of(src, from)
            + (to - from),
    decreases to - from,
{
    if from < to {
        lemma_position_monotonic(src, from, to - 1);
    }
}

/// The characters of `text`, in order.
pub fn chars_of(text: &str) -> (chars: Vec<char>)
    ensures
        chars@ == text@,
{
    let mut chars: Vec<char> = Vec::new();
    for c in it: text.chars()
        invariant
            it.seq() == text@,
            chars@ == it.seq().take(it.index()),
    {
        chars.push(c);
    }
    chars
}

/// The input text and the place that the scan has reached in it.
pub struct Cursor {
    source: Vec<char>,
    place: Position,
}

impl Cursor {
    /// The whole input text.
    pub closed spec fn source(&self) -> Seq<char> {
        self.source@
    }

    /// The place that the cursor has reached.
    pub closed spec fn spec_position(&self) -> Position {
        self.place
    }

    /// The number of characters consumed so far.
    pub open spec fn offset(&self) -> int {
        self.spec_position().offset as int
    }

    /// The cursor is inside its text and knows its line and column.
    pub open spec fn wf(&self) -> bool {
        &&& 0 <= self.offset() <= self.source().len()
        &&& self.spec_position() == position_at(self.source(), self.offset())
    }

    /// The character `ahead` places after the current one, or `None` past the end.
    pub open spec fn spec_peek(&self, ahead: usize) -> Option<char> {
        if self.offset() + ahead < self.source().len() {
            Some(self.source()[self.offset() + ahead])
        } else {
            None
        }
    }

    /// Whether every character has been consumed.
    pub open spec fn spec_at_end(&self) -> bool {
        self.offset() >= self.source().len()
    }

    /// A cursor at the start of `source`.
    pub fn new(source: Vec<char>) -> (cursor: Cursor)
        ensures
            cursor.wf(),
            cursor.source() == source@,
            cursor.offset() == 0,
    {
        Cursor { source, place: Position { line: 0, column: 0, offset: 0 } }
    }

    /// Looks `ahead` characters past the current one without consuming anything.
    #[verifier::when_used_as_spec(spec_peek)]
    pub fn peek(&self, ahead: usize) -> (c: Option<char>)
        requires
            self.wf(),
        ensures
            c == self.spec_peek(ahead),
    {
        if ahead < self.source.len() - self.place.offset {
            Some(self.source[self.place.offset + ahead])
        } else {
            None
        }
    }

    /// Consumes the current character and returns it. At the end of the text nothing
    /// changes and `None` is returned.
    pub fn advance(&mut self) -> (c: Option<char>)
        requires
            old(self).wf(),
        ensures
            final(self).wf(),
            final(self).source() == old(self).source(),
            c == old(self).spec_peek(0),
            final(self).offset() == if old(self).spec_at_end() {
                old(self).offset()
            } else {
                old(self).offset() + 1
            },
    {
        if self.place.offset < self.source.len() {
            let c = self.source[self.place.offset];
            proof {
                lemma_position_bounds(self.source@, self.place.offset as int);
            }
            if c == NEWLINE {
                self.place = Position {
                    line: self.place.line + 1,
                    column: 0,
                    offset: self.place.offset + 1,
                };
            } else {
                self.place = Position {
                    line: self.place.line,
                    column: self.place.column + 1,
                    offset: self.place.offset + 1,
                };
            }
            Some(c)
        } else {
            None
        }
    }

    /// The place that the cursor has reached.
    #[verifier::when_used_as_spec(spec_position)]
    pub fn position(&self) -> (p: Position)
        ensures
            p == self.spec_position(),
    {
        self.place
    }

    /// Tells whether every character has been consumed.
    #[verifier::when_used_as_spec(spec_at_end)]
    pub fn at_end(&self) -> (b: bool)
        ensures
            b == self.spec_at_end(),
    {
        self.place.offset >= self.source.len()
    }

    /// The text between offset `start` and the current place.
    pub fn text_since(&self, start: usize) -> (text: String)
        requires
            self.wf(),
            start <= self.offset(),
        ensures
            text@ == self.source().subrange(start as int, self.offset()),
    {
        let mut text = String::new();
        let mut i: usize = start;
        while i < self.place.offset
            invariant
                self.wf(),
                start <= i <= self.place.offset,
                text@ == self.source@.subrange(start as int, i as int),
            decreases self.place.offset - i,
        {
            text.push(self.source[i]);
            i += 1;
        }
        text
    }
}

/// Taken on trust from the documentation of [`std::string::String::push`]: the call
/// appends `c` to the end of the string, so that the string afterwards holds the characters
/// it held before, followed by `c`.
pub assume_specification[ std::string::String::push ](s: &mut std::string::String, c: char)
    ensures
        final(s)@ == old(s)@.push(c),
;

} // verus!
