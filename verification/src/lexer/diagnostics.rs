//! Lexical errors and the collector that keeps them in the order in which they were found.

use vstd::prelude::*;
use crate::lexer::token::Span;

verus! {

/// What went wrong with a span of source text.
#[derive(Clone, Copy, Debug, PartialEq, Eq, Structural)]
pub enum LexErrorKind {
    UnexpectedCharacter,
    UnterminatedString,
    InvalidNumericLiteral,
    InvalidEscapeSequence,
}

/// A span of source text that could not be made into a token. It is recorded and the scan
/// goes on behind it.
#[derive(Clone, Debug, PartialEq, Eq)]
pub struct LexError {
    pub kind: LexErrorKind,
    pub position: Span,
    pub context: String,
}

/// The mathematical value of a [`LexError`].
pub struct LexErrorView {
    pub kind: LexErrorKind,
    pub position: Span,
    pub context: Seq<char>,
}

impl View for LexError {
    type V = LexErrorView;

    open spec fn view(&self) -> LexErrorView {
        LexErrorView { kind: self.kind, position: self.position, context: self.context@ }
    }
}

/// The mathematical values of a sequence of errors.
pub open spec fn error_views(errors: Seq<LexError>) -> Seq<LexErrorView> {
    errors.map_values(|error: LexError| error@)
}

/// The errors of one scan, oldest first.
pub struct Diagnostics {
    errors: Vec<LexError>,
}

impl View for Diagnostics {
    type V = Seq<LexErrorView>;

    closed spec fn view(&self) -> Seq<LexErrorView> {
        error_views(self.errors@)
    }
}

impl Diagnostics {
    /// A collector that holds no error.
    pub fn new() -> (diagnostics: Diagnostics)
        ensures
            diagnostics@ == Seq::<LexErrorView>::empty(),
    {
        Diagnostics { errors: Vec::new() }
    }

    /// Records `error` behind the errors already held.
    pub fn report(&mut self, error: LexError)
        ensures
            final(self)@ == old(self)@.push(error@),
    {
        self.errors.push(error);
        assert(self@ =~= old(self)@.push(error@));
    }

    /// The number of errors held.
    pub fn len(&self) -> (n: usize)
        ensures
            n == self@.len(),
    {
        self.errors.len()
    }

    /// Tells whether no error is held.
    pub fn is_empty(&self) -> (b: bool)
        ensures
            b == (self@.len() == 0),
    {
        self.errors.len() == 0
    }

    /// Hands the errors over, oldest first.
    pub fn into_errors(self) -> (errors: Vec<LexError>)
        ensures
            error_views(errors@) == self@,
    {
        self.errors
    }
}

} // verus!
