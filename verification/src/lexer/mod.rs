//! The scanner and its data model.
//!
//! [`scanner::scan`] turns a source text into tokens and errors. [`grammar`] states what it
//! must find, [`laws`] what follows from that for every text.

pub mod builders;
pub mod classify;
pub mod cursor;
pub mod diagnostics;
pub mod grammar;
pub mod laws;
pub mod lexicon;
pub mod scanner;
pub mod token;

pub use cursor::{Cursor, Position};
pub use diagnostics::{Diagnostics, LexError, LexErrorKind};
pub use lexicon::Lexicon;
pub use scanner::{scan, scan_chars, step, Scanned};
pub use token::{Keyword, Operator, Separator, Span, Token, TokenType, Type};
