//! The lexical front end of CimiLang: turns source text into a stream of classified tokens
//! for a parser, and into a list of the spans that it could not classify.
//!
//! The scan is a pure function of the text and of a [`lexer::Lexicon`], which holds what the
//! language defines: its reserved words and its comment marker. It never fails and reads
//! every character exactly once.

pub mod lexer;
