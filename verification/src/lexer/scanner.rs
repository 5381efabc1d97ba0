//! The scanner driver: dispatches on the next character, lets a builder consume one piece,
//! and collects tokens and errors until the text is used up.

use vstd::prelude::*;
use crate::lexer::builders::{
    scan_identifier, scan_number, scan_operator, scan_stray_point, scan_string, skip_run,
};
use crate::lexer::classify::{
    is_digit, is_identifier_start, is_whitespace, starts_operator, starts_string, POINT,
};
use crate::lexer::cursor::{chars_of, Cursor};
use crate::lexer::diagnostics::{error_views, Diagnostics, LexError, LexErrorKind, LexErrorView};
use crate::lexer::grammar::{
    end_of_input, error_list, fault_of, fault_reader, lemma_piece_progress, piece_at, pieces,
    pieces_from, span_at, token_of, token_reader, token_stream, CharClass, Piece, PieceKind,
};
use crate::lexer::lexicon::Lexicon;
use crate::lexer::token::{token_views, Separator, Span, Token, TokenType, TokenView};

verus! {

/// What one step of the scanner did.
#[derive(Clone, Debug, PartialEq, Eq)]
pub enum Scanned {
    /// A token was built.
    Token(Token),
    /// A span was consumed that no rule accepts.
    Error(LexError),
    /// Blanks or a comment were consumed.
    Skipped,
    /// Nothing was left to consume.
    Done,
}

/// The mathematical value of a [`Scanned`].
pub enum ScannedView {
    Token(TokenView),
    Error(LexErrorView),
    Skipped,
    Done,
}

impl View for Scanned {
    type V = ScannedView;

    open spec fn view(&self) -> ScannedView {
        match *self {
            Scanned::Token(token) => ScannedView::Token(token@),
            Scanned::Error(error) => ScannedView::Error(error@),
            Scanned::Skipped => ScannedView::Skipped,
            Scanned::Done => ScannedView::Done,
        }
    }
}

/// What a step that consumes `piece` reports.
pub open spec fn outcome_of(src: Seq<char>, keywords: Seq<Seq<char>>, piece: Piece) -> ScannedView {
    match piece.kind {
        PieceKind::Lexeme(_) => ScannedView::Token(token_of(src, keywords, piece)->0),
        PieceKind::Fault(_) => ScannedView::Error(fault_of(src, piece)->0),
        _ => ScannedView::Skipped,
    }
}

/// Consumes one character and returns it as a text, with its span.
fn take_one(cursor: &mut Cursor) -> (taken: (String, Span))
    requires
        old(cursor).wf(),
        !old(cursor).spec_at_end(),
    ensures
        final(cursor).wf(),
        final(cursor).source() == old(cursor).source(),
        final(cursor).offset() == old(cursor).offset() + 1,
        taken.0@ == old(cursor).source().subrange(old(cursor).offset(), old(cursor).offset() + 1),
        taken.1 == span_at(old(cursor).source(), old(cursor).offset(), 1),
{
    let start = cursor.position();
    cursor.advance();
    let text = cursor.text_since(start.offset);
    (text, Span { line: start.line, column: start.column, offset: start.offset, length: 1 })
}

/// One step of the scanner. At the end of the text it reports `Done` and leaves the cursor
/// where it is. Anywhere else it consumes exactly the piece that starts at the cursor, which
/// holds at least one character, and reports what the piece gives.
pub fn step(cursor: &mut Cursor, lexicon: &Lexicon) -> (scanned: Scanned)
    requires
        old(cursor).wf(),
    ensures
        final(cursor).wf(),
        final(cursor).source() == old(cursor).source(),
        old(cursor).spec_at_end() ==> scanned@ == ScannedView::Done && final(cursor).offset() == old(
            cursor,
        ).offset(),
        !old(cursor).spec_at_end() ==> ({
            let src = old(cursor).source();
            let piece = piece_at(src, lexicon@.comment, old(cursor).offset());
            &&& final(cursor).offset() == old(cursor).offset() + piece.len
            &&& piece.len >= 1
            &&& scanned@ == outcome_of(src, lexicon@.keywords, piece)
        }),
{
    let ghost src = cursor.source();
    let ghost at = cursor.offset();
    let c = match cursor.peek(0) {
        Some(c) => c,
        None => {
            return Scanned::Done;
        },
    };
    proof {
        lemma_piece_progress(src, lexicon@.comment, at);
    }
    if is_whitespace(c) {
        cursor.advance();
        skip_run(cursor, CharClass::Blank);
        Scanned::Skipped
    } else if is_identifier_start(c) {
        Scanned::Token(scan_identifier(cursor, lexicon))
    } else if is_digit(c) {
        Scanned::Token(scan_number(cursor))
    } else if starts_string(c) {
        match scan_string(cursor) {
            Ok(token) => Scanned::Token(token),
            Err(error) => Scanned::Error(error),
        }
    } else if starts_operator(c) {
        match scan_operator(cursor) {
            Ok(token) => Scanned::Token(token),
            Err(error) => Scanned::Error(error),
        }
    } else if let Some(separator) = Separator::from_char(c) {
        let (lexeme, position) = take_one(cursor);
        Scanned::Token(Token { kind: TokenType::Separator(separator), lexeme, position })
    } else if c == POINT {
        Scanned::Error(scan_stray_point(cursor))
    } else if lexicon.comment == Some(c) {
        cursor.advance();
        skip_run(cursor, CharClass::Inline);
        Scanned::Skipped
    } else {
        let (context, position) = take_one(cursor);
        Scanned::Error(LexError { kind: LexErrorKind::UnexpectedCharacter, position, context })
    }
}

/// Scans `source`: cuts it into pieces from front to back and returns the tokens of the
/// pieces, closed by the end-of-input token, and the errors of the pieces, each list in the
/// order of the text. The scan never fails: a span that no rule accepts becomes an error
/// and the scan goes on behind it.
pub fn scan_chars(source: Vec<char>, lexicon: &Lexicon) -> (result: (Vec<Token>, Vec<LexError>))
    ensures
        token_views(result.0@) == token_stream(source@, lexicon@),
        error_views(result.1@) == error_list(source@, lexicon@),
        result.0@.len() > 0,
        result.0@.last()@ == end_of_input(source@),
{
    let ghost src = source@;
    let ghost keywords = lexicon@.keywords;
    let ghost comment = lexicon@.comment;
    let mut cursor = Cursor::new(source);
    let mut tokens: Vec<Token> = Vec::new();
    let mut diagnostics = Diagnostics::new();
    let ghost mut read: Seq<Piece> = Seq::empty();
    assert(token_views(tokens@) =~= read.filter_map(token_reader(src, keywords)));
    while !cursor.at_end()
        invariant
            cursor.wf(),
            cursor.source() == src,
            keywords == lexicon@.keywords,
            comment == lexicon@.comment,
            read + pieces_from(src, comment, cursor.offset()) == pieces(src, comment),
            token_views(tokens@) == read.filter_map(token_reader(src, keywords)),
            diagnostics@ == read.filter_map(fault_reader(src)),
        decreases src.len() - cursor.offset(),
    {
        let ghost piece = piece_at(src, comment, cursor.offset());
        let ghost before = read;
        let ghost seen = token_views(tokens@);
        proof {
            read = before.push(piece);
            assert(read.drop_last() =~= before);
            assert(read + pieces_from(src, comment, cursor.offset() + piece.len) =~= before
                + pieces_from(src, comment, cursor.offset()));
        }
        match step(&mut cursor, lexicon) {
            Scanned::Token(token) => {
                tokens.push(token);
                assert(token_views(tokens@) =~= seen.push(token@));
            },
            Scanned::Error(error) => {
                diagnostics.report(error);
            },
            Scanned::Skipped => {},
            Scanned::Done => {},
        }
    }
    let end = cursor.position();
    let ghost seen = token_views(tokens@);
    tokens.push(
        Token {
            kind: TokenType::EndOfInput,
            lexeme: String::new(),
            position: Span { line: end.line, column: end.column, offset: end.offset, length: 0 },
        },
    );
    proof {
        assert(read =~= pieces(src, comment));
        assert(src.subrange(src.len() as int, src.len() as int) =~= Seq::<char>::empty());
        assert(token_views(tokens@) =~= seen.push(tokens@.last()@));
    }
    (tokens, diagnostics.into_errors())
}

/// Scans the text `source`. See [`scan_chars`].
pub fn scan(source: &str, lexicon: &Lexicon) -> (result: (Vec<Token>, Vec<LexError>))
    ensures
        token_views(result.0@) == token_stream(source@, lexicon@),
        error_views(result.1@) == error_list(source@, lexicon@),
        result.0@.len() > 0,
        result.0@.last()@ == end_of_input(source@),
{
    scan_chars(chars_of(source), lexicon)
}

} // verus!
