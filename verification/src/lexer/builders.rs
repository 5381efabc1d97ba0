//! The lexeme builders: each consumes one piece of the text through the cursor and makes
//! the token, or the error, that the piece gives.

use vstd::prelude::*;
use crate::lexer::classify::{
    is_digit, is_escape, resolve_operator, spec_is_digit, spec_is_identifier_start,
    spec_starts_operator, ESCAPE, NEWLINE, POINT, QUOTE,
};
use crate::lexer::cursor::{position_at, Cursor, Position};
use crate::lexer::diagnostics::{LexError, LexErrorKind};
use crate::lexer::grammar::{
    fault_at, has_fraction, lemma_run, number_piece, number_type, operator_piece, run_len,
    span_at, stray_point_piece, string_body, string_piece, text_of, token_at, token_kind,
    word_piece, CharClass, Lexical, PieceKind,
};
use crate::lexer::lexicon::Lexicon;
use crate::lexer::token::{Span, Token, TokenType, TokenTypeView, Type};

verus! {

/// Tells whether the current character belongs to `class`.
fn in_run(cursor: &Cursor, class: CharClass) -> (b: bool)
    requires
        cursor.wf(),
    ensures
        b == (cursor.spec_peek(0) matches Some(c) && class.spec_holds(c)),
{
    match cursor.peek(0) {
        Some(c) => class.holds(c),
        None => false,
    }
}

/// Consumes the longest run of characters of `class` that starts at the current place.
pub fn skip_run(cursor: &mut Cursor, class: CharClass)
    requires
        old(cursor).wf(),
    ensures
        final(cursor).wf(),
        final(cursor).source() == old(cursor).source(),
        final(cursor).offset() == old(cursor).offset() + run_len(
            old(cursor).source(),
            old(cursor).offset(),
            class,
        ),
{
    let ghost src = cursor.source();
    let ghost start = cursor.offset();
    while in_run(cursor, class)
        invariant
            cursor.wf(),
            cursor.source() == src,
            start <= cursor.offset(),
            run_len(src, start, class) == (cursor.offset() - start) + run_len(
                src,
                cursor.offset(),
                class,
            ),
        decreases src.len() - cursor.offset(),
    {
        cursor.advance();
    }
}

/// The span from `start` to the place that the cursor has reached.
fn span_since(cursor: &Cursor, start: Position) -> (span: Span)
    requires
        cursor.wf(),
        start.offset <= cursor.offset(),
        start == position_at(cursor.source(), start.offset as int),
    ensures
        span == span_at(cursor.source(), start.offset as int, (cursor.offset() - start.offset) as nat),
{
    Span {
        line: start.line,
        column: start.column,
        offset: start.offset,
        length: cursor.position().offset - start.offset,
    }
}

/// Builds the token of an identifier or a keyword. Starting from a character that begins an
/// identifier, consumes the identifier characters that follow, then looks the lexeme up in
/// the keyword table of `lexicon`.
pub fn scan_identifier(cursor: &mut Cursor, lexicon: &Lexicon) -> (token: Token)
    requires
        old(cursor).wf(),
        old(cursor).spec_peek(0) matches Some(c) && spec_is_identifier_start(c),
    ensures
        final(cursor).wf(),
        final(cursor).source() == old(cursor).source(),
        ({
            let src = old(cursor).source();
            let piece = word_piece(src, old(cursor).offset());
            &&& final(cursor).offset() == piece.start + piece.len
            &&& token@ == token_at(
                src,
                token_kind(lexicon@.keywords, Lexical::Word, text_of(src, piece)),
                piece.start,
                piece.len,
            )
        }),
{
    let start = cursor.position();
    cursor.advance();
    skip_run(cursor, CharClass::Word);
    let lexeme = cursor.text_since(start.offset);
    let position = span_since(cursor, start);
    let kind = match lexicon.keyword(&lexeme) {
        Some(keyword) => TokenType::Keyword(keyword),
        None => TokenType::Identifier(lexeme.clone()),
    };
    Token { kind, lexeme, position }
}

/// Builds the token of a numeral. Starting from a digit, consumes the digits that follow;
/// where a decimal point and a digit come next, consumes the point and the digits behind it
/// and the literal is a float. A decimal point that no digit follows is left in place.
pub fn scan_number(cursor: &mut Cursor) -> (token: Token)
    requires
        old(cursor).wf(),
        old(cursor).spec_peek(0) matches Some(c) && spec_is_digit(c),
    ensures
        final(cursor).wf(),
        final(cursor).source() == old(cursor).source(),
        ({
            let src = old(cursor).source();
            let piece = number_piece(src, old(cursor).offset());
            &&& final(cursor).offset() == piece.start + piece.len
            &&& token@ == token_at(
                src,
                TokenTypeView::Literal(text_of(src, piece), number_type(src, piece.start)),
                piece.start,
                piece.len,
            )
        }),
{
    let ghost src = cursor.source();
    let ghost at = cursor.offset();
    let start = cursor.position();
    skip_run(cursor, CharClass::Digit);
    proof {
        lemma_run(src, at, CharClass::Digit);
    }
    let fraction = match cursor.peek(0) {
        Some(c) => c == POINT && match cursor.peek(1) {
            Some(d) => is_digit(d),
            None => false,
        },
        None => false,
    };
    assert(fraction == has_fraction(src, at));
    let kind = if fraction {
        cursor.advance();
        skip_run(cursor, CharClass::Digit);
        Type::Float
    } else {
        Type::Integer
    };
    let lexeme = cursor.text_since(start.offset);
    let position = span_since(cursor, start);
    Token { kind: TokenType::Literal(lexeme.clone(), kind), lexeme, position }
}

/// Builds the error of a decimal point that belongs to no float literal: consumes the
/// point and the digits and points that follow it.
pub fn scan_stray_point(cursor: &mut Cursor) -> (error: LexError)
    requires
        old(cursor).wf(),
        old(cursor).spec_peek(0) == Some(POINT),
    ensures
        final(cursor).wf(),
        final(cursor).source() == old(cursor).source(),
        ({
            let src = old(cursor).source();
            let piece = stray_point_piece(src, old(cursor).offset());
            &&& final(cursor).offset() == piece.start + piece.len
            &&& error@ == fault_at(
                src,
                LexErrorKind::InvalidNumericLiteral,
                piece.start,
                piece.len,
            )
        }),
{
    let start = cursor.position();
    cursor.advance();
    skip_run(cursor, CharClass::Numeric);
    let context = cursor.text_since(start.offset);
    let position = span_since(cursor, start);
    LexError { kind: LexErrorKind::InvalidNumericLiteral, position, context }
}

/// Builds the token of an operator, of one character or two. A `!` that no `=` follows is
/// no operator: it is consumed and reported as an unexpected character.
pub fn scan_operator(cursor: &mut Cursor) -> (result: Result<Token, LexError>)
    requires
        old(cursor).wf(),
        old(cursor).spec_peek(0) matches Some(c) && spec_starts_operator(c),
    ensures
        final(cursor).wf(),
        final(cursor).source() == old(cursor).source(),
        ({
            let src = old(cursor).source();
            let piece = operator_piece(src, old(cursor).offset());
            &&& final(cursor).offset() == piece.start + piece.len
            &&& match result {
                Ok(token) => piece.kind matches PieceKind::Lexeme(Lexical::Operator(op))
                    && token@ == token_at(
                    src,
                    TokenTypeView::Operator(op),
                    piece.start,
                    piece.len,
                ),
                Err(error) => piece.kind matches PieceKind::Fault(kind) && error@ == fault_at(
                    src,
                    kind,
                    piece.start,
                    piece.len,
                ),
            }
        }),
{
    let start = cursor.position();
    let resolved = match cursor.peek(0) {
        Some(c) => resolve_operator(c, cursor.peek(1)),
        None => None,
    };
    cursor.advance();
    match resolved {
        Some(op) => {
            if op.width() == 2 {
                cursor.advance();
            }
            let lexeme = cursor.text_since(start.offset);
            let position = span_since(cursor, start);
            Ok(Token { kind: TokenType::Operator(op), lexeme, position })
        },
        None => {
            let context = cursor.text_since(start.offset);
            let position = span_since(cursor, start);
            Err(LexError { kind: LexErrorKind::UnexpectedCharacter, position, context })
        },
    }
}

/// Builds the token of a string literal. Starting from the opening quote, consumes
/// characters up to the closing quote; an escape character takes the character behind it
/// along, so that an escaped quote does not close the literal. A literal that meets a line
/// end or the end of the text before its closing quote is reported as unterminated, from
/// the opening quote up to that place. A closed literal in which the escape character
/// stands before a character that it cannot escape is reported as a whole.
pub fn scan_string(cursor: &mut Cursor) -> (result: Result<Token, LexError>)
    requires
        old(cursor).wf(),
        old(cursor).spec_peek(0) == Some(QUOTE),
    ensures
        final(cursor).wf(),
        final(cursor).source() == old(cursor).source(),
        ({
            let src = old(cursor).source();
            let piece = string_piece(src, old(cursor).offset());
            &&& final(cursor).offset() == piece.start + piece.len
            &&& match result {
                Ok(token) => piece.kind == PieceKind::Lexeme(Lexical::Literal(Type::String))
                    && token@ == token_at(
                    src,
                    TokenTypeView::Literal(text_of(src, piece), Type::String),
                    piece.start,
                    piece.len,
                ),
                Err(error) => piece.kind matches PieceKind::Fault(kind) && error@ == fault_at(
                    src,
                    kind,
                    piece.start,
                    piece.len,
                ),
            }
        }),
{
    let ghost src = cursor.source();
    let ghost at = cursor.offset();
    let ghost body = string_body(src, at + 1);
    let start = cursor.position();
    cursor.advance();
    let mut inside = true;
    let mut closed = false;
    let mut valid = true;
    while inside
        invariant
            cursor.wf(),
            cursor.source() == src,
            at + 1 <= cursor.offset() <= src.len(),
            body == string_body(src, at + 1),
            inside ==> {
                let rest = string_body(src, cursor.offset());
                &&& !closed
                &&& body.len == (cursor.offset() - (at + 1)) + rest.len
                &&& body.closed == rest.closed
                &&& body.valid == (valid && rest.valid)
            },
            !inside ==> {
                &&& closed == body.closed
                &&& closed ==> valid == body.valid
                &&& cursor.offset() == at + 1 + body.len + if closed { 1int } else { 0int }
            },
        decreases src.len() - cursor.offset() + if inside { 1int } else { 0int },
    {
        match cursor.peek(0) {
            None => {
                inside = false;
            },
            Some(c) => {
                if c == QUOTE {
                    cursor.advance();
                    closed = true;
                    inside = false;
                } else if c == NEWLINE {
                    inside = false;
                } else if c == ESCAPE {
                    cursor.advance();
                    match cursor.advance() {
                        Some(escaped) => {
                            if !is_escape(escaped) {
                                valid = false;
                            }
                        },
                        None => {
                            inside = false;
                        },
                    }
                } else {
                    cursor.advance();
                }
            },
        }
    }
    let text = cursor.text_since(start.offset);
    let position = span_since(cursor, start);
    if !closed {
        Err(LexError { kind: LexErrorKind::UnterminatedString, position, context: text })
    } else if !valid {
        Err(LexError { kind: LexErrorKind::InvalidEscapeSequence, position, context: text })
    } else {
        Ok(Token { kind: TokenType::Literal(text.clone(), Type::String), lexeme: text, position })
    }
}

} // verus!
