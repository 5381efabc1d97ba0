//! The grammar: what a scan must find in a text, stated over sequences of characters.
//!
//! A text is cut into pieces, front to back. Each piece is a run of blanks, a comment, the
//! lexeme of a token, or a span that no rule accepts. The tokens and the errors of a scan
//! are read off the pieces.

use vstd::prelude::*;
use crate::lexer::classify::{
    is_digit, is_identifier_continue, is_whitespace, spec_is_digit, spec_is_escape,
    spec_is_identifier_continue, spec_is_identifier_start, spec_is_whitespace,
    spec_resolve_operator, spec_starts_operator, spec_starts_string, ESCAPE, NEWLINE, POINT, QUOTE,
};
use crate::lexer::cursor::{column_of, line_of};
use crate::lexer::diagnostics::{LexErrorKind, LexErrorView};
use crate::lexer::lexicon::{keyword_of, LexiconView};
use crate::lexer::token::{Operator, Separator, Span, TokenTypeView, TokenView, Type};

verus! {

/// A set of characters that a run is made of.
#[derive(Clone, Copy, Debug, PartialEq, Eq, Structural)]
pub enum CharClass {
    /// Blanks.
    Blank,
    /// The characters that continue an identifier.
    Word,
    /// Decimal digits.
    Digit,
    /// Decimal digits and the decimal point.
    Numeric,
    /// Every character but the line end.
    Inline,
}

impl CharClass {
    /// Whether `c` belongs to the class.
    pub open spec fn spec_holds(self, c: char) -> bool {
        match self {
            CharClass::Blank => spec_is_whitespace(c),
            CharClass::Word => spec_is_identifier_continue(c),
            CharClass::Digit => spec_is_digit(c),
            CharClass::Numeric => spec_is_digit(c) || c == POINT,
            CharClass::Inline => c != NEWLINE,
        }
    }

    /// Tells whether `c` belongs to the class.
    #[verifier::when_used_as_spec(spec_holds)]
    pub fn holds(self, c: char) -> (b: bool)
        ensures
            b == self.spec_holds(c),
    {
        match self {
            CharClass::Blank => is_whitespace(c),
            CharClass::Word => is_identifier_continue(c),
            CharClass::Digit => is_digit(c),
            CharClass::Numeric => is_digit(c) || c == POINT,
            CharClass::Inline => c != NEWLINE,
        }
    }
}

/// The length of the longest run of characters of `class` that starts at offset `from`.
pub open spec fn run_len(src: Seq<char>, from: int, class: CharClass) -> nat
    decreases src.len() - from,
{
    if 0 <= from < src.len() && class.spec_holds(src[from]) {
        1 + run_len(src, from + 1, class)
    } else {
        0
    }
}

/// Whether the digits that start at `at` are followed by a decimal point and a digit.
pub open spec fn has_fraction(src: Seq<char>, at: int) -> bool {
    let point = at + run_len(src, at, CharClass::Digit);
    point + 1 < src.len() && src[point] == POINT && spec_is_digit(src[point + 1])
}

/// The length of the numeral that starts at `at`: its digits and, where a decimal point and
/// a digit follow them, the point and the digits behind it.
pub open spec fn number_len(src: Seq<char>, at: int) -> nat {
    let whole = run_len(src, at, CharClass::Digit);
    if has_fraction(src, at) {
        whole + 1 + run_len(src, at + whole + 1, CharClass::Digit)
    } else {
        whole
    }
}

/// The kind of the numeral that starts at `at`.
pub open spec fn number_type(src: Seq<char>, at: int) -> Type {
    if has_fraction(src, at) {
        Type::Float
    } else {
        Type::Integer
    }
}

/// What lies between the opening quote of a string literal and the place where it ends.
pub struct StringBody {
    /// The number of characters before the place where the body ends.
    pub len: nat,
    /// Whether the body ends at a closing quote, rather than at a line end or at the end of
    /// the text.
    pub closed: bool,
    /// Whether every escape character in the body is followed by a character that it may
    /// escape.
    pub valid: bool,
}

/// The body of a string literal whose first character after the opening quote is at offset
/// `from`. An escape character takes the next character with it, whatever it is.
pub open spec fn string_body(src: Seq<char>, from: int) -> StringBody
    decreases src.len() - from,
{
    if from < 0 || from >= src.len() {
        StringBody { len: 0, closed: false, valid: true }
    } else if src[from] == QUOTE {
        StringBody { len: 0, closed: true, valid: true }
    } else if src[from] == NEWLINE {
        StringBody { len: 0, closed: false, valid: true }
    } else if src[from] == ESCAPE {
        if from + 1 >= src.len() {
            StringBody { len: 1, closed: false, valid: true }
        } else {
            let rest = string_body(src, from + 2);
            StringBody {
                len: 2 + rest.len,
                closed: rest.closed,
                valid: spec_is_escape(src[from + 1]) && rest.valid,
            }
        }
    } else {
        let rest = string_body(src, from + 1);
        StringBody { len: 1 + rest.len, closed: rest.closed, valid: rest.valid }
    }
}

/// What a token is made of, before its text is looked at.
pub enum Lexical {
    /// An identifier or a keyword: the keyword table decides.
    Word,
    Literal(Type),
    Operator(Operator),
    Separator(Separator),
}

/// What a piece of the text is.
pub enum PieceKind {
    /// A run of blanks: skipped.
    Blank,
    /// A comment: skipped.
    Comment,
    /// The lexeme of a token.
    Lexeme(Lexical),
    /// A span that no rule accepts: reported, and skipped.
    Fault(LexErrorKind),
}

/// A piece of the text: `len` characters from offset `start`.
pub struct Piece {
    pub kind: PieceKind,
    pub start: int,
    pub len: nat,
}

/// The piece that starts with the identifier character at `at`: that character and the
/// longest run of identifier characters behind it.
pub open spec fn word_piece(src: Seq<char>, at: int) -> Piece {
    Piece {
        kind: PieceKind::Lexeme(Lexical::Word),
        start: at,
        len: 1 + run_len(src, at + 1, CharClass::Word),
    }
}

/// The piece that starts with the digit at `at`: an integer or a float literal.
pub open spec fn number_piece(src: Seq<char>, at: int) -> Piece {
    Piece {
        kind: PieceKind::Lexeme(Lexical::Literal(number_type(src, at))),
        start: at,
        len: number_len(src, at),
    }
}

/// The piece that starts with a decimal point at `at` that belongs to no float literal: a
/// malformed numeral, made of the point and of the digits and points behind it.
pub open spec fn stray_point_piece(src: Seq<char>, at: int) -> Piece {
    Piece {
        kind: PieceKind::Fault(LexErrorKind::InvalidNumericLiteral),
        start: at,
        len: 1 + run_len(src, at + 1, CharClass::Numeric),
    }
}

/// The piece that starts with the string literal's opening quote at `at`. A literal that
/// is not closed on its line is a fault that ends where the line or the text ends; a
/// closed one with a wrong escape is a fault as a whole.
pub open spec fn string_piece(src: Seq<char>, at: int) -> Piece {
    let body = string_body(src, at + 1);
    if !body.closed {
        Piece { kind: PieceKind::Fault(LexErrorKind::UnterminatedString), start: at, len: 1 + body.len }
    } else if !body.valid {
        Piece {
            kind: PieceKind::Fault(LexErrorKind::InvalidEscapeSequence),
            start: at,
            len: 2 + body.len,
        }
    } else {
        Piece { kind: PieceKind::Lexeme(Lexical::Literal(Type::String)), start: at, len: 2 + body.len }
    }
}

/// The piece that starts with the operator character at `at`. A `!` that no `=` follows is
/// a fault of one character.
pub open spec fn operator_piece(src: Seq<char>, at: int) -> Piece {
    let next = if at + 1 < src.len() { Some(src[at + 1]) } else { None };
    match spec_resolve_operator(src[at], next) {
        Some(op) => Piece {
            kind: PieceKind::Lexeme(Lexical::Operator(op)),
            start: at,
            len: op.spelling().len(),
        },
        None => Piece { kind: PieceKind::Fault(LexErrorKind::UnexpectedCharacter), start: at, len: 1 },
    }
}

/// The piece that starts at offset `at` of `src`, in a language whose comments open with
/// `comment`. The first character decides, the rules tried in this order: blank, identifier,
/// numeral, string, operator, separator, stray decimal point, comment.
pub open spec fn piece_at(src: Seq<char>, comment: Option<char>, at: int) -> Piece
    recommends
        0 <= at < src.len(),
{
    let c = src[at];
    if spec_is_whitespace(c) {
        Piece { kind: PieceKind::Blank, start: at, len: 1 + run_len(src, at + 1, CharClass::Blank) }
    } else if spec_is_identifier_start(c) {
        word_piece(src, at)
    } else if spec_is_digit(c) {
        number_piece(src, at)
    } else if spec_starts_string(c) {
        string_piece(src, at)
    } else if spec_starts_operator(c) {
        operator_piece(src, at)
    } else if Separator::spec_from_char(c) is Some {
        Piece {
            kind: PieceKind::Lexeme(Lexical::Separator(Separator::spec_from_char(c)->0)),
            start: at,
            len: 1,
        }
    } else if c == POINT {
        stray_point_piece(src, at)
    } else if comment == Some(c) {
        Piece { kind: PieceKind::Comment, start: at, len: 1 + run_len(src, at + 1, CharClass::Inline) }
    } else {
        Piece { kind: PieceKind::Fault(LexErrorKind::UnexpectedCharacter), start: at, len: 1 }
    }
}

/// A run stays inside the text, holds only characters of its class, and stops at the first
/// character that is not of the class, or at the end of the text.
pub proof fn lemma_run(src: Seq<char>, from: int, class: CharClass)
    requires
        0 <= from <= src.len(),
    ensures
        from + run_len(src, from, class) <= src.len(),
        forall|i: int| from <= i < from + run_len(src, from, class) ==> class.spec_holds(src[i]),
        from + run_len(src, from, class) < src.len() ==> !class.spec_holds(
            src[from + run_len(src, from, class)],
        ),
    decreases src.len() - from,
{
    if from < src.len() && class.spec_holds(src[from]) {
        lemma_run(src, from + 1, class);
    }
}

/// The body of a string literal stays inside the text. A closed body ends at a quote; one
/// that is not closed ends at a line end or at the end of the text.
pub proof fn lemma_string_body(src: Seq<char>, from: int)
    requires
        0 <= from <= src.len(),
    ensures
        from + string_body(src, from).len <= src.len(),
        string_body(src, from).closed ==> from + string_body(src, from).len < src.len() && src[from
            + string_body(src, from).len] == QUOTE,
        !string_body(src, from).closed ==> from + string_body(src, from).len == src.len() || src[from
            + string_body(src, from).len] == NEWLINE,
    decreases src.len() - from,
{
    if from < src.len() && src[from] != QUOTE && src[from] != NEWLINE {
        if src[from] == ESCAPE {
            if from + 1 < src.len() {
                lemma_string_body(src, from + 2);
            }
        } else {
            lemma_string_body(src, from + 1);
        }
    }
}

/// Progress: every piece holds at least one character, and none runs past the end of the
/// text.
pub proof fn lemma_piece_progress(src: Seq<char>, comment: Option<char>, at: int)
    requires
        0 <= at < src.len(),
    ensures
        piece_at(src, comment, at).start == at,
        piece_at(src, comment, at).len >= 1,
        at + piece_at(src, comment, at).len <= src.len(),
{
    let c = src[at];
    lemma_run(src, at + 1, CharClass::Blank);
    lemma_run(src, at + 1, CharClass::Word);
    lemma_run(src, at + 1, CharClass::Numeric);
    lemma_run(src, at + 1, CharClass::Inline);
    lemma_run(src, at, CharClass::Digit);
    let whole = run_len(src, at, CharClass::Digit);
    if has_fraction(src, at) {
        lemma_run(src, at + whole + 1, CharClass::Digit);
    }
    lemma_string_body(src, at + 1);
}

/// The pieces of `src` from offset `at` to its end, in order.
pub open spec fn pieces_from(src: Seq<char>, comment: Option<char>, at: int) -> Seq<Piece>
    decreases src.len() - at,
    via pieces_from_decreases
{
    if at < 0 || at >= src.len() {
        Seq::empty()
    } else {
        let piece = piece_at(src, comment, at);
        seq![piece] + pieces_from(src, comment, at + piece.len)
    }
}

#[via_fn]
proof fn pieces_from_decreases(src: Seq<char>, comment: Option<char>, at: int) {
    if 0 <= at < src.len() {
        lemma_piece_progress(src, comment, at);
    }
}

/// The pieces of the whole of `src`.
pub open spec fn pieces(src: Seq<char>, comment: Option<char>) -> Seq<Piece> {
    pieces_from(src, comment, 0)
}

/// The text of a piece.
pub open spec fn text_of(src: Seq<char>, piece: Piece) -> Seq<char> {
    src.subrange(piece.start, piece.start + piece.len)
}

/// The span of `len` characters that starts at offset `at`.
pub open spec fn span_at(src: Seq<char>, at: int, len: nat) -> Span {
    Span {
        line: line_of(src, at) as usize,
        column: column_of(src, at) as usize,
        offset: at as usize,
        length: len as usize,
    }
}

/// The kind of the token whose lexeme is `text`. A word is a keyword where the keyword table
/// holds it, and an identifier where it does not.
pub open spec fn token_kind(keywords: Seq<Seq<char>>, lexical: Lexical, text: Seq<char>)
    -> TokenTypeView {
    match lexical {
        Lexical::Word => match keyword_of(keywords, text) {
            Some(k) => TokenTypeView::Keyword(k),
            None => TokenTypeView::Identifier(text),
        },
        Lexical::Literal(kind) => TokenTypeView::Literal(text, kind),
        Lexical::Operator(op) => TokenTypeView::Operator(op),
        Lexical::Separator(s) => TokenTypeView::Separator(s),
    }
}

/// The token of the given kind whose lexeme is the `len` characters from offset `at`.
pub open spec fn token_at(src: Seq<char>, kind: TokenTypeView, at: int, len: nat) -> TokenView {
    TokenView { kind, lexeme: src.subrange(at, at + len), position: span_at(src, at, len) }
}

/// The error of the given kind about the `len` characters from offset `at`.
pub open spec fn fault_at(src: Seq<char>, kind: LexErrorKind, at: int, len: nat) -> LexErrorView {
    LexErrorView { kind, position: span_at(src, at, len), context: src.subrange(at, at + len) }
}

/// The token that a piece gives, if it gives one.
pub open spec fn token_of(src: Seq<char>, keywords: Seq<Seq<char>>, piece: Piece) -> Option<
    TokenView,
> {
    match piece.kind {
        PieceKind::Lexeme(lexical) => Some(
            token_at(
                src,
                token_kind(keywords, lexical, text_of(src, piece)),
                piece.start,
                piece.len,
            ),
        ),
        _ => None,
    }
}

/// The error that a piece gives, if it gives one.
pub open spec fn fault_of(src: Seq<char>, piece: Piece) -> Option<LexErrorView> {
    match piece.kind {
        PieceKind::Fault(kind) => Some(fault_at(src, kind, piece.start, piece.len)),
        _ => None,
    }
}

/// The token that ends every stream: no text, at the end of the source.
pub open spec fn end_of_input(src: Seq<char>) -> TokenView {
    token_at(src, TokenTypeView::EndOfInput, src.len() as int, 0)
}

/// The function that reads tokens off pieces.
pub open spec fn token_reader(src: Seq<char>, keywords: Seq<Seq<char>>) -> spec_fn(Piece) -> Option<
    TokenView,
> {
    |piece: Piece| token_of(src, keywords, piece)
}

/// The function that reads errors off pieces.
pub open spec fn fault_reader(src: Seq<char>) -> spec_fn(Piece) -> Option<LexErrorView> {
    |piece: Piece| fault_of(src, piece)
}

/// The token stream of `src`: the tokens of its pieces, in order, and the end of input.
pub open spec fn token_stream(src: Seq<char>, lexicon: LexiconView) -> Seq<TokenView> {
    pieces(src, lexicon.comment).filter_map(token_reader(src, lexicon.keywords)).push(
        end_of_input(src),
    )
}

/// The errors of `src`: those of its pieces, in order.
pub open spec fn error_list(src: Seq<char>, lexicon: LexiconView) -> Seq<LexErrorView> {
    pieces(src, lexicon.comment).filter_map(fault_reader(src))
}

} // verus!
