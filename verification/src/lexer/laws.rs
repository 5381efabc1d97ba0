//! What holds of every scan, proved from the grammar.

use vstd::prelude::*;
use crate::lexer::classify::{
    spec_is_digit, spec_is_identifier_continue, spec_is_identifier_start, POINT,
};
use crate::lexer::cursor::{lemma_position_bounds, lemma_position_monotonic};
use crate::lexer::diagnostics::LexErrorView;
use crate::lexer::grammar::{
    end_of_input, error_list, fault_of, fault_reader, has_fraction, lemma_piece_progress,
    lemma_run, number_piece, operator_piece, piece_at, pieces, pieces_from, run_len, text_of,
    token_at, token_of, token_reader, token_stream, CharClass, Lexical, Piece, PieceKind,
};
use crate::lexer::lexicon::{lemma_keyword_of, LexiconView};
use crate::lexer::token::{Keyword, Operator, TokenTypeView, Type};

verus! {

/// The texts of the pieces `cut`, in order.
pub open spec fn texts(src: Seq<char>, cut: Seq<Piece>) -> Seq<Seq<char>> {
    cut.map_values(|piece: Piece| text_of(src, piece))
}

/// The pieces tile the text. Each is the piece that the grammar finds at its start and
/// holds at least one character; the first starts where the cut starts, each next one
/// starts where the one before it ends, and the last ends where the text ends.
pub proof fn lemma_pieces_tile(src: Seq<char>, comment: Option<char>, at: int, i: int)
    requires
        0 <= at <= src.len(),
        0 <= i < pieces_from(src, comment, at).len(),
    ensures
        ({
            let cut = pieces_from(src, comment, at);
            &&& cut[i] == piece_at(src, comment, cut[i].start)
            &&& at <= cut[i].start < src.len()
            &&& cut[i].len >= 1
            &&& cut[i].start + cut[i].len <= src.len()
            &&& i == 0 ==> cut[i].start == at
            &&& i + 1 < cut.len() ==> cut[i + 1].start == cut[i].start + cut[i].len
            &&& i + 1 == cut.len() ==> cut[i].start + cut[i].len == src.len()
        }),
    decreases src.len() - at,
{
    let piece = piece_at(src, comment, at);
    lemma_piece_progress(src, comment, at);
    let rest = pieces_from(src, comment, at + piece.len);
    let cut = pieces_from(src, comment, at);
    assert(cut =~= seq![piece] + rest);
    if i == 0 {
        if rest.len() > 0 {
            lemma_pieces_tile(src, comment, at + piece.len, 0);
        }
    } else {
        lemma_pieces_tile(src, comment, at + piece.len, i - 1);
    }
}

/// The texts of the pieces from `at` on, put together, are the text from `at` on.
pub proof fn lemma_reconstruction_from(src: Seq<char>, comment: Option<char>, at: int)
    requires
        0 <= at <= src.len(),
    ensures
        texts(src, pieces_from(src, comment, at)).flatten() == src.subrange(at, src.len() as int),
    decreases src.len() - at,
{
    let cut = pieces_from(src, comment, at);
    if at == src.len() {
        assert(texts(src, cut) =~= Seq::<Seq<char>>::empty());
        assert(src.subrange(at, src.len() as int) =~= Seq::<char>::empty());
    } else {
        let piece = piece_at(src, comment, at);
        lemma_piece_progress(src, comment, at);
        let rest = pieces_from(src, comment, at + piece.len);
        lemma_reconstruction_from(src, comment, at + piece.len);
        assert(cut =~= seq![piece] + rest);
        assert(texts(src, cut).first() == text_of(src, piece));
        assert(texts(src, cut).drop_first() =~= texts(src, rest));
        assert(src.subrange(at, at + piece.len) + src.subrange(
            at + piece.len,
            src.len() as int,
        ) =~= src.subrange(at, src.len() as int));
    }
}

/// Reconstruction: the text of every piece (the lexeme of each token, each skipped run of
/// blanks, each skipped comment, the span of each error), put together in the order of the
/// scan, is the source text, character for character.
pub proof fn lemma_reconstruction(src: Seq<char>, comment: Option<char>)
    ensures
        texts(src, pieces(src, comment)).flatten() == src,
{
    lemma_reconstruction_from(src, comment, 0);
    assert(src.subrange(0, src.len() as int) =~= src);
}

/// The index in `s` of the element that gives the `k`-th element of `s.filter_map(f)`.
pub open spec fn origin<A, B>(s: Seq<A>, f: spec_fn(A) -> Option<B>, k: int) -> int
    decreases s.len(),
{
    if s.len() == 0 {
        0
    } else if f(s.last()) is Some && k >= s.drop_last().filter_map(f).len() {
        s.len() - 1
    } else {
        origin(s.drop_last(), f, k)
    }
}

/// Every element of `s.filter_map(f)` is what `f` makes of the element of `s` at its
/// origin.
pub proof fn lemma_origin<A, B>(s: Seq<A>, f: spec_fn(A) -> Option<B>, k: int)
    requires
        0 <= k < s.filter_map(f).len(),
    ensures
        0 <= origin(s, f, k) < s.len(),
        f(s[origin(s, f, k)]) == Some(s.filter_map(f)[k]),
    decreases s.len(),
{
    if s.len() > 0 {
        let rest = s.drop_last();
        if k < rest.filter_map(f).len() {
            lemma_origin(rest, f, k);
        }
    }
}

/// `filter_map` keeps the order: a later element has a later origin.
pub proof fn lemma_origin_ordered<A, B>(s: Seq<A>, f: spec_fn(A) -> Option<B>, k: int, l: int)
    requires
        0 <= k < l < s.filter_map(f).len(),
    ensures
        origin(s, f, k) < origin(s, f, l),
    decreases s.len(),
{
    if s.len() > 0 {
        let rest = s.drop_last();
        if l < rest.filter_map(f).len() {
            lemma_origin_ordered(rest, f, k, l);
        } else {
            lemma_origin(rest, f, k);
        }
    }
}

/// The piece that gives the `i`-th token of the stream of `src`.
pub open spec fn token_piece(src: Seq<char>, lexicon: LexiconView, i: int) -> Piece {
    let cut = pieces(src, lexicon.comment);
    cut[origin(cut, token_reader(src, lexicon.keywords), i)]
}

/// The piece that gives the `i`-th error of `src`.
pub open spec fn error_piece(src: Seq<char>, lexicon: LexiconView, i: int) -> Piece {
    let cut = pieces(src, lexicon.comment);
    cut[origin(cut, fault_reader(src), i)]
}

/// Every token but the last is read off a piece of the text: the piece that the grammar
/// finds at the token's offset, which lies inside the text and is a lexeme.
pub proof fn lemma_token_piece(src: Seq<char>, lexicon: LexiconView, i: int)
    requires
        0 <= i < token_stream(src, lexicon).len() - 1,
    ensures
        ({
            let piece = token_piece(src, lexicon, i);
            &&& token_of(src, lexicon.keywords, piece) == Some(token_stream(src, lexicon)[i])
            &&& piece == piece_at(src, lexicon.comment, piece.start)
            &&& piece.kind is Lexeme
            &&& 0 <= piece.start
            &&& piece.len >= 1
            &&& piece.start + piece.len <= src.len()
        }),
{
    let cut = pieces(src, lexicon.comment);
    let reader = token_reader(src, lexicon.keywords);
    lemma_origin(cut, reader, i);
    lemma_pieces_tile(src, lexicon.comment, 0, origin(cut, reader, i));
}

/// Every error is read off a piece of the text: the piece that the grammar finds at the
/// error's offset, which lies inside the text and is a fault.
pub proof fn lemma_error_piece(src: Seq<char>, lexicon: LexiconView, i: int)
    requires
        0 <= i < error_list(src, lexicon).len(),
    ensures
        ({
            let piece = error_piece(src, lexicon, i);
            &&& fault_of(src, piece) == Some(error_list(src, lexicon)[i])
            &&& piece == piece_at(src, lexicon.comment, piece.start)
            &&& piece.kind is Fault
            &&& 0 <= piece.start
            &&& piece.len >= 1
            &&& piece.start + piece.len <= src.len()
        }),
{
    let cut = pieces(src, lexicon.comment);
    let reader = fault_reader(src);
    lemma_origin(cut, reader, i);
    lemma_pieces_tile(src, lexicon.comment, 0, origin(cut, reader, i));
}

/// Pieces further back in the cut lie further back in the text, and do not overlap.
pub proof fn lemma_pieces_apart(src: Seq<char>, comment: Option<char>, i: int, j: int)
    requires
        0 <= i < j < pieces(src, comment).len(),
    ensures
        pieces(src, comment)[i].start + pieces(src, comment)[i].len <= pieces(src, comment)[j].start,
    decreases j - i,
{
    lemma_pieces_tile(src, comment, 0, i);
    if i + 1 < j {
        lemma_pieces_tile(src, comment, 0, i + 1);
        lemma_pieces_apart(src, comment, i + 1, j);
    }
}

/// The stream ends with the end of input, once: its last token is the end-of-input token,
/// which has no text and stands at the end of the source, and no token before it is one.
pub proof fn lemma_end_of_input(src: Seq<char>, lexicon: LexiconView, i: int)
    requires
        0 <= i < token_stream(src, lexicon).len(),
    ensures
        token_stream(src, lexicon).last() == end_of_input(src),
        end_of_input(src).kind == TokenTypeView::EndOfInput,
        end_of_input(src).lexeme.len() == 0,
        src.len() <= usize::MAX ==> end_of_input(src).position.offset == src.len() && end_of_input(
            src,
        ).position.length == 0,
        token_stream(src, lexicon)[i].kind == TokenTypeView::EndOfInput <==> i == token_stream(
            src,
            lexicon,
        ).len() - 1,
{
    if i < token_stream(src, lexicon).len() - 1 {
        lemma_token_piece(src, lexicon, i);
    }
}

/// The lexeme of every token is the source text at the token's position.
pub proof fn lemma_lexeme_is_source_text(src: Seq<char>, lexicon: LexiconView, i: int)
    requires
        src.len() <= usize::MAX,
        0 <= i < token_stream(src, lexicon).len(),
    ensures
        ({
            let token = token_stream(src, lexicon)[i];
            &&& token.position.offset + token.position.length <= src.len()
            &&& token.lexeme == src.subrange(
                token.position.offset as int,
                token.position.offset + token.position.length,
            )
        }),
{
    if i < token_stream(src, lexicon).len() - 1 {
        lemma_token_piece(src, lexicon, i);
    }
}

/// The context of every error is the source text at the error's position, and holds at
/// least one character.
pub proof fn lemma_context_is_source_text(src: Seq<char>, lexicon: LexiconView, i: int)
    requires
        src.len() <= usize::MAX,
        0 <= i < error_list(src, lexicon).len(),
    ensures
        ({
            let error = error_list(src, lexicon)[i];
            &&& error.position.length >= 1
            &&& error.position.offset + error.position.length <= src.len()
            &&& error.context == src.subrange(
                error.position.offset as int,
                error.position.offset + error.position.length,
            )
        }),
{
    lemma_error_piece(src, lexicon, i);
}

/// Tokens come in the order of the text and do not overlap: each starts after the one
/// before it starts, at or after the place where that one ends, and on the same line or a
/// later one.
pub proof fn lemma_tokens_in_order(src: Seq<char>, lexicon: LexiconView, i: int, j: int)
    requires
        src.len() <= usize::MAX,
        0 <= i < j < token_stream(src, lexicon).len(),
    ensures
        ({
            let stream = token_stream(src, lexicon);
            &&& stream[i].position.offset + stream[i].position.length <= stream[j].position.offset
            &&& stream[i].position.offset < stream[j].position.offset
            &&& stream[i].position.line <= stream[j].position.line
        }),
{
    let cut = pieces(src, lexicon.comment);
    let reader = token_reader(src, lexicon.keywords);
    let stream = token_stream(src, lexicon);
    lemma_token_piece(src, lexicon, i);
    lemma_position_bounds(src, stream[i].position.offset as int);
    lemma_position_bounds(src, src.len() as int);
    lemma_position_monotonic(src, token_piece(src, lexicon, i).start, src.len() as int);
    if j < stream.len() - 1 {
        lemma_token_piece(src, lexicon, j);
        lemma_origin_ordered(cut, reader, i, j);
        lemma_origin(cut, reader, i);
        lemma_origin(cut, reader, j);
        lemma_pieces_apart(src, lexicon.comment, origin(cut, reader, i), origin(cut, reader, j));
        lemma_position_bounds(src, token_piece(src, lexicon, j).start);
        lemma_position_monotonic(
            src,
            token_piece(src, lexicon, i).start,
            token_piece(src, lexicon, j).start,
        );
    }
}

/// Errors come in the order of the text and do not overlap.
pub proof fn lemma_errors_in_order(src: Seq<char>, lexicon: LexiconView, i: int, j: int)
    requires
        src.len() <= usize::MAX,
        0 <= i < j < error_list(src, lexicon).len(),
    ensures
        ({
            let errors = error_list(src, lexicon);
            errors[i].position.offset + errors[i].position.length <= errors[j].position.offset
        }),
{
    let cut = pieces(src, lexicon.comment);
    let reader = fault_reader(src);
    lemma_error_piece(src, lexicon, i);
    lemma_error_piece(src, lexicon, j);
    lemma_origin_ordered(cut, reader, i, j);
    lemma_origin(cut, reader, i);
    lemma_origin(cut, reader, j);
    lemma_pieces_apart(src, lexicon.comment, origin(cut, reader, i), origin(cut, reader, j));
}

/// Keywords and identifiers are apart. An identifier token carries its lexeme as its name,
/// and the keyword table does not hold it. A keyword token names the first entry of the
/// table that spells its lexeme. A token whose lexeme the table holds, and which begins as
/// an identifier does, is a keyword, wherever in the text it stands.
pub proof fn lemma_keyword_or_identifier(src: Seq<char>, lexicon: LexiconView, i: int)
    requires
        lexicon.keywords.len() <= usize::MAX,
        0 <= i < token_stream(src, lexicon).len(),
    ensures
        ({
            let token = token_stream(src, lexicon)[i];
            let table = lexicon.keywords;
            &&& token.kind matches TokenTypeView::Identifier(name) ==> name == token.lexeme
                && !table.contains(token.lexeme)
            &&& token.kind matches TokenTypeView::Keyword(Keyword::Entry(k)) ==> k < table.len()
                && table[k as int] == token.lexeme && forall|j: int|
                0 <= j < k ==> table[j] != token.lexeme
            &&& table.contains(token.lexeme) && token.lexeme.len() > 0 && spec_is_identifier_start(
                token.lexeme[0],
            ) ==> token.kind is Keyword
        }),
{
    let token = token_stream(src, lexicon)[i];
    if i < token_stream(src, lexicon).len() - 1 {
        lemma_token_piece(src, lexicon, i);
        lemma_keyword_of(lexicon.keywords, token.lexeme);
        let piece = token_piece(src, lexicon, i);
        assert(token.lexeme[0] == src[piece.start]);
    }
}

/// An operator is displayed as it is written: the scan of an operator's spelling is that
/// operator's token, whose lexeme is the whole spelling, and the end of input. A spelling of
/// two characters is one token, not two.
pub proof fn lemma_operator_round_trip(op: Operator, lexicon: LexiconView)
    ensures
        token_stream(op.spelling(), lexicon) == seq![
            token_at(op.spelling(), TokenTypeView::Operator(op), 0, op.spelling().len()),
            end_of_input(op.spelling()),
        ],
        error_list(op.spelling(), lexicon) == Seq::<LexErrorView>::empty(),
{
    let src = op.spelling();
    let piece = piece_at(src, lexicon.comment, 0);
    assert(piece == operator_piece(src, 0));
    assert(piece.kind == PieceKind::Lexeme(Lexical::Operator(op)));
    assert(piece.len == src.len());
    let cut = pieces(src, lexicon.comment);
    assert(cut =~= seq![piece]) by {
        reveal_with_fuel(pieces_from, 2);
    }
    Seq::lemma_filter_map_singleton(piece, token_reader(src, lexicon.keywords));
    Seq::lemma_filter_map_singleton(piece, fault_reader(src));
    assert(text_of(src, piece) =~= src);
    assert(token_stream(src, lexicon) =~= seq![
        token_at(src, TokenTypeView::Operator(op), 0, src.len()),
        end_of_input(src),
    ]);
}

/// No token shares a character with an error: the spans of a token and of an error lie
/// apart.
pub proof fn lemma_tokens_and_errors_apart(src: Seq<char>, lexicon: LexiconView, i: int, j: int)
    requires
        src.len() <= usize::MAX,
        0 <= i < token_stream(src, lexicon).len(),
        0 <= j < error_list(src, lexicon).len(),
    ensures
        ({
            let token = token_stream(src, lexicon)[i].position;
            let error = error_list(src, lexicon)[j].position;
            token.offset + token.length <= error.offset || error.offset + error.length
                <= token.offset
        }),
{
    let cut = pieces(src, lexicon.comment);
    lemma_error_piece(src, lexicon, j);
    let e = origin(cut, fault_reader(src), j);
    lemma_origin(cut, fault_reader(src), j);
    if i < token_stream(src, lexicon).len() - 1 {
        lemma_token_piece(src, lexicon, i);
        let t = origin(cut, token_reader(src, lexicon.keywords), i);
        lemma_origin(cut, token_reader(src, lexicon.keywords), i);
        if t < e {
            lemma_pieces_apart(src, lexicon.comment, t, e);
        } else if e < t {
            lemma_pieces_apart(src, lexicon.comment, e, t);
        }
    }
}

/// Maximal munch for words: the lexeme of an identifier or a keyword begins with a
/// character that starts an identifier, holds only identifier characters, and cannot be
/// made longer, for behind it the text ends or a character stands that continues no
/// identifier.
pub proof fn lemma_word_is_maximal(src: Seq<char>, lexicon: LexiconView, i: int)
    requires
        src.len() <= usize::MAX,
        0 <= i < token_stream(src, lexicon).len(),
        token_stream(src, lexicon)[i].kind is Identifier || token_stream(src, lexicon)[i].kind
            is Keyword,
    ensures
        ({
            let at = token_stream(src, lexicon)[i].position.offset as int;
            let end = at + token_stream(src, lexicon)[i].position.length;
            &&& at < end <= src.len()
            &&& spec_is_identifier_start(src[at])
            &&& forall|k: int| at <= k < end ==> spec_is_identifier_continue(src[k])
            &&& end < src.len() ==> !spec_is_identifier_continue(src[end])
        }),
{
    lemma_token_piece(src, lexicon, i);
    let piece = token_piece(src, lexicon, i);
    lemma_run(src, piece.start + 1, CharClass::Word);
}

/// Maximal munch for numerals. An integer literal is made of digits, and behind it stands
/// no digit, nor a decimal point with a digit behind it. A float literal is digits, one
/// decimal point and digits again, and behind it stands no digit.
pub proof fn lemma_number_is_maximal(src: Seq<char>, lexicon: LexiconView, i: int)
    requires
        src.len() <= usize::MAX,
        0 <= i < token_stream(src, lexicon).len(),
        token_stream(src, lexicon)[i].kind matches TokenTypeView::Literal(_, kind) && kind
            != Type::String,
    ensures
        ({
            let at = token_stream(src, lexicon)[i].position.offset as int;
            let end = at + token_stream(src, lexicon)[i].position.length;
            &&& at < end <= src.len()
            &&& end < src.len() ==> !spec_is_digit(src[end])
            &&& token_stream(src, lexicon)[i].kind matches TokenTypeView::Literal(_, kind) && match kind {
                Type::Integer => {
                    &&& forall|k: int| at <= k < end ==> spec_is_digit(src[k])
                    &&& !(end + 1 < src.len() && src[end] == POINT && spec_is_digit(src[end + 1]))
                },
                Type::Float => exists|point: int|
                    {
                        &&& at < point < end - 1
                        &&& #[trigger] src[point] == POINT
                        &&& forall|k: int| at <= k < end && k != point ==> spec_is_digit(src[k])
                    },
                _ => false,
            }
        }),
{
    lemma_token_piece(src, lexicon, i);
    let piece = token_piece(src, lexicon, i);
    let at = piece.start;
    assert(piece == number_piece(src, at));
    lemma_run(src, at, CharClass::Digit);
    let whole = run_len(src, at, CharClass::Digit);
    if has_fraction(src, at) {
        lemma_run(src, at + whole + 1, CharClass::Digit);
        assert(src[at + whole] == POINT);
    }
}

} // verus!
