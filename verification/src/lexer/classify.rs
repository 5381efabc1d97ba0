//! Character classes: pure predicates that decide which kind of token a character can begin
//! or continue, and the rule that resolves an operator from one character of lookahead.

use vstd::prelude::*;
use crate::lexer::token::Operator;

verus! {

/// The character that opens and closes a string literal.
pub const QUOTE: char = '"';

/// The character that, inside a string literal, takes the next character with it.
pub const ESCAPE: char = '\\';

/// The decimal point of a float literal.
pub const POINT: char = '.';

/// The character that ends a line.
pub const NEWLINE: char = '\n';

/// A decimal digit, `0` to `9`.
pub open spec fn spec_is_digit(c: char) -> bool {
    '0' <= c <= '9'
}

/// A letter of the Latin alphabet, in either case.
pub open spec fn is_letter(c: char) -> bool {
    'a' <= c <= 'z' || 'A' <= c <= 'Z'
}

/// A character that may begin an identifier: a letter or an underscore.
pub open spec fn spec_is_identifier_start(c: char) -> bool {
    is_letter(c) || c == '_'
}

/// A character that may continue an identifier: a letter, a digit or an underscore.
pub open spec fn spec_is_identifier_continue(c: char) -> bool {
    is_letter(c) || spec_is_digit(c) || c == '_'
}

/// A blank: space, tab, line feed or carriage return.
pub open spec fn spec_is_whitespace(c: char) -> bool {
    c == ' ' || c == '\t' || c == '\n' || c == '\r'
}

/// The character that opens a string literal.
pub open spec fn spec_starts_string(c: char) -> bool {
    c == QUOTE
}

/// A character with which some operator's spelling begins.
pub open spec fn spec_starts_operator(c: char) -> bool {
    c == '>' || c == '<' || c == '=' || c == '!' || c == '+' || c == '-' || c == '/' || c == '*'
        || c == '^' || c == '%'
}

/// A character that may follow the escape character inside a string literal.
pub open spec fn spec_is_escape(c: char) -> bool {
    c == ESCAPE || c == QUOTE || c == '\'' || c == 'n' || c == 't' || c == 'r' || c == '0'
}

/// The operator that begins with `first`, given the character `next` that follows it (if
/// any): of the operators spelled at this place, the longest. A `!` that no `=` follows
/// spells no operator.
pub open spec fn spec_resolve_operator(first: char, next: Option<char>) -> Option<Operator> {
    let paired = next == Some('=');
    if first == '>' {
        Some(if paired { Operator::Geq } else { Operator::Gt })
    } else if first == '<' {
        Some(if paired { Operator::Leq } else { Operator::Lt })
    } else if first == '=' {
        Some(if paired { Operator::Eq } else { Operator::Assign })
    } else if first == '!' {
        if paired { Some(Operator::Neq) } else { None }
    } else if first == '+' {
        Some(Operator::Add)
    } else if first == '-' {
        Some(Operator::Sub)
    } else if first == '/' {
        Some(Operator::Div)
    } else if first == '*' {
        Some(Operator::Mul)
    } else if first == '^' {
        Some(Operator::Pow)
    } else if first == '%' {
        Some(Operator::Mod)
    } else {
        None
    }
}

/// Tells whether `c` is a decimal digit.
#[verifier::when_used_as_spec(spec_is_digit)]
pub fn is_digit(c: char) -> (b: bool)
    ensures
        b == spec_is_digit(c),
{
    '0' <= c && c <= '9'
}

/// Tells whether `c` may begin an identifier.
#[verifier::when_used_as_spec(spec_is_identifier_start)]
pub fn is_identifier_start(c: char) -> (b: bool)
    ensures
        b == spec_is_identifier_start(c),
{
    ('a' <= c && c <= 'z') || ('A' <= c && c <= 'Z') || c == '_'
}

/// Tells whether `c` may continue an identifier.
#[verifier::when_used_as_spec(spec_is_identifier_continue)]
pub fn is_identifier_continue(c: char) -> (b: bool)
    ensures
        b == spec_is_identifier_continue(c),
{
    is_identifier_start(c) || is_digit(c)
}

/// Tells whether `c` is a blank.
#[verifier::when_used_as_spec(spec_is_whitespace)]
pub fn is_whitespace(c: char) -> (b: bool)
    ensures
        b == spec_is_whitespace(c),
{
    c == ' ' || c == '\t' || c == '\n' || c == '\r'
}

/// Tells whether `c` opens a string literal.
#[verifier::when_used_as_spec(spec_starts_string)]
pub fn starts_string(c: char) -> (b: bool)
    ensures
        b == spec_starts_string(c),
{
    c == QUOTE
}

/// Tells whether some operator's spelling begins with `c`.
#[verifier::when_used_as_spec(spec_starts_operator)]
pub fn starts_operator(c: char) -> (b: bool)
    ensures
        b == spec_starts_operator(c),
{
    c == '>' || c == '<' || c == '=' || c == '!' || c == '+' || c == '-' || c == '/' || c == '*'
        || c == '^' || c == '%'
}

/// Tells whether `c` may follow the escape character inside a string literal.
#[verifier::when_used_as_spec(spec_is_escape)]
pub fn is_escape(c: char) -> (b: bool)
    ensures
        b == spec_is_escape(c),
{
    c == ESCAPE || c == QUOTE || c == '\'' || c == 'n' || c == 't' || c == 'r' || c == '0'
}

/// Resolves the operator that begins with `first`, looking one character ahead.
#[verifier::when_used_as_spec(spec_resolve_operator)]
pub fn resolve_operator(first: char, next: Option<char>) -> (op: Option<Operator>)
    ensures
        op == spec_resolve_operator(first, next),
{
    let paired = match next {
        Some(c) => c == '=',
        None => false,
    };
    if first == '>' {
        Some(if paired { Operator::Geq } else { Operator::Gt })
    } else if first == '<' {
        Some(if paired { Operator::Leq } else { Operator::Lt })
    } else if first == '=' {
        Some(if paired { Operator::Eq } else { Operator::Assign })
    } else if first == '!' {
        if paired { Some(Operator::Neq) } else { None }
    } else if first == '+' {
        Some(Operator::Add)
    } else if first == '-' {
        Some(Operator::Sub)
    } else if first == '/' {
        Some(Operator::Div)
    } else if first == '*' {
        Some(Operator::Mul)
    } else if first == '^' {
        Some(Operator::Pow)
    } else if first == '%' {
        Some(Operator::Mod)
    } else {
        None
    }
}

/// Whether the text `window` begins with the spelling of `op`.
pub open spec fn spelled_at(window: Seq<char>, op: Operator) -> bool {
    op.spelling().is_prefix_of(window)
}

/// Maximal munch: the operator that the rule resolves from the first two characters of
/// `window` is spelled at its head, and no operator spelled there is longer. Where the rule
/// resolves none, no operator is spelled there at all.
pub proof fn lemma_maximal_munch(window: Seq<char>, other: Operator)
    requires
        window.len() > 0,
    ensures
        ({
            let next = if window.len() > 1 { Some(window[1]) } else { None };
            match spec_resolve_operator(window[0], next) {
                Some(op) => spelled_at(window, op) && (spelled_at(window, other)
                    ==> other.spelling().len() <= op.spelling().len()),
                None => !spelled_at(window, other),
            }
        }),
{
    let next = if window.len() > 1 { Some(window[1]) } else { None };
    assert(other.spelling().len() >= 1);
    if spelled_at(window, other) {
        assert(other.spelling()[0] == window[0]);
        if other.spelling().len() > 1 {
            assert(other.spelling()[1] == window[1]);
        }
    }
    match spec_resolve_operator(window[0], next) {
        Some(op) => {
            assert(op.spelling() =~= window.subrange(0, op.spelling().len() as int));
        },
        None => {},
    }
}

/// An operator is resolved exactly where a character starts one, but for a `!` alone.
pub proof fn lemma_resolve_starts(first: char, next: Option<char>)
    ensures
        spec_resolve_operator(first, next) is Some ==> spec_starts_operator(first),
        spec_starts_operator(first) && first != '!' ==> spec_resolve_operator(first, next) is Some,
        spec_resolve_operator(first, next) matches Some(op) ==> op.spelling()[0] == first && (
        op.spelling().len() == 2 ==> next == Some(op.spelling()[1])),
{
}

} // verus!
