//! Tokens: what the scanner hands to a parser.

use vstd::prelude::*;

verus! {

/// A reserved word. The set of reserved words belongs to the language, not to the scanner: a
/// keyword is named by the index of its entry in the keyword table of the lexicon that the
/// scan was given.
#[derive(Clone, Copy, Debug, PartialEq, Eq, Structural)]
pub enum Keyword {
    Entry(usize),
}

/// The operators of the language.
#[derive(Clone, Copy, Debug, PartialEq, Eq, Structural)]
pub enum Operator {
    Gt,
    Lt,
    Geq,
    Leq,
    Eq,
    Neq,
    Add,
    Sub,
    Div,
    Mul,
    Pow,
    Mod,
    Assign,
}

/// Structural punctuation. No separator is spelled with a character that an operator uses.
#[derive(Clone, Copy, Debug, PartialEq, Eq, Structural)]
pub enum Separator {
    LeftParen,
    RightParen,
    LeftBrace,
    RightBrace,
    Comma,
    Semicolon,
}

/// The kind of a literal. The scanner keeps a literal's text as written and never computes
/// its value. It makes integers, floats and strings; `Boolean` is for a later stage, which
/// knows the words that stand for truth values, to make of a word.
#[derive(Clone, Copy, Debug, PartialEq, Eq, Structural)]
pub enum Type {
    Integer,
    Float,
    String,
    Boolean,
}

/// Where a span of source text begins and how long it is. Lines, columns and offsets count
/// characters and start at zero.
#[derive(Clone, Copy, Debug, PartialEq, Eq, Structural)]
pub struct Span {
    pub line: usize,
    pub column: usize,
    pub offset: usize,
    pub length: usize,
}

/// The classification of a token.
#[derive(Clone, Debug, PartialEq, Eq)]
pub enum TokenType {
    Keyword(Keyword),
    Identifier(String),
    Literal(String, Type),
    Operator(Operator),
    Separator(Separator),
    EndOfInput,
}

/// A classified span of source text.
#[derive(Clone, Debug, PartialEq, Eq)]
pub struct Token {
    pub kind: TokenType,
    pub lexeme: String,
    pub position: Span,
}

/// The mathematical value of a [`TokenType`]: text is a sequence of characters.
pub enum TokenTypeView {
    Keyword(Keyword),
    Identifier(Seq<char>),
    Literal(Seq<char>, Type),
    Operator(Operator),
    Separator(Separator),
    EndOfInput,
}

/// The mathematical value of a [`Token`].
pub struct TokenView {
    pub kind: TokenTypeView,
    pub lexeme: Seq<char>,
    pub position: Span,
}

impl View for TokenType {
    type V = TokenTypeView;

    open spec fn view(&self) -> TokenTypeView {
        match *self {
            TokenType::Keyword(k) => TokenTypeView::Keyword(k),
            TokenType::Identifier(name) => TokenTypeView::Identifier(name@),
            TokenType::Literal(raw, kind) => TokenTypeView::Literal(raw@, kind),
            TokenType::Operator(op) => TokenTypeView::Operator(op),
            TokenType::Separator(s) => TokenTypeView::Separator(s),
            TokenType::EndOfInput => TokenTypeView::EndOfInput,
        }
    }
}

impl View for Token {
    type V = TokenView;

    open spec fn view(&self) -> TokenView {
        TokenView { kind: self.kind@, lexeme: self.lexeme@, position: self.position }
    }
}

/// The mathematical values of a sequence of tokens.
pub open spec fn token_views(tokens: Seq<Token>) -> Seq<TokenView> {
    tokens.map_values(|token: Token| token@)
}

impl Operator {
    /// The source spelling of the operator, which is also how it is displayed.
    pub open spec fn spelling(self) -> Seq<char> {
        match self {
            Operator::Gt => seq!['>'],
            Operator::Lt => seq!['<'],
            Operator::Geq => seq!['>', '='],
            Operator::Leq => seq!['<', '='],
            Operator::Eq => seq!['=', '='],
            Operator::Neq => seq!['!', '='],
            Operator::Add => seq!['+'],
            Operator::Sub => seq!['-'],
            Operator::Div => seq!['/'],
            Operator::Mul => seq!['*'],
            Operator::Pow => seq!['^'],
            Operator::Mod => seq!['%'],
            Operator::Assign => seq!['='],
        }
    }

    /// The number of characters in the operator's spelling: one or two.
    pub fn width(&self) -> (n: usize)
        ensures
            n == self.spelling().len(),
            1 <= n <= 2,
    {
        match self {
            Operator::Geq | Operator::Leq | Operator::Eq | Operator::Neq => 2,
            _ => 1,
        }
    }

    /// The canonical rendering of the operator.
    pub fn as_str(&self) -> (s: &'static str)
        ensures
            s@ == self.spelling(),
    {
        proof {
            reveal_strlit(">");
            reveal_strlit("<");
            reveal_strlit(">=");
            reveal_strlit("<=");
            reveal_strlit("==");
            reveal_strlit("!=");
            reveal_strlit("+");
            reveal_strlit("-");
            reveal_strlit("/");
            reveal_strlit("*");
            reveal_strlit("^");
            reveal_strlit("%");
            reveal_strlit("=");
        }
        match self {
            Operator::Gt => ">",
            Operator::Lt => "<",
            Operator::Geq => ">=",
            Operator::Leq => "<=",
            Operator::Eq => "==",
            Operator::Neq => "!=",
            Operator::Add => "+",
            Operator::Sub => "-",
            Operator::Div => "/",
            Operator::Mul => "*",
            Operator::Pow => "^",
            Operator::Mod => "%",
            Operator::Assign => "=",
        }
    }

    /// The canonical rendering of the operator, as an owned string.
    pub fn to_string(&self) -> (s: String)
        ensures
            s@ == self.spelling(),
    {
        self.as_str().to_owned()
    }
}

impl Separator {
    /// The character that the separator is written with.
    pub open spec fn spelling(self) -> char {
        match self {
            Separator::LeftParen => '(',
            Separator::RightParen => ')',
            Separator::LeftBrace => '{',
            Separator::RightBrace => '}',
            Separator::Comma => ',',
            Separator::Semicolon => ';',
        }
    }

    /// The separator that `c` spells, if it spells one.
    pub open spec fn spec_from_char(c: char) -> Option<Separator> {
        if c == '(' {
            Some(Separator::LeftParen)
        } else if c == ')' {
            Some(Separator::RightParen)
        } else if c == '{' {
            Some(Separator::LeftBrace)
        } else if c == '}' {
            Some(Separator::RightBrace)
        } else if c == ',' {
            Some(Separator::Comma)
        } else if c == ';' {
            Some(Separator::Semicolon)
        } else {
            None
        }
    }

    /// The character that the separator is written with.
    pub fn to_char(&self) -> (c: char)
        ensures
            c == self.spelling(),
    {
        match self {
            Separator::LeftParen => '(',
            Separator::RightParen => ')',
            Separator::LeftBrace => '{',
            Separator::RightBrace => '}',
            Separator::Comma => ',',
            Separator::Semicolon => ';',
        }
    }

    /// The separator that `c` spells, if it spells one.
    #[verifier::when_used_as_spec(spec_from_char)]
    pub fn from_char(c: char) -> (s: Option<Separator>)
        ensures
            s == Separator::spec_from_char(c),
    {
        if c == '(' {
            Some(Separator::LeftParen)
        } else if c == ')' {
            Some(Separator::RightParen)
        } else if c == '{' {
            Some(Separator::LeftBrace)
        } else if c == '}' {
            Some(Separator::RightBrace)
        } else if c == ',' {
            Some(Separator::Comma)
        } else if c == ';' {
            Some(Separator::Semicolon)
        } else {
            None
        }
    }

    /// Reading a separator's character gives the separator back, and only a separator's own
    /// character spells it.
    pub proof fn lemma_spelling_round_trip(s: Separator, c: char)
        ensures
            Separator::spec_from_char(s.spelling()) == Some(s),
            Separator::spec_from_char(c) == Some(s) <==> c == s.spelling(),
    {
    }

    /// Separators and operators are apart: no operator's spelling holds a separator's
    /// character.
    pub proof fn lemma_apart_from_operators(s: Separator, op: Operator)
        ensures
            !op.spelling().contains(s.spelling()),
    {
        assert forall|i: int| 0 <= i < op.spelling().len() implies op.spelling()[i]
            != s.spelling() by {}
    }
}

} // verus!
