use cimilang::lexer::builders::{
    scan_identifier, scan_number, scan_operator, scan_stray_point, scan_string, skip_run,
};
use cimilang::lexer::cursor::chars_of;
use cimilang::lexer::grammar::CharClass;
use cimilang::lexer::{
    step, Cursor, Diagnostics, Keyword, LexError, LexErrorKind, Lexicon, Operator, Position,
    Scanned, Separator, Span, Token, TokenType, Type,
};

fn cursor_at(text: &str, offset: usize) -> Cursor {
    let mut cursor = Cursor::new(chars_of(text));
    for _ in 0..offset {
        cursor.advance();
    }
    cursor
}

#[test]
fn skip_run_stops_at_the_first_other_character() {
    let mut cursor = cursor_at(" \t\n x", 0);
    skip_run(&mut cursor, CharClass::Blank);
    assert_eq!(cursor.position(), Position { line: 1, column: 1, offset: 4 });
    skip_run(&mut cursor, CharClass::Blank);
    assert_eq!(cursor.position().offset, 4);
}

#[test]
fn skip_run_stops_at_the_end() {
    let mut cursor = cursor_at("123", 1);
    skip_run(&mut cursor, CharClass::Digit);
    assert!(cursor.at_end());
    skip_run(&mut cursor, CharClass::Digit);
    assert_eq!(cursor.position().offset, 3);
}

#[test]
fn identifier_builder_reads_the_whole_word() {
    let lexicon = Lexicon::new(vec![String::from("if")], None);
    let mut cursor = cursor_at("x if_1+y", 2);
    let token = scan_identifier(&mut cursor, &lexicon);
    assert_eq!(
        token,
        Token {
            kind: TokenType::Identifier(String::from("if_1")),
            lexeme: String::from("if_1"),
            position: Span { line: 0, column: 2, offset: 2, length: 4 },
        }
    );
    assert_eq!(cursor.position().offset, 6);
}

#[test]
fn identifier_builder_finds_keywords() {
    let lexicon = Lexicon::new(vec![String::from("if"), String::from("else")], None);
    let mut cursor = cursor_at("else", 0);
    let token = scan_identifier(&mut cursor, &lexicon);
    assert_eq!(token.kind, TokenType::Keyword(Keyword::Entry(1)));
    assert_eq!(token.lexeme, "else");
    assert!(cursor.at_end());
}

#[test]
fn number_builder_integer() {
    let mut cursor = cursor_at("42;", 0);
    let token = scan_number(&mut cursor);
    assert_eq!(
        token,
        Token {
            kind: TokenType::Literal(String::from("42"), Type::Integer),
            lexeme: String::from("42"),
            position: Span { line: 0, column: 0, offset: 0, length: 2 },
        }
    );
    assert_eq!(cursor.peek(0), Some(';'));
}

#[test]
fn number_builder_float() {
    let mut cursor = cursor_at("a\n3.1415.", 2);
    let token = scan_number(&mut cursor);
    assert_eq!(
        token,
        Token {
            kind: TokenType::Literal(String::from("3.1415"), Type::Float),
            lexeme: String::from("3.1415"),
            position: Span { line: 1, column: 0, offset: 2, length: 6 },
        }
    );
    assert_eq!(cursor.peek(0), Some('.'));
}

#[test]
fn number_builder_leaves_a_point_that_no_digit_follows() {
    for text in ["7.", "7.x", "7..1"] {
        let mut cursor = cursor_at(text, 0);
        let token = scan_number(&mut cursor);
        assert_eq!(token.kind, TokenType::Literal(String::from("7"), Type::Integer));
        assert_eq!(cursor.position().offset, 1);
    }
}

#[test]
fn stray_point_builder_takes_the_digits_and_points_behind() {
    let mut cursor = cursor_at("1.2.3.4 5", 3);
    let error = scan_stray_point(&mut cursor);
    assert_eq!(
        error,
        LexError {
            kind: LexErrorKind::InvalidNumericLiteral,
            position: Span { line: 0, column: 3, offset: 3, length: 4 },
            context: String::from(".3.4"),
        }
    );
    assert_eq!(cursor.peek(0), Some(' '));
}

#[test]
fn operator_builder_two_characters() {
    let mut cursor = cursor_at("a!=b", 1);
    let result = scan_operator(&mut cursor);
    assert_eq!(
        result,
        Ok(Token {
            kind: TokenType::Operator(Operator::Neq),
            lexeme: String::from("!="),
            position: Span { line: 0, column: 1, offset: 1, length: 2 },
        })
    );
    assert_eq!(cursor.peek(0), Some('b'));
}

#[test]
fn operator_builder_one_character() {
    let mut cursor = cursor_at("<>", 0);
    let result = scan_operator(&mut cursor);
    assert_eq!(
        result,
        Ok(Token {
            kind: TokenType::Operator(Operator::Lt),
            lexeme: String::from("<"),
            position: Span { line: 0, column: 0, offset: 0, length: 1 },
        })
    );
    assert_eq!(cursor.peek(0), Some('>'));
}

#[test]
fn operator_builder_bare_bang() {
    let mut cursor = cursor_at("!!=", 0);
    let result = scan_operator(&mut cursor);
    assert_eq!(
        result,
        Err(LexError {
            kind: LexErrorKind::UnexpectedCharacter,
            position: Span { line: 0, column: 0, offset: 0, length: 1 },
            context: String::from("!"),
        })
    );
    assert_eq!(cursor.position().offset, 1);
}

#[test]
fn string_builder_closed() {
    let mut cursor = cursor_at("x \"a b\\\\\" y", 2);
    let result = scan_string(&mut cursor);
    assert_eq!(
        result,
        Ok(Token {
            kind: TokenType::Literal(String::from("\"a b\\\\\""), Type::String),
            lexeme: String::from("\"a b\\\\\""),
            position: Span { line: 0, column: 2, offset: 2, length: 7 },
        })
    );
    assert_eq!(cursor.peek(0), Some(' '));
}

#[test]
fn string_builder_unterminated_stops_before_the_line_end() {
    let mut cursor = cursor_at("\"abc\n\"", 0);
    let result = scan_string(&mut cursor);
    assert_eq!(
        result,
        Err(LexError {
            kind: LexErrorKind::UnterminatedString,
            position: Span { line: 0, column: 0, offset: 0, length: 4 },
            context: String::from("\"abc"),
        })
    );
    assert_eq!(cursor.peek(0), Some('\n'));
}

#[test]
fn string_builder_escaped_line_end_is_taken_along() {
    let mut cursor = cursor_at("\"a\\\nb\"", 0);
    let result = scan_string(&mut cursor);
    assert_eq!(
        result,
        Err(LexError {
            kind: LexErrorKind::InvalidEscapeSequence,
            position: Span { line: 0, column: 0, offset: 0, length: 6 },
            context: String::from("\"a\\\nb\""),
        })
    );
    assert!(cursor.at_end());
}

#[test]
fn string_builder_unterminated_wins_over_wrong_escape() {
    let mut cursor = cursor_at("\"a\\qb", 0);
    let result = scan_string(&mut cursor);
    assert_eq!(
        result,
        Err(LexError {
            kind: LexErrorKind::UnterminatedString,
            position: Span { line: 0, column: 0, offset: 0, length: 5 },
            context: String::from("\"a\\qb"),
        })
    );
}

#[test]
fn step_reports_done_at_the_end() {
    let lexicon = Lexicon::new(Vec::new(), None);
    let mut cursor = cursor_at("a", 1);
    assert_eq!(step(&mut cursor, &lexicon), Scanned::Done);
    assert_eq!(step(&mut cursor, &lexicon), Scanned::Done);
    assert_eq!(cursor.position().offset, 1);
}

#[test]
fn step_by_step() {
    let lexicon = Lexicon::new(vec![String::from("let")], Some('#'));
    let mut cursor = cursor_at("let  a,@#c\n", 0);
    assert_eq!(
        step(&mut cursor, &lexicon),
        Scanned::Token(Token {
            kind: TokenType::Keyword(Keyword::Entry(0)),
            lexeme: String::from("let"),
            position: Span { line: 0, column: 0, offset: 0, length: 3 },
        })
    );
    assert_eq!(step(&mut cursor, &lexicon), Scanned::Skipped);
    assert_eq!(cursor.position().offset, 5);
    assert_eq!(
        step(&mut cursor, &lexicon),
        Scanned::Token(Token {
            kind: TokenType::Identifier(String::from("a")),
            lexeme: String::from("a"),
            position: Span { line: 0, column: 5, offset: 5, length: 1 },
        })
    );
    assert_eq!(
        step(&mut cursor, &lexicon),
        Scanned::Token(Token {
            kind: TokenType::Separator(Separator::Comma),
            lexeme: String::from(","),
            position: Span { line: 0, column: 6, offset: 6, length: 1 },
        })
    );
    assert_eq!(
        step(&mut cursor, &lexicon),
        Scanned::Error(LexError {
            kind: LexErrorKind::UnexpectedCharacter,
            position: Span { line: 0, column: 7, offset: 7, length: 1 },
            context: String::from("@"),
        })
    );
    assert_eq!(step(&mut cursor, &lexicon), Scanned::Skipped);
    assert_eq!(cursor.position().offset, 10);
    assert_eq!(step(&mut cursor, &lexicon), Scanned::Skipped);
    assert_eq!(cursor.position(), Position { line: 1, column: 0, offset: 11 });
    assert_eq!(step(&mut cursor, &lexicon), Scanned::Done);
}

#[test]
fn lexicon_lookup() {
    let lexicon = Lexicon::new(
        vec![String::from("a"), String::from("b"), String::from("a"), String::from("")],
        Some(';'),
    );
    assert_eq!(lexicon.keyword(&String::from("a")), Some(Keyword::Entry(0)));
    assert_eq!(lexicon.keyword(&String::from("b")), Some(Keyword::Entry(1)));
    assert_eq!(lexicon.keyword(&String::from("")), Some(Keyword::Entry(3)));
    assert_eq!(lexicon.keyword(&String::from("A")), None);
    assert_eq!(lexicon.keyword(&String::from("ab")), None);
    assert_eq!(lexicon.comment, Some(';'));
    assert_eq!(lexicon.keywords.len(), 4);
    assert_eq!(Lexicon::new(Vec::new(), None).keyword(&String::from("a")), None);
}

#[test]
fn diagnostics_keep_the_order_of_the_reports() {
    let mut diagnostics = Diagnostics::new();
    assert!(diagnostics.is_empty());
    assert_eq!(diagnostics.len(), 0);
    let first = LexError {
        kind: LexErrorKind::UnexpectedCharacter,
        position: Span { line: 0, column: 0, offset: 0, length: 1 },
        context: String::from("@"),
    };
    let second = LexError {
        kind: LexErrorKind::UnterminatedString,
        position: Span { line: 0, column: 2, offset: 2, length: 3 },
        context: String::from("\"ab"),
    };
    diagnostics.report(first.clone());
    diagnostics.report(second.clone());
    diagnostics.report(first.clone());
    assert!(!diagnostics.is_empty());
    assert_eq!(diagnostics.len(), 3);
    assert_eq!(diagnostics.into_errors(), vec![first.clone(), second, first]);
}
