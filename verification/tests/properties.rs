use cimilang::lexer::classify::is_whitespace;
use cimilang::lexer::cursor::chars_of;
use cimilang::lexer::{scan, scan_chars, LexError, Lexicon, Operator, Token, TokenType};

const TEXTS: [&str; 12] = [
    "",
    " ",
    "a",
    "let x = 1;",
    "x>=10 != y<=2 == z",
    "1.2.3 .. 4. .5",
    "\"open",
    "\"a\\q\" \"ok\" \"x\ny\"",
    "@ $ ! ~ \u{e9}",
    "# only a comment",
    "a # b\n\t c #\n#",
    "f(a, b) { g(1.5); } # end\n",
];

fn lexicon() -> Lexicon {
    Lexicon::new(vec![String::from("let"), String::from("f")], Some('#'))
}

fn rebuild(text: &str, tokens: &[Token], errors: &[LexError]) -> String {
    let source: Vec<char> = text.chars().collect();
    let mut spans: Vec<(usize, usize, String)> = Vec::new();
    for token in tokens {
        spans.push((token.position.offset, token.position.length, token.lexeme.clone()));
    }
    for error in errors {
        spans.push((error.position.offset, error.position.length, error.context.clone()));
    }
    spans.sort();
    let mut rebuilt = String::new();
    let mut at = 0;
    for (offset, length, piece) in spans {
        assert!(at <= offset);
        let skipped: String = source[at..offset].iter().collect();
        let mut in_comment = false;
        for c in skipped.chars() {
            if c == '#' {
                in_comment = true;
            } else if c == '\n' {
                in_comment = false;
            }
            assert!(in_comment || is_whitespace(c));
        }
        rebuilt.push_str(&skipped);
        assert_eq!(piece.chars().count(), length);
        rebuilt.push_str(&piece);
        at = offset + length;
    }
    assert_eq!(at, source.len());
    rebuilt
}

#[test]
fn pieces_put_together_give_the_text_back() {
    for text in TEXTS {
        let (tokens, errors) = scan(text, &lexicon());
        assert_eq!(rebuild(text, &tokens, &errors), text);
    }
}

#[test]
fn stream_ends_with_one_end_of_input() {
    for text in TEXTS {
        let (tokens, _) = scan(text, &lexicon());
        let last = tokens.last().unwrap();
        assert_eq!(last.kind, TokenType::EndOfInput);
        assert_eq!(last.lexeme, "");
        assert_eq!(last.position.length, 0);
        assert_eq!(last.position.offset, text.chars().count());
        let ends = tokens.iter().filter(|token| token.kind == TokenType::EndOfInput).count();
        assert_eq!(ends, 1);
    }
}

#[test]
fn tokens_do_not_overlap() {
    for text in TEXTS {
        let (tokens, errors) = scan(text, &lexicon());
        for pair in tokens.windows(2) {
            assert!(pair[0].position.offset + pair[0].position.length <= pair[1].position.offset);
            assert!(pair[0].position.offset < pair[1].position.offset);
            assert!(pair[0].position.line <= pair[1].position.line);
        }
        for pair in errors.windows(2) {
            assert!(pair[0].position.offset + pair[0].position.length <= pair[1].position.offset);
        }
    }
}

#[test]
fn lexeme_is_the_text_at_the_position() {
    for text in TEXTS {
        let source: Vec<char> = text.chars().collect();
        let (tokens, errors) = scan(text, &lexicon());
        for token in &tokens {
            let from = token.position.offset;
            let found: String = source[from..from + token.position.length].iter().collect();
            assert_eq!(found, token.lexeme);
            match &token.kind {
                TokenType::Identifier(name) => assert_eq!(name, &token.lexeme),
                TokenType::Literal(raw, _) => assert_eq!(raw, &token.lexeme),
                _ => {}
            }
        }
        for error in &errors {
            let from = error.position.offset;
            let found: String = source[from..from + error.position.length].iter().collect();
            assert_eq!(found, error.context);
            assert!(error.position.length >= 1);
        }
    }
}

#[test]
fn position_is_the_line_and_column_of_the_offset() {
    for text in TEXTS {
        let source: Vec<char> = text.chars().collect();
        let (tokens, _) = scan(text, &lexicon());
        for token in &tokens {
            let before = &source[..token.position.offset];
            let line = before.iter().filter(|c| **c == '\n').count();
            let column = before.iter().rev().take_while(|c| **c != '\n').count();
            assert_eq!(token.position.line, line);
            assert_eq!(token.position.column, column);
        }
    }
}

#[test]
fn table_words_are_never_identifiers() {
    for text in TEXTS {
        let (tokens, _) = scan(text, &lexicon());
        for token in &tokens {
            if token.lexeme == "let" || token.lexeme == "f" {
                assert!(matches!(token.kind, TokenType::Keyword(_)));
            }
            if let TokenType::Identifier(name) = &token.kind {
                assert!(name != "let" && name != "f");
            }
        }
    }
}

#[test]
fn scan_of_characters_agrees_with_scan_of_text() {
    for text in TEXTS {
        assert_eq!(scan_chars(chars_of(text), &lexicon()), scan(text, &lexicon()));
    }
}

#[test]
fn operator_spelling_scans_back_to_the_operator() {
    let all = [
        Operator::Gt,
        Operator::Lt,
        Operator::Geq,
        Operator::Leq,
        Operator::Eq,
        Operator::Neq,
        Operator::Add,
        Operator::Sub,
        Operator::Div,
        Operator::Mul,
        Operator::Pow,
        Operator::Mod,
        Operator::Assign,
    ];
    for op in all {
        let (tokens, errors) = scan(&op.to_string(), &lexicon());
        assert_eq!(tokens.len(), 2);
        assert_eq!(tokens[0].kind, TokenType::Operator(op));
        assert_eq!(tokens[0].lexeme, op.to_string());
        assert_eq!(tokens[1].kind, TokenType::EndOfInput);
        assert!(errors.is_empty());
    }
}
