use cimilang::lexer::cursor::chars_of;
use cimilang::lexer::{Cursor, Position};

#[test]
fn chars_of_gives_the_characters_in_order() {
    assert_eq!(chars_of("a\u{e9}\n"), vec!['a', '\u{e9}', '\n']);
    assert_eq!(chars_of(""), Vec::<char>::new());
}

#[test]
fn new_cursor_stands_at_the_start() {
    let cursor = Cursor::new(chars_of("ab"));
    assert_eq!(cursor.position(), Position { line: 0, column: 0, offset: 0 });
    assert!(!cursor.at_end());
}

#[test]
fn cursor_over_empty_text_is_at_its_end() {
    let mut cursor = Cursor::new(Vec::new());
    assert!(cursor.at_end());
    assert_eq!(cursor.peek(0), None);
    assert_eq!(cursor.advance(), None);
    assert_eq!(cursor.position(), Position { line: 0, column: 0, offset: 0 });
}

#[test]
fn peek_does_not_consume() {
    let cursor = Cursor::new(chars_of("abc"));
    assert_eq!(cursor.peek(0), Some('a'));
    assert_eq!(cursor.peek(1), Some('b'));
    assert_eq!(cursor.peek(2), Some('c'));
    assert_eq!(cursor.peek(3), None);
    assert_eq!(cursor.peek(usize::MAX), None);
    assert_eq!(cursor.position(), Position { line: 0, column: 0, offset: 0 });
}

#[test]
fn advance_returns_the_character_and_moves_on() {
    let mut cursor = Cursor::new(chars_of("ab"));
    assert_eq!(cursor.advance(), Some('a'));
    assert_eq!(cursor.position(), Position { line: 0, column: 1, offset: 1 });
    assert_eq!(cursor.peek(0), Some('b'));
    assert_eq!(cursor.advance(), Some('b'));
    assert!(cursor.at_end());
    assert_eq!(cursor.position(), Position { line: 0, column: 2, offset: 2 });
}

#[test]
fn advance_past_the_end_changes_nothing() {
    let mut cursor = Cursor::new(chars_of("a"));
    assert_eq!(cursor.advance(), Some('a'));
    assert_eq!(cursor.advance(), None);
    assert_eq!(cursor.advance(), None);
    assert_eq!(cursor.position(), Position { line: 0, column: 1, offset: 1 });
    assert!(cursor.at_end());
}

#[test]
fn line_end_starts_a_new_line() {
    let mut cursor = Cursor::new(chars_of("ab\n\ncd"));
    cursor.advance();
    cursor.advance();
    assert_eq!(cursor.position(), Position { line: 0, column: 2, offset: 2 });
    assert_eq!(cursor.advance(), Some('\n'));
    assert_eq!(cursor.position(), Position { line: 1, column: 0, offset: 3 });
    cursor.advance();
    assert_eq!(cursor.position(), Position { line: 2, column: 0, offset: 4 });
    cursor.advance();
    cursor.advance();
    assert_eq!(cursor.position(), Position { line: 2, column: 2, offset: 6 });
}

#[test]
fn carriage_return_counts_as_a_column() {
    let mut cursor = Cursor::new(chars_of("a\r\nb"));
    cursor.advance();
    cursor.advance();
    assert_eq!(cursor.position(), Position { line: 0, column: 2, offset: 2 });
    cursor.advance();
    assert_eq!(cursor.position(), Position { line: 1, column: 0, offset: 3 });
}

#[test]
fn text_since_gives_what_was_consumed() {
    let mut cursor = Cursor::new(chars_of("hello world"));
    assert_eq!(cursor.text_since(0), "");
    for _ in 0..5 {
        cursor.advance();
    }
    assert_eq!(cursor.text_since(0), "hello");
    assert_eq!(cursor.text_since(2), "llo");
    assert_eq!(cursor.text_since(5), "");
}
