//! Lexer and source-text tests.

use zn_lang::lexer::{FloatLiteral, Lexer, TokenKind};
use zn_lang::sourcetext::SourceText;

fn lex_all(input: &str) -> Vec<TokenKind> {
    let mut lexer = Lexer::new(input.to_string());
    let mut kinds = Vec::new();
    while let Some(t) = lexer.next_token() {
        kinds.push(t.kind);
    }
    kinds
}

#[test]
fn octal_literal() {
    assert_eq!(lex_all("071"), vec![TokenKind::Integer(57), TokenKind::Eof]);
}

#[test]
fn hexadecimal_literal() {
    assert_eq!(lex_all("0x2"), vec![TokenKind::Integer(2), TokenKind::Eof]);
}

#[test]
fn floating_literal() {
    assert_eq!(
        lex_all("7.1"),
        vec![
            TokenKind::Floating(FloatLiteral { whole: 7, frac: 1, denom: 10 }),
            TokenKind::Eof
        ]
    );
}

#[test]
fn non_octal_digit_continues_decimally() {
    // A leading zero selects octal, but an eight falls back to the
    // decimal accumulator.
    assert_eq!(lex_all("078"), vec![TokenKind::Integer(78), TokenKind::Eof]);
}

#[test]
fn second_decimal_point_ends_the_literal() {
    assert_eq!(
        lex_all("1.2.3"),
        vec![
            TokenKind::Floating(FloatLiteral { whole: 1, frac: 2, denom: 10 }),
            TokenKind::Integer(3),
            TokenKind::Eof
        ]
    );
}

#[test]
fn keywords_and_identifiers() {
    assert_eq!(
        lex_all("let func return letter"),
        vec![
            TokenKind::Let,
            TokenKind::Whitespace,
            TokenKind::Func,
            TokenKind::Whitespace,
            TokenKind::Return,
            TokenKind::Whitespace,
            TokenKind::Identifier,
            TokenKind::Eof
        ]
    );
}

#[test]
fn operators_and_delimiters() {
    assert_eq!(
        lex_all("+-*/=(){}[],;<>|&^~!@"),
        vec![
            TokenKind::Plus,
            TokenKind::Minus,
            TokenKind::Astrisk,
            TokenKind::Slash,
            TokenKind::Equal,
            TokenKind::LeftParen,
            TokenKind::RightParen,
            TokenKind::LeftBrace,
            TokenKind::RightBrace,
            TokenKind::LeftBracket,
            TokenKind::RightBracket,
            TokenKind::Comma,
            TokenKind::SemiColon,
            TokenKind::LeftAngleBracket,
            TokenKind::RightAngleBracket,
            TokenKind::BitwiseOR,
            TokenKind::BitwiseAND,
            TokenKind::BitwiseXOR,
            TokenKind::BitwiseNOT,
            TokenKind::ExclemationMark,
            TokenKind::Bad,
            TokenKind::Eof
        ]
    );
}

#[test]
fn spans_carry_the_source_text() {
    let mut lexer = Lexer::new("let abc".to_string());
    let t1 = lexer.next_token().unwrap();
    assert_eq!(t1.kind, TokenKind::Let);
    assert_eq!(t1.span.start, 0);
    assert_eq!(t1.span.end, 3);
    assert_eq!(t1.span.literal, "let");
    let _ws = lexer.next_token().unwrap();
    let t2 = lexer.next_token().unwrap();
    assert_eq!(t2.kind, TokenKind::Identifier);
    assert_eq!(t2.span.literal, "abc");
    assert_eq!(t2.span.start, 4);
    assert_eq!(t2.span.end, 7);
}

#[test]
fn stream_ends_after_the_eof_token() {
    let mut lexer = Lexer::new("1".to_string());
    assert!(lexer.next_token().is_some());
    assert!(matches!(lexer.next_token().unwrap().kind, TokenKind::Eof));
    assert!(lexer.next_token().is_none());
    assert!(lexer.next_token().is_none());
}

#[test]
fn locations_from_offsets() {
    let text = SourceText::new("ab\ncd\nef".to_string());
    assert_eq!(text.get_linenumber(0), 1);
    assert_eq!(text.get_linenumber(4), 2);
    assert_eq!(text.get_column(4), 1);
    assert_eq!(text.get_column(1), 1);
    assert_eq!(text.get_line(4), "cd");
    let (line, col) = text.get_location(7);
    assert_eq!(line, "ef");
    assert_eq!(col, 1);
}
