use crease::error::{Error, LexerError, LexerErrorKind, ParserError, ParserErrorKind, RuntimeError, RuntimeErrorKind};
use crease::text::{bool_to_text, int_to_text, is_white_char, parse_bool_text, parse_int_text, trim_text, usize_to_text};
use crease::token::{Token, TokenKind};

fn chars(s: &str) -> Vec<char> {
    s.chars().collect()
}

#[test]
fn integers_to_text() {
    assert_eq!(int_to_text(0), "0");
    assert_eq!(int_to_text(-15), "-15");
    assert_eq!(int_to_text(i64::MIN), "-9223372036854775808");
    assert_eq!(int_to_text(i64::MAX), "9223372036854775807");
    assert_eq!(usize_to_text(1234), "1234");
    assert_eq!(bool_to_text(true), "true");
}

#[test]
fn texts_to_integers() {
    assert_eq!(parse_int_text(&chars("42")), Some(42));
    assert_eq!(parse_int_text(&chars("+7")), Some(7));
    assert_eq!(parse_int_text(&chars("-0")), Some(0));
    assert_eq!(parse_int_text(&chars("-9223372036854775808")), Some(i64::MIN));
    assert_eq!(parse_int_text(&chars("9223372036854775808")), None);
    assert_eq!(parse_int_text(&chars("")), None);
    assert_eq!(parse_int_text(&chars("-")), None);
    assert_eq!(parse_int_text(&chars(" 1")), None);
    assert_eq!(parse_int_text(&chars("1e3")), None);
    for n in [0i64, 1, -1, 99, -100, i64::MIN, i64::MAX] {
        assert_eq!(parse_int_text(&chars(&int_to_text(n))), Some(n));
    }
}

#[test]
fn texts_to_booleans() {
    assert_eq!(parse_bool_text(&"true".to_string()), Some(true));
    assert_eq!(parse_bool_text(&"false".to_string()), Some(false));
    assert_eq!(parse_bool_text(&"True".to_string()), None);
    assert_eq!(parse_bool_text(&bool_to_text(false)), Some(false));
}

#[test]
fn error_constructors_and_messages() {
    let l = LexerError::new(LexerErrorKind::InvalidNumber, "bad".to_string(), 3, 4);
    assert_eq!((l.line, l.column, l.msg.as_str()), (3, 4, "bad"));
    assert_eq!(l.to_message(), "bad");
    assert_eq!(Error::from(l).to_message(), "Lexer error at line 3, column 4: bad");
    let p = ParserError::new(ParserErrorKind::MissingSemicolon, "semi".to_string(), 10, 1);
    assert_eq!(p.to_message(), "semi");
    assert_eq!(Error::from(p).to_message(), "Parser error at line 10, column 1: semi");
    let r = RuntimeError::new(RuntimeErrorKind::DivisionByZero, "division by zero".to_string());
    assert_eq!(r.to_message(), "division by zero");
    assert_eq!(Error::from(r).to_message(), "Runtime error: division by zero");
}

#[test]
fn token_constructor() {
    let t = Token::new(TokenKind::Colon, 2, 9);
    assert!(matches!(t.kind, TokenKind::Colon));
    assert_eq!((t.line, t.column), (2, 9));
}

#[test]
fn trimming_matches_std() {
    let cases = ["  a b  ", "\u{3000}x\u{85}", "   ", "", "\u{200B}x\u{200B}", "\tline\r\n", "\u{2028}\u{00A0}y z\u{205F}"];
    for c in cases {
        assert_eq!(trim_text(c), c.trim());
    }
    assert_eq!(trim_text(" \u{a0}x\n"), "x");
    assert!(is_white_char('\u{1680}'));
    assert!(!is_white_char('\u{200B}'));
}
