use crease::error::LexerErrorKind;
use crease::lexer::Lexer;
use crease::token::{Token, TokenKind};

fn tokens(src: &str) -> Vec<Token> {
    let mut lexer = Lexer::new(src);
    let mut out = Vec::new();
    loop {
        let tok = lexer.next_token().expect("lexes");
        let done = matches!(tok.kind, TokenKind::EOF);
        out.push(tok);
        if done {
            break;
        }
    }
    out
}

fn first_error(src: &str) -> crease::error::LexerError {
    let mut lexer = Lexer::new(src);
    loop {
        match lexer.next_token() {
            Ok(t) => {
                if matches!(t.kind, TokenKind::EOF) {
                    panic!("no error in {:?}", src);
                }
            }
            Err(e) => return e,
        }
    }
}

#[test]
fn lexes_declaration() {
    let k = tokens("set x = 42\n");
    assert!(matches!(k[0].kind, TokenKind::SetKeyword));
    assert!(matches!(&k[1].kind, TokenKind::Identifier(s) if s == "x"));
    assert!(matches!(k[2].kind, TokenKind::Equals));
    assert!(matches!(k[3].kind, TokenKind::IntegerLiteral(42)));
    assert!(matches!(k[4].kind, TokenKind::Newline));
    assert!(matches!(k[5].kind, TokenKind::EOF));
    assert_eq!(k.len(), 6);
}

#[test]
fn positions_count_lines_and_columns() {
    let k = tokens("out 1\n  out x");
    assert_eq!((k[0].line, k[0].column), (1, 1));
    assert_eq!((k[1].line, k[1].column), (1, 5));
    assert_eq!((k[2].line, k[2].column), (1, 6));
    assert_eq!((k[3].line, k[3].column), (2, 3));
    assert_eq!((k[4].line, k[4].column), (2, 7));
    assert_eq!((k[5].line, k[5].column), (2, 8));
}

#[test]
fn keywords_and_operators() {
    let k = tokens("del in if else endif while endwhile true false int float bool str == != <= >= < > && || ! + - * / % ( ) [ ] , :");
    let expected = [
        "Del", "In", "If", "Else", "EndIf", "While", "EndWhile", "True", "False", "Int", "Float", "Bool", "Str",
        "DEquals", "NotEquals", "LAngleEquals", "RAngleEquals", "LAngle", "RAngle", "DAmpersand", "DPipe",
        "Exclaim", "Plus", "Minus", "Star", "Slash", "Percent", "LParen", "RParen", "LBracket", "RBracket",
        "Comma", "Colon", "EOF",
    ];
    let names: Vec<String> = k.iter().map(|t| format!("{:?}", t.kind)).collect();
    assert_eq!(names, expected);
}

#[test]
fn float_literal_keeps_its_text() {
    let k = tokens("3.25");
    assert!(matches!(&k[0].kind, TokenKind::FloatLiteral(s) if s == "3.25"));
}

#[test]
fn string_literal_content() {
    let k = tokens("\"h\u{e9}llo world\" x");
    assert!(matches!(&k[0].kind, TokenKind::StringLiteral(s) if s == "h\u{e9}llo world"));
    assert!(matches!(&k[1].kind, TokenKind::Identifier(s) if s == "x"));
}

#[test]
fn comments_are_skipped() {
    let k = tokens("# a comment\nout 1 # another\n");
    assert!(matches!(k[0].kind, TokenKind::Newline));
    assert!(matches!(k[1].kind, TokenKind::Out));
    assert!(matches!(k[2].kind, TokenKind::IntegerLiteral(1)));
    assert!(matches!(k[3].kind, TokenKind::Newline));
    assert!(matches!(k[4].kind, TokenKind::EOF));
}

#[test]
fn eof_repeats() {
    let mut lexer = Lexer::new("x  ");
    let _ = lexer.next_token().unwrap();
    let a = lexer.next_token().unwrap();
    let b = lexer.next_token().unwrap();
    assert!(matches!(a.kind, TokenKind::EOF));
    assert!(matches!(b.kind, TokenKind::EOF));
    assert_eq!((a.line, a.column), (b.line, b.column));
}

#[test]
fn number_ending_in_dot_is_invalid() {
    let e = first_error("set x = 12.");
    assert!(matches!(e.kind, LexerErrorKind::InvalidNumber));
    assert_eq!(e.msg, "expected digit after `.`");
    assert_eq!((e.line, e.column), (1, 9));
}

#[test]
fn second_decimal_point_is_unexpected() {
    let e = first_error("1.2.3");
    assert!(matches!(e.kind, LexerErrorKind::UnexpectedCharacter));
    assert_eq!(e.msg, "expected digit after `.`");
    assert_eq!((e.line, e.column), (1, 4));
}

#[test]
fn too_large_integer_is_invalid() {
    let e = first_error("99999999999999999999");
    assert!(matches!(e.kind, LexerErrorKind::InvalidNumber));
    assert_eq!(e.msg, "integer literal out of range");
    let k = tokens("9223372036854775807");
    assert!(matches!(k[0].kind, TokenKind::IntegerLiteral(i64::MAX)));
}

#[test]
fn single_ampersand_and_pipe() {
    let e = first_error("a & b");
    assert!(matches!(e.kind, LexerErrorKind::UnidentifiedCharacter));
    assert_eq!(e.msg, "expected `&&`");
    assert_eq!((e.line, e.column), (1, 3));
    let e = first_error("a | b");
    assert_eq!(e.msg, "expected `||`");
}

#[test]
fn unidentified_character() {
    let e = first_error("out @");
    assert!(matches!(e.kind, LexerErrorKind::UnidentifiedCharacter));
    assert_eq!(e.msg, "unidentified character '@'");
    assert_eq!((e.line, e.column), (1, 5));
}

#[test]
fn unterminated_string() {
    let e = first_error("out \"abc");
    assert!(matches!(e.kind, LexerErrorKind::InvalidString));
    assert_eq!(e.msg, "unterminated string");
    assert_eq!((e.line, e.column), (1, 5));
}

#[test]
fn string_with_invalid_utf8_bytes_is_refused() {
    let bytes: [u8; 3] = [b'"', 0xff, b'"'];
    let mut lexer = Lexer { input: &bytes, idx: 0, line: 1, column: 1 };
    let e = lexer.next_token().unwrap_err();
    assert!(matches!(e.kind, LexerErrorKind::InvalidString));
    assert_eq!(e.msg, "invalid UTF-8 in string");
}

#[test]
fn position_never_goes_back_after_an_error() {
    let mut lexer = Lexer::new("out @ 1");
    let t = lexer.next_token().unwrap();
    assert!(matches!(t.kind, TokenKind::Out));
    let (i0, l0) = (lexer.idx, lexer.line);
    assert!(lexer.next_token().is_err());
    assert!(lexer.idx > i0 && lexer.idx <= lexer.input.len());
    assert!(lexer.line >= l0);
}

#[test]
fn eof_only_at_the_end() {
    let mut lexer = Lexer::new("x  # note");
    let t = lexer.next_token().unwrap();
    assert!(matches!(t.kind, TokenKind::Identifier(_)));
    assert_eq!(lexer.idx, 1);
    let t = lexer.next_token().unwrap();
    assert!(matches!(t.kind, TokenKind::EOF));
    assert_eq!(lexer.idx, lexer.input.len());
}
