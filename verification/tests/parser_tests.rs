use crease::ast::{BinaryOperators, Expression, Statement, UnaryOperators};
use crease::error::{Error, ParserErrorKind};
use crease::lexer::Lexer;
use crease::parser::{parse_source, Parser};

fn parse(src: &str) -> Vec<Statement> {
    parse_source(src).expect("parses")
}

fn parse_err(src: &str) -> Error {
    match parse_source(src) {
        Ok(p) => panic!("parsed: {:?}", p),
        Err(e) => e,
    }
}

fn print_expr(stmt: &Statement) -> &Expression {
    match stmt {
        Statement::PrintStmt(p) => &p.expr,
        other => panic!("not a print: {:?}", other),
    }
}

#[test]
fn empty_program() {
    assert!(parse("").is_empty());
    assert!(parse("\n\n# only a comment\n").is_empty());
}

#[test]
fn parser_new_and_parse() {
    let mut parser = Parser::new(Lexer::new("set x = 1\nout x\n")).expect("first token");
    let prog = parser.parse().expect("parses");
    assert_eq!(prog.len(), 2);
}

#[test]
fn multiplication_binds_tighter_than_addition() {
    let prog = parse("out 1 + 2 * 3");
    match print_expr(&prog[0]) {
        Expression::BinaryOperation(b) => {
            assert_eq!(b.operator, BinaryOperators::Add);
            assert!(matches!(*b.left, Expression::IntegerLiteral(ref n) if n.int == 1));
            match &*b.right {
                Expression::BinaryOperation(r) => assert_eq!(r.operator, BinaryOperators::Mul),
                other => panic!("{:?}", other),
            }
        }
        other => panic!("{:?}", other),
    }
}

#[test]
fn operators_associate_to_the_left() {
    let prog = parse("out 10 - 4 - 3");
    match print_expr(&prog[0]) {
        Expression::BinaryOperation(b) => {
            assert_eq!(b.operator, BinaryOperators::Sub);
            assert!(matches!(*b.left, Expression::BinaryOperation(_)));
            assert!(matches!(*b.right, Expression::IntegerLiteral(ref n) if n.int == 3));
        }
        other => panic!("{:?}", other),
    }
}

#[test]
fn precedence_of_logic_and_comparison() {
    let prog = parse("out 1 < 2 && 3 == 3 || false");
    match print_expr(&prog[0]) {
        Expression::BinaryOperation(b) => {
            assert_eq!(b.operator, BinaryOperators::Or);
            match &*b.left {
                Expression::BinaryOperation(a) => {
                    assert_eq!(a.operator, BinaryOperators::And);
                    assert!(matches!(*a.left, Expression::BinaryOperation(ref l) if l.operator == BinaryOperators::LThan));
                    assert!(matches!(*a.right, Expression::BinaryOperation(ref r) if r.operator == BinaryOperators::Equals));
                }
                other => panic!("{:?}", other),
            }
        }
        other => panic!("{:?}", other),
    }
}

#[test]
fn unary_and_casts() {
    let prog = parse("out -int \"3\"");
    match print_expr(&prog[0]) {
        Expression::UnaryOperation(u) => {
            assert_eq!(u.operator, UnaryOperators::Sub);
            assert!(matches!(*u.operand, Expression::UnaryOperation(ref c) if c.operator == UnaryOperators::ToInt));
        }
        other => panic!("{:?}", other),
    }
}

#[test]
fn arrays_and_indexing() {
    let prog = parse("set a = [1, 2.5, \"x\"]\na[0] = a[1]\nout []");
    match &prog[0] {
        Statement::DeclareStmt(d) => {
            assert_eq!(d.iden.value, "a");
            match &d.expr {
                Expression::ArrayLiteral(a) => assert_eq!(a.arr.len(), 3),
                other => panic!("{:?}", other),
            }
        }
        other => panic!("{:?}", other),
    }
    match &prog[1] {
        Statement::IndexAssignmentStmt(ia) => {
            assert_eq!(ia.iden.value, "a");
            assert!(matches!(ia.expr, Expression::ArrayIndexing(_)));
        }
        other => panic!("{:?}", other),
    }
    assert!(matches!(print_expr(&prog[2]), Expression::ArrayLiteral(a) if a.arr.is_empty()));
}

#[test]
fn if_else_and_while_blocks() {
    let src = "in x\nif x == \"abc\":\n    out 0\nelse:\n    out 1\n    out 2\nendif\nwhile false:\nendwhile\n";
    let prog = parse(src);
    assert_eq!(prog.len(), 3);
    assert!(matches!(prog[0], Statement::InputStmt(ref i) if i.iden.value == "x"));
    match &prog[1] {
        Statement::IfStmt(i) => {
            assert_eq!(i.if_stmts.len(), 1);
            assert_eq!(i.else_stmts.len(), 2);
        }
        other => panic!("{:?}", other),
    }
    assert!(matches!(prog[2], Statement::WhileStmt(ref w) if w.while_stmts.is_empty()));
}

#[test]
fn delete_statement() {
    let prog = parse("del x");
    assert!(matches!(prog[0], Statement::DeleteStmt(ref d) if d.iden.value == "x"));
}

#[test]
fn missing_equals_in_declaration() {
    match parse_err("set x 1") {
        Error::Parse(p) => {
            assert!(matches!(p.kind, ParserErrorKind::UnexpectedToken));
            assert_eq!(p.msg, "expected `=`");
            assert_eq!((p.line, p.column), (1, 7));
        }
        other => panic!("{:?}", other),
    }
}

#[test]
fn missing_identifier_after_set() {
    match parse_err("set 1 = 2") {
        Error::Parse(p) => assert_eq!(p.msg, "expected identifier after `set`"),
        other => panic!("{:?}", other),
    }
}

#[test]
fn statement_expected() {
    match parse_err("1 + 2") {
        Error::Parse(p) => {
            assert!(matches!(p.kind, ParserErrorKind::ExpectedStatement));
            assert_eq!(p.msg, "expected statement");
            assert_eq!((p.line, p.column), (1, 1));
        }
        other => panic!("{:?}", other),
    }
}

#[test]
fn missing_closing_parenthesis() {
    match parse_err("out (1 + 2") {
        Error::Parse(p) => {
            assert!(matches!(p.kind, ParserErrorKind::MissingDelimiter));
            assert_eq!(p.msg, "missing `)` after `(`");
        }
        other => panic!("{:?}", other),
    }
}

#[test]
fn expression_expected() {
    match parse_err("out *") {
        Error::Parse(p) => {
            assert!(matches!(p.kind, ParserErrorKind::UnidentifiedToken));
            assert_eq!(p.msg, "expected expression");
            assert_eq!((p.line, p.column), (1, 5));
        }
        other => panic!("{:?}", other),
    }
}

#[test]
fn two_statements_on_one_line() {
    match parse_err("out 1 out 2") {
        Error::Parse(p) => assert_eq!(p.msg, "expected newline or end of file after statement"),
        other => panic!("{:?}", other),
    }
}

#[test]
fn unclosed_blocks() {
    match parse_err("if true:\n out 1\n") {
        Error::Parse(p) => assert_eq!(p.msg, "expected `endif` to close `if` statement"),
        other => panic!("{:?}", other),
    }
    match parse_err("if true:\nelse:\n out 1\n") {
        Error::Parse(p) => assert_eq!(p.msg, "expected `endif` to close `if else` statement"),
        other => panic!("{:?}", other),
    }
    match parse_err("while true:\n out 1\n") {
        Error::Parse(p) => assert_eq!(p.msg, "expected `endwhile` to close `while` statement"),
        other => panic!("{:?}", other),
    }
}

#[test]
fn missing_comma_in_array() {
    match parse_err("out [1 2]") {
        Error::Parse(p) => assert_eq!(p.msg, "expected `,`"),
        other => panic!("{:?}", other),
    }
}

#[test]
fn lexer_errors_come_through_the_parser() {
    match parse_err("out 1 $") {
        Error::Lex(l) => {
            assert_eq!(l.msg, "unidentified character '$'");
            assert_eq!((l.line, l.column), (1, 7));
        }
        other => panic!("{:?}", other),
    }
}

#[test]
fn error_messages_name_the_stage_and_place() {
    let e = parse_err("set x 1");
    assert_eq!(e.to_message(), "Parser error at line 1, column 7: expected `=`");
    let e = parse_err("out @");
    assert_eq!(e.to_message(), "Lexer error at line 1, column 5: unidentified character '@'");
}

#[test]
fn array_literals_at_their_bracket() {
    let prog = parse("out [ ]\nout [[], [1]]");
    match print_expr(&prog[0]) {
        Expression::ArrayLiteral(a) => assert!(a.arr.is_empty()),
        other => panic!("{:?}", other),
    }
    match print_expr(&prog[1]) {
        Expression::ArrayLiteral(a) => {
            assert_eq!(a.arr.len(), 2);
            assert!(matches!(&a.arr[0], Expression::ArrayLiteral(inner) if inner.arr.is_empty()));
            assert!(matches!(&a.arr[1], Expression::ArrayLiteral(inner) if inner.arr.len() == 1));
        }
        other => panic!("{:?}", other),
    }
    match parse_err("out [1, 2") {
        Error::Parse(p) => assert_eq!(p.msg, "expected `,`"),
        other => panic!("{:?}", other),
    }
}
