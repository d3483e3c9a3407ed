//! The grammar of the language, as a function from the token stream to the
//! syntax tree. The parser in `parser.rs` is proved to compute it.
use vstd::prelude::*;
use crate::ast::{BinaryOperators, SpecExpr, SpecStmt, UnaryOperators};
use crate::error::{ParserErrorKind, SpecError, SpecParserError};
use crate::lexer::{LexPos, LexStep, lex_token, lemma_lex_progress};
use crate::token::{SpecToken, SpecTokenKind};

verus! {

/// Where the parser stands: the current token and the position of the lexer after it.
pub struct PState {
    pub curr: SpecToken,
    pub pos: LexPos,
}

/// A measure that reading a token other than `EOF` makes smaller.
pub open spec fn measure(s: Seq<u8>, st: PState) -> nat {
    let rest: int = s.len() - st.pos.idx;
    ((if rest >= 0 { 2 * rest } else { 0 }) + (if st.curr.kind is EOF { 0int } else { 1int })) as nat
}

/// The states that the parser can reach: the lexer lies in the input, and
/// `EOF` comes only at its end.
pub open spec fn pstate_ok(s: Seq<u8>, st: PState) -> bool {
    &&& 0 <= st.pos.idx <= s.len()
    &&& (st.curr.kind is EOF ==> st.pos.idx == s.len())
}

pub open spec fn parse_error(kind: ParserErrorKind, msg: Seq<char>, line: int, column: int) -> SpecError {
    SpecError::Parse(SpecParserError { kind, msg, line, column })
}

/// An `UnexpectedToken` error at a token.
pub open spec fn unexpected(msg: Seq<char>, t: SpecToken) -> SpecError {
    parse_error(ParserErrorKind::UnexpectedToken, msg, t.line, t.column)
}

/// The value of the branches that the measure rules out: a reachable state
/// never gives it (each parsing function that succeeds reads a token).
pub open spec fn stuck() -> SpecError {
    parse_error(ParserErrorKind::UnexpectedToken, Seq::empty(), 0, 0)
}

/// Hands out the current token and reads the next one.
pub open spec fn p_consume(s: Seq<u8>, st: PState) -> Result<(SpecToken, PState), SpecError> {
    match lex_token(s, st.pos) {
        LexStep::Failure(e) => Err(SpecError::Lex(e)),
        LexStep::Token(t, p2) => Ok((st.curr, PState { curr: t, pos: p2 })),
    }
}

pub proof fn lemma_consume(s: Seq<u8>, st: PState)
    requires
        pstate_ok(s, st),
    ensures
        p_consume(s, st) matches Ok((t, st2)) ==> {
            &&& t == st.curr
            &&& pstate_ok(s, st2)
            &&& measure(s, st2) <= measure(s, st)
            &&& (!(st.curr.kind is EOF) ==> measure(s, st2) < measure(s, st))
        },
{
    lemma_lex_progress(s, st.pos);
}

/// Reads the current token, which must be of the given kind.
pub open spec fn p_expect(s: Seq<u8>, st: PState, kind: SpecTokenKind, msg: Seq<char>) -> Result<PState, SpecError> {
    if st.curr.kind != kind {
        Err(unexpected(msg, st.curr))
    } else {
        match p_consume(s, st) {
            Err(e) => Err(e),
            Ok((_, st1)) => Ok(st1),
        }
    }
}

/// Reads the current token, which must be an identifier, and gives its name.
pub open spec fn p_expect_identifier(s: Seq<u8>, st: PState, msg: Seq<char>) -> Result<(Seq<char>, PState), SpecError> {
    match p_consume(s, st) {
        Err(e) => Err(e),
        Ok((tok, st1)) => match tok.kind {
            SpecTokenKind::Identifier(v) => Ok((v, st1)),
            _ => Err(unexpected(msg, st.curr)),
        },
    }
}

/// Reads the newlines at the current position.
pub open spec fn p_skip_newlines(s: Seq<u8>, st: PState) -> Result<PState, SpecError>
    decreases measure(s, st),
{
    if st.curr.kind is Newline {
        match p_consume(s, st) {
            Err(e) => Err(e),
            Ok((_, st1)) => if measure(s, st1) < measure(s, st) {
                p_skip_newlines(s, st1)
            } else {
                Err(stuck())
            },
        }
    } else {
        Ok(st)
    }
}

/// The operator that a token stands for at a level of precedence, from
/// 1 (`*`, `/`, `%`, binding tightest) to 6 (`||`).
pub open spec fn binary_op(lvl: nat, k: SpecTokenKind) -> Option<BinaryOperators> {
    if lvl == 1 {
        match k {
            SpecTokenKind::Star => Some(BinaryOperators::Mul),
            SpecTokenKind::Slash => Some(BinaryOperators::Div),
            SpecTokenKind::Percent => Some(BinaryOperators::Mod),
            _ => None,
        }
    } else if lvl == 2 {
        match k {
            SpecTokenKind::Plus => Some(BinaryOperators::Add),
            SpecTokenKind::Minus => Some(BinaryOperators::Sub),
            _ => None,
        }
    } else if lvl == 3 {
        match k {
            SpecTokenKind::LAngle => Some(BinaryOperators::LThan),
            SpecTokenKind::RAngle => Some(BinaryOperators::GThan),
            SpecTokenKind::LAngleEquals => Some(BinaryOperators::LThanEquals),
            SpecTokenKind::RAngleEquals => Some(BinaryOperators::GThanEquals),
            _ => None,
        }
    } else if lvl == 4 {
        match k {
            SpecTokenKind::DEquals => Some(BinaryOperators::Equals),
            SpecTokenKind::NotEquals => Some(BinaryOperators::NotEquals),
            _ => None,
        }
    } else if lvl == 5 {
        match k {
            SpecTokenKind::DAmpersand => Some(BinaryOperators::And),
            _ => None,
        }
    } else if lvl == 6 {
        match k {
            SpecTokenKind::DPipe => Some(BinaryOperators::Or),
            _ => None,
        }
    } else {
        None
    }
}

/// The unary operator that a token stands for before a factor.
pub open spec fn unary_op(k: SpecTokenKind) -> Option<UnaryOperators> {
    match k {
        SpecTokenKind::Plus => Some(UnaryOperators::Add),
        SpecTokenKind::Minus => Some(UnaryOperators::Sub),
        SpecTokenKind::Exclaim => Some(UnaryOperators::Not),
        SpecTokenKind::Int => Some(UnaryOperators::ToInt),
        SpecTokenKind::Float => Some(UnaryOperators::ToFloat),
        SpecTokenKind::Bool => Some(UnaryOperators::ToBool),
        SpecTokenKind::Str => Some(UnaryOperators::ToStr),
        _ => None,
    }
}

/// An expression at a level of precedence: operands of the level below
/// joined, from left to right, by the operators of this level.
pub open spec fn p_binary(s: Seq<u8>, st: PState, lvl: nat) -> Result<(SpecExpr, PState), SpecError>
    decreases measure(s, st), 2 * lvl + 1,
{
    let first = if lvl <= 1 {
        p_factor(s, st)
    } else {
        p_binary(s, st, (lvl - 1) as nat)
    };
    match first {
        Err(e) => Err(e),
        Ok((lhs, st1)) => if measure(s, st1) <= measure(s, st) {
            p_binary_rest(s, lhs, st1, lvl)
        } else {
            Err(stuck())
        },
    }
}

/// The operators of a level and their right operands after a left operand `lhs`.
pub open spec fn p_binary_rest(s: Seq<u8>, lhs: SpecExpr, st: PState, lvl: nat) -> Result<(SpecExpr, PState), SpecError>
    decreases measure(s, st), 2 * lvl,
{
    match binary_op(lvl, st.curr.kind) {
        None => Ok((lhs, st)),
        Some(op) => match p_consume(s, st) {
            Err(e) => Err(e),
            Ok((_, st1)) => if measure(s, st1) < measure(s, st) {
                let next = if lvl <= 1 {
                    p_factor(s, st1)
                } else {
                    p_binary(s, st1, (lvl - 1) as nat)
                };
                match next {
                    Err(e) => Err(e),
                    Ok((rhs, st2)) => if measure(s, st2) < measure(s, st) {
                        p_binary_rest(s, SpecExpr::Binary(op, Box::new(lhs), Box::new(rhs)), st2, lvl)
                    } else {
                        Err(stuck())
                    },
                }
            } else {
                Err(stuck())
            },
        },
    }
}

/// A whole expression.
pub open spec fn p_expr(s: Seq<u8>, st: PState) -> Result<(SpecExpr, PState), SpecError>
    decreases measure(s, st), 14nat,
{
    p_binary(s, st, 6)
}

/// A factor: a literal, a variable, an indexing, an array, an expression in
/// parentheses, or a unary operator or cast applied to a factor.
pub open spec fn p_factor(s: Seq<u8>, st: PState) -> Result<(SpecExpr, PState), SpecError>
    decreases measure(s, st), 0nat,
{
    if st.curr.kind is LBracket {
        match p_expect(s, st, SpecTokenKind::LBracket, "expected `[`"@) {
            Err(e) => Err(e),
            Ok(st1) => if measure(s, st1) < measure(s, st) {
                p_array_items(s, st1)
            } else {
                Err(stuck())
            },
        }
    } else {
        match p_consume(s, st) {
            Err(e) => Err(e),
            Ok((tok, st1)) => {
                let progress = measure(s, st1) < measure(s, st);
                match tok.kind {
                    SpecTokenKind::IntegerLiteral(n) => Ok((SpecExpr::Int(n), st1)),
                    SpecTokenKind::FloatLiteral(f) => Ok((SpecExpr::Float(f), st1)),
                    SpecTokenKind::True => Ok((SpecExpr::Bool(true), st1)),
                    SpecTokenKind::False => Ok((SpecExpr::Bool(false), st1)),
                    SpecTokenKind::StringLiteral(t) => Ok((SpecExpr::Str(t), st1)),
                    SpecTokenKind::Identifier(v) => {
                        if !(st1.curr.kind is LBracket) {
                            Ok((SpecExpr::Var(v), st1))
                        } else {
                            match p_expect(s, st1, SpecTokenKind::LBracket, "expected `[`"@) {
                                Err(e) => Err(e),
                                Ok(st2) => if measure(s, st2) < measure(s, st) {
                                    match p_expr(s, st2) {
                                        Err(e) => Err(e),
                                        Ok((ie, st3)) => match p_expect(s, st3, SpecTokenKind::RBracket, "expected `]`"@) {
                                            Err(e) => Err(e),
                                            Ok(st4) => Ok((SpecExpr::Index(v, Box::new(ie)), st4)),
                                        },
                                    }
                                } else {
                                    Err(stuck())
                                },
                            }
                        }
                    },
                    SpecTokenKind::LParen => if progress {
                        match p_expr(s, st1) {
                            Err(e) => Err(e),
                            Ok((inner, st2)) => match p_consume(s, st2) {
                                Err(e) => Err(e),
                                Ok((rparen, st3)) => if rparen.kind is RParen {
                                    Ok((inner, st3))
                                } else {
                                    Err(
                                        parse_error(
                                            ParserErrorKind::MissingDelimiter,
                                            "missing `)` after `(`"@,
                                            rparen.line,
                                            rparen.column,
                                        ),
                                    )
                                },
                            },
                        }
                    } else {
                        Err(stuck())
                    },
                    _ => match unary_op(tok.kind) {
                        Some(op) => if progress {
                            match p_factor(s, st1) {
                                Err(e) => Err(e),
                                Ok((operand, st2)) => Ok((SpecExpr::Unary(op, Box::new(operand)), st2)),
                            }
                        } else {
                            Err(stuck())
                        },
                        None => Err(
                            parse_error(ParserErrorKind::UnidentifiedToken, "expected expression"@, tok.line, tok.column),
                        ),
                    },
                }
            },
        }
    }
}

/// An array literal, at its `[`. A factor at a `[` is one.
pub open spec fn p_array(s: Seq<u8>, st: PState) -> Result<(SpecExpr, PState), SpecError> {
    match p_expect(s, st, SpecTokenKind::LBracket, "expected `[`"@) {
        Err(e) => Err(e),
        Ok(st1) => if measure(s, st1) < measure(s, st) {
            p_array_items(s, st1)
        } else {
            Err(stuck())
        },
    }
}

/// The elements of an array literal and its `]`, after its `[`.
pub open spec fn p_array_items(s: Seq<u8>, st: PState) -> Result<(SpecExpr, PState), SpecError>
    decreases measure(s, st), 15nat,
{
    if st.curr.kind is RBracket {
        match p_expect(s, st, SpecTokenKind::RBracket, "expected `]`"@) {
            Err(e) => Err(e),
            Ok(st1) => Ok((SpecExpr::Array(Seq::empty()), st1)),
        }
    } else {
        match p_binary(s, st, 6) {
            Err(e) => Err(e),
            Ok((e, st1)) => if measure(s, st1) <= measure(s, st) {
                p_array_rest(s, seq![e], st1)
            } else {
                Err(stuck())
            },
        }
    }
}

/// The remaining elements of an array literal, each after a `,`, and its `]`.
pub open spec fn p_array_rest(s: Seq<u8>, items: Seq<SpecExpr>, st: PState) -> Result<(SpecExpr, PState), SpecError>
    decreases measure(s, st), 14nat,
{
    if st.curr.kind is RBracket {
        match p_expect(s, st, SpecTokenKind::RBracket, "expected `]`"@) {
            Err(e) => Err(e),
            Ok(st1) => Ok((SpecExpr::Array(items), st1)),
        }
    } else {
        match p_expect(s, st, SpecTokenKind::Comma, "expected `,`"@) {
            Err(e) => Err(e),
            Ok(st1) => if measure(s, st1) < measure(s, st) {
                match p_binary(s, st1, 6) {
                    Err(e) => Err(e),
                    Ok((e, st2)) => if measure(s, st2) < measure(s, st) {
                        p_array_rest(s, items.push(e), st2)
                    } else {
                        Err(stuck())
                    },
                }
            } else {
                Err(stuck())
            },
        }
    }
}

/// `set NAME = EXPR`, at the `set`.
pub open spec fn p_declare(s: Seq<u8>, st: PState) -> Result<(SpecStmt, PState), SpecError> {
    match p_consume(s, st) {
        Err(e) => Err(e),
        Ok((_, st1)) => match p_expect_identifier(s, st1, "expected identifier after `set`"@) {
            Err(e) => Err(e),
            Ok((name, st2)) => match p_expect(s, st2, SpecTokenKind::Equals, "expected `=`"@) {
                Err(e) => Err(e),
                Ok(st3) => match p_expr(s, st3) {
                    Err(e) => Err(e),
                    Ok((e, st4)) => Ok((SpecStmt::Declare(name, e), st4)),
                },
            },
        },
    }
}

/// `NAME = EXPR` or `NAME[EXPR] = EXPR`, at the name.
pub open spec fn p_assign(s: Seq<u8>, st: PState) -> Result<(SpecStmt, PState), SpecError> {
    match p_expect_identifier(s, st, "expected identifier"@) {
        Err(e) => Err(e),
        Ok((name, st1)) => if !(st1.curr.kind is Equals) {
            match p_expect(s, st1, SpecTokenKind::LBracket, "expected `[`"@) {
                Err(e) => Err(e),
                Ok(st2) => match p_expr(s, st2) {
                    Err(e) => Err(e),
                    Ok((idx, st3)) => match p_expect(s, st3, SpecTokenKind::RBracket, "expected `]`"@) {
                        Err(e) => Err(e),
                        Ok(st4) => match p_expect(s, st4, SpecTokenKind::Equals, "expected `=`"@) {
                            Err(e) => Err(e),
                            Ok(st5) => match p_expr(s, st5) {
                                Err(e) => Err(e),
                                Ok((e, st6)) => Ok((SpecStmt::IndexAssign(name, idx, e), st6)),
                            },
                        },
                    },
                },
            }
        } else {
            match p_expect(s, st1, SpecTokenKind::Equals, "expected `=`"@) {
                Err(e) => Err(e),
                Ok(st2) => match p_expr(s, st2) {
                    Err(e) => Err(e),
                    Ok((e, st3)) => Ok((SpecStmt::Assign(name, e), st3)),
                },
            }
        },
    }
}

/// `del NAME` (when `input` is false) or `in NAME` (when it is true), at the keyword.
pub open spec fn p_name_stmt(s: Seq<u8>, st: PState, input: bool) -> Result<(SpecStmt, PState), SpecError> {
    match p_consume(s, st) {
        Err(e) => Err(e),
        Ok((_, st1)) => match p_expect_identifier(s, st1, "expected identifier"@) {
            Err(e) => Err(e),
            Ok((name, st2)) => Ok((if input { SpecStmt::Input(name) } else { SpecStmt::Delete(name) }, st2)),
        },
    }
}

/// `out EXPR`, at the `out`.
pub open spec fn p_print(s: Seq<u8>, st: PState) -> Result<(SpecStmt, PState), SpecError> {
    match p_consume(s, st) {
        Err(e) => Err(e),
        Ok((_, st1)) => match p_expr(s, st1) {
            Err(e) => Err(e),
            Ok((e, st2)) => Ok((SpecStmt::Print(e), st2)),
        },
    }
}

/// The blocks of statements: the branches of an `if`, the body of a
/// `while`, and the whole program.
#[derive(Clone, Copy)]
pub enum BlockKind {
    Then,
    Else,
    Body,
    Program,
}

/// Whether a token ends a block.
pub open spec fn ends_block(kind: BlockKind, k: SpecTokenKind) -> bool {
    match kind {
        BlockKind::Then => k is Else || k is EndIf,
        BlockKind::Else => k is EndIf,
        BlockKind::Body => k is EndWhile,
        BlockKind::Program => k is EOF,
    }
}

/// The error when the input ends inside a block.
pub open spec fn unclosed_msg(kind: BlockKind) -> Seq<char> {
    match kind {
        BlockKind::Then => "expected `endif` to close `if` statement"@,
        BlockKind::Else => "expected `endif` to close `if else` statement"@,
        BlockKind::Body => "expected `endwhile` to close `while` statement"@,
        BlockKind::Program => Seq::empty(),
    }
}

/// The statements of a block, each followed by newlines, up to the token
/// that ends the block; `acc` holds those already read.
pub open spec fn p_block(s: Seq<u8>, st: PState, acc: Seq<SpecStmt>, kind: BlockKind) -> Result<(Seq<SpecStmt>, PState), SpecError>
    decreases measure(s, st), 4nat,
{
    if ends_block(kind, st.curr.kind) {
        Ok((acc, st))
    } else if st.curr.kind is EOF {
        Err(unexpected(unclosed_msg(kind), st.curr))
    } else {
        match p_statement(s, st) {
            Err(e) => Err(e),
            Ok((stmt, st1)) => match p_skip_newlines(s, st1) {
                Err(e) => Err(e),
                Ok(st2) => if measure(s, st2) < measure(s, st) {
                    p_block(s, st2, acc.push(stmt), kind)
                } else {
                    Err(stuck())
                },
            },
        }
    }
}

/// A statement, which a newline or the end of the input must follow.
pub open spec fn p_statement(s: Seq<u8>, st: PState) -> Result<(SpecStmt, PState), SpecError>
    decreases measure(s, st), 3nat,
{
    let r = match st.curr.kind {
        SpecTokenKind::SetKeyword => p_declare(s, st),
        SpecTokenKind::Identifier(_) => p_assign(s, st),
        SpecTokenKind::Del => p_name_stmt(s, st, false),
        SpecTokenKind::In => p_name_stmt(s, st, true),
        SpecTokenKind::Out => p_print(s, st),
        SpecTokenKind::If => p_if(s, st),
        SpecTokenKind::While => p_while(s, st),
        _ => Err(parse_error(ParserErrorKind::ExpectedStatement, "expected statement"@, st.curr.line, st.curr.column)),
    };
    match r {
        Err(e) => Err(e),
        Ok((stmt, st1)) => if !(st1.curr.kind is Newline) && !(st1.curr.kind is EOF) {
            Err(unexpected("expected newline or end of file after statement"@, st1.curr))
        } else {
            Ok((stmt, st1))
        },
    }
}

/// The part of an `if` or `while` up to its block: the keyword, the
/// condition, `:` and newlines.
pub open spec fn p_head(s: Seq<u8>, st: PState) -> Result<(SpecExpr, PState), SpecError> {
    match p_consume(s, st) {
        Err(e) => Err(e),
        Ok((_, st1)) => match p_expr(s, st1) {
            Err(e) => Err(e),
            Ok((cond, st2)) => match p_expect(s, st2, SpecTokenKind::Colon, "expected `:`"@) {
                Err(e) => Err(e),
                Ok(st3) => match p_skip_newlines(s, st3) {
                    Err(e) => Err(e),
                    Ok(st4) => Ok((cond, st4)),
                },
            },
        },
    }
}

/// `if EXPR:` block, optionally `else:` block, then `endif`; at the `if`.
pub open spec fn p_if(s: Seq<u8>, st: PState) -> Result<(SpecStmt, PState), SpecError>
    decreases measure(s, st), 2nat,
{
    match p_head(s, st) {
        Err(e) => Err(e),
        Ok((cond, st1)) => if measure(s, st1) < measure(s, st) {
            match p_block(s, st1, Seq::empty(), BlockKind::Then) {
                Err(e) => Err(e),
                Ok((then_stmts, st2)) => if st2.curr.kind is Else {
                    match p_consume(s, st2) {
                        Err(e) => Err(e),
                        Ok((_, st3)) => match p_expect(s, st3, SpecTokenKind::Colon, "expected `:`"@) {
                            Err(e) => Err(e),
                            Ok(st4) => match p_skip_newlines(s, st4) {
                                Err(e) => Err(e),
                                Ok(st5) => if measure(s, st5) < measure(s, st) {
                                    match p_block(s, st5, Seq::empty(), BlockKind::Else) {
                                        Err(e) => Err(e),
                                        Ok((else_stmts, st6)) => match p_expect(s, st6, SpecTokenKind::EndIf, "expected `endif`"@) {
                                            Err(e) => Err(e),
                                            Ok(st7) => Ok((SpecStmt::If(cond, then_stmts, else_stmts), st7)),
                                        },
                                    }
                                } else {
                                    Err(stuck())
                                },
                            },
                        },
                    }
                } else {
                    match p_expect(s, st2, SpecTokenKind::EndIf, "expected `endif`"@) {
                        Err(e) => Err(e),
                        Ok(st3) => Ok((SpecStmt::If(cond, then_stmts, Seq::empty()), st3)),
                    }
                },
            }
        } else {
            Err(stuck())
        },
    }
}

/// `while EXPR:` block `endwhile`; at the `while`.
pub open spec fn p_while(s: Seq<u8>, st: PState) -> Result<(SpecStmt, PState), SpecError>
    decreases measure(s, st), 2nat,
{
    match p_head(s, st) {
        Err(e) => Err(e),
        Ok((cond, st1)) => if measure(s, st1) < measure(s, st) {
            match p_block(s, st1, Seq::empty(), BlockKind::Body) {
                Err(e) => Err(e),
                Ok((body, st2)) => match p_consume(s, st2) {
                    Err(e) => Err(e),
                    Ok((_, st3)) => Ok((SpecStmt::While(cond, body), st3)),
                },
            }
        } else {
            Err(stuck())
        },
    }
}

/// A program: newlines, then statements each followed by newlines, up to `EOF`.
pub open spec fn p_program(s: Seq<u8>, st: PState) -> Result<(Seq<SpecStmt>, PState), SpecError> {
    match p_skip_newlines(s, st) {
        Err(e) => Err(e),
        Ok(st1) => p_block(s, st1, Seq::empty(), BlockKind::Program),
    }
}

/// The position at the start of a text.
pub open spec fn start_pos() -> LexPos {
    LexPos { idx: 0, line: 1, column: 1 }
}

/// The program that a source text (given as its UTF-8 bytes) denotes, or
/// the first error that reading it meets.
pub open spec fn parse_bytes(s: Seq<u8>) -> Result<Seq<SpecStmt>, SpecError> {
    match lex_token(s, start_pos()) {
        LexStep::Failure(e) => Err(SpecError::Lex(e)),
        LexStep::Token(t, p) => match p_program(s, PState { curr: t, pos: p }) {
            Err(e) => Err(e),
            Ok((prog, _)) => Ok(prog),
        },
    }
}

} // verus!
