//! The recursive-descent parser, proved to compute the grammar of `grammar.rs`.
use vstd::prelude::*;
use crate::ast::{
    ArrayIndexing, ArrayLiteral, AssignmentStmt, BinaryOperation, BinaryOperators, BooleanLiteral,
    DeclareStmt, DeleteStmt, Expression, FloatLiteral, Identifier, IfStmt, IndexAssignmentStmt,
    InputStmt, IntegerLiteral, PrintStmt, SpecExpr, SpecStmt, Statement, StringLiteral, UnaryOperation,
    UnaryOperators, WhileStmt, stmts_view, lemma_stmts_view_push, lemma_exprs_view_push, exprs_view,
};
use crate::error::{Error, ParserError, ParserErrorKind, SpecError};
use crate::grammar::{
    BlockKind, PState, binary_op, ends_block, lemma_consume, measure, p_array, p_array_items, p_array_rest,
    p_assign, p_binary, p_binary_rest, p_block, p_consume, p_declare, p_expect, p_expect_identifier,
    p_expr, p_factor, p_head, p_if, p_name_stmt, p_print, p_program, p_skip_newlines, p_statement,
    p_while, parse_bytes, pstate_ok, unary_op, };
use crate::lexer::{Lexer, lex_token, LexStep, lemma_lex_progress};
use crate::token::{Token, TokenKind};

verus! {

/// Whether an executable result is the one that the grammar gives, the
/// parser then standing at `after`.
pub open spec fn res_matches<T: View>(spec: Result<(T::V, PState), SpecError>, res: Result<T, Error>, after: PState) -> bool {
    match spec {
        Ok((x, st)) => res matches Ok(v) && v@ == x && after == st,
        Err(e) => res matches Err(err) && err@ == e,
    }
}

/// The same, for a list of statements.
pub open spec fn block_matches(spec: Result<(Seq<SpecStmt>, PState), SpecError>, res: Result<Vec<Statement>, Error>, after: PState) -> bool {
    match spec {
        Ok((x, st)) => res matches Ok(v) && stmts_view(v@) == x && after == st,
        Err(e) => res matches Err(err) && err@ == e,
    }
}

/// The same, for a step that gives only the next state.
pub open spec fn state_matches<T>(spec: Result<PState, SpecError>, res: Result<T, Error>, after: PState) -> bool {
    match spec {
        Ok(st) => res is Ok && after == st,
        Err(e) => res matches Err(err) && err@ == e,
    }
}

/// Reads a program from the tokens of a lexer.
pub struct Parser<'a> {
    lexer: Lexer<'a>,
    curr_token: Token,
}

impl<'a> Parser<'a> {
    /// The bytes of the source text.
    pub closed spec fn input(&self) -> Seq<u8> {
        self.lexer.input@
    }

    /// The current token and the lexer's position after it.
    pub closed spec fn state(&self) -> PState {
        PState { curr: self.curr_token@, pos: self.lexer.pos() }
    }

    pub closed spec fn wf(&self) -> bool {
        &&& self.lexer.wf()
        &&& pstate_ok(self.input(), self.state())
    }

    /// A parser on the first token of the lexer.
    pub fn new(mut lexer: Lexer<'a>) -> (res: Result<Self, Error>)
        requires
            lexer.wf(),
        ensures
            match lex_token(lexer.input@, lexer.pos()) {
                LexStep::Failure(e) => res matches Err(err) && err@ == SpecError::Lex(e),
                LexStep::Token(t, p) => res matches Ok(parser) && parser.wf() && parser.input() == lexer.input@
                    && parser.state() == (PState { curr: t, pos: p }),
            },
    {
        proof {
            lemma_lex_progress(lexer.input@, lexer.pos());
        }
        match lexer.next_token() {
            Ok(token) => Ok(Self { lexer, curr_token: token }),
            Err(e) => Err(Error::Lex(e)),
        }
    }

    /// Reads the whole program.
    pub fn parse(&mut self) -> (res: Result<Vec<Statement>, Error>)
        requires
            old(self).wf(),
        ensures
            block_matches(p_program(old(self).input(), old(self).state()), res, final(self).state()),
    {
        self.program()
    }

    fn consume(&mut self) -> (res: Result<Token, Error>)
        requires
            old(self).wf(),
        ensures
            final(self).input() == old(self).input(),
            res_matches(p_consume(old(self).input(), old(self).state()), res, final(self).state()),
            res is Ok ==> final(self).wf() && measure(final(self).input(), final(self).state()) <= measure(
                old(self).input(),
                old(self).state(),
            ),
            res is Ok && !(old(self).state().curr.kind is EOF) ==> measure(final(self).input(), final(self).state())
                < measure(old(self).input(), old(self).state()),
    {
        proof {
            lemma_consume(self.input(), self.state());
        }
        let mut next = match self.lexer.next_token() {
            Ok(t) => t,
            Err(e) => {
                return Err(Error::Lex(e));
            },
        };
        std::mem::swap(&mut self.curr_token, &mut next);
        Ok(next)
    }

    fn skip_newlines(&mut self) -> (res: Result<(), Error>)
        requires
            old(self).wf(),
        ensures
            final(self).input() == old(self).input(),
            state_matches(p_skip_newlines(old(self).input(), old(self).state()), res, final(self).state()),
            res is Ok ==> final(self).wf() && measure(final(self).input(), final(self).state()) <= measure(
                old(self).input(),
                old(self).state(),
            ),
    {
        let ghost s = self.input();
        let ghost st0 = self.state();
        while is_newline(&self.curr_token.kind)
            invariant
                self.wf(),
                self.input() == s,
                s == old(self).input(),
                st0 == old(self).state(),
                p_skip_newlines(s, self.state()) == p_skip_newlines(s, st0),
                measure(s, self.state()) <= measure(s, st0),
            decreases measure(s, self.state()),
        {
            match self.consume() {
                Ok(_) => {},
                Err(e) => {
                    return Err(e);
                },
            }
        }
        Ok(())
    }

    fn expect_identifier(&mut self, msg: &str) -> (res: Result<String, Error>)
        requires
            old(self).wf(),
        ensures
            final(self).input() == old(self).input(),
            res_matches(p_expect_identifier(old(self).input(), old(self).state(), msg@), res, final(self).state()),
            res is Ok ==> final(self).wf() && measure(final(self).input(), final(self).state()) < measure(
                old(self).input(),
                old(self).state(),
            ),
    {
        let line = self.curr_token.line;
        let column = self.curr_token.column;
        let token = match self.consume() {
            Ok(t) => t,
            Err(e) => {
                return Err(e);
            },
        };
        match token.kind {
            TokenKind::Identifier(value) => Ok(value),
            _ => Err(Error::Parse(ParserError::new(ParserErrorKind::UnexpectedToken, String::from_str(msg), line, column))),
        }
    }

    fn expect_token(&mut self, kind: TokenKind, msg: &str) -> (res: Result<Token, Error>)
        requires
            old(self).wf(),
        ensures
            final(self).input() == old(self).input(),
            state_matches(p_expect(old(self).input(), old(self).state(), kind@, msg@), res, final(self).state()),
            res is Ok ==> final(self).wf() && measure(final(self).input(), final(self).state()) <= measure(
                old(self).input(),
                old(self).state(),
            ),
            res is Ok && !(kind@ is EOF) ==> measure(final(self).input(), final(self).state()) < measure(
                old(self).input(),
                old(self).state(),
            ),
    {
        if !kind_eq(&self.curr_token.kind, &kind) {
            return Err(
                Error::Parse(
                    ParserError::new(
                        ParserErrorKind::UnexpectedToken,
                        String::from_str(msg),
                        self.curr_token.line,
                        self.curr_token.column,
                    ),
                ),
            );
        }
        self.consume()
    }

    fn construct_un_expr(&self, operator: UnaryOperators, operand: Expression) -> (r: Expression)
        ensures
            r@ == SpecExpr::Unary(operator, Box::new(operand@)),
    {
        let res = UnaryOperation { operator, operand: Box::new(operand) };
        Expression::UnaryOperation(res)
    }

    fn construct_bin_expr(&self, operator: BinaryOperators, lhs: Expression, rhs: Expression) -> (r: Expression)
        ensures
            r@ == SpecExpr::Binary(operator, Box::new(lhs@), Box::new(rhs@)),
    {
        let res = BinaryOperation { operator, left: Box::new(lhs), right: Box::new(rhs) };
        Expression::BinaryOperation(res)
    }
}

impl<'a> Parser<'a> {
    /// An expression: the loosest level of precedence.
    fn expr(&mut self) -> (res: Result<Expression, Error>)
        requires
            old(self).wf(),
        ensures
            final(self).input() == old(self).input(),
            res_matches(p_expr(old(self).input(), old(self).state()), res, final(self).state()),
            res is Ok ==> final(self).wf() && measure(final(self).input(), final(self).state()) < measure(
                old(self).input(),
                old(self).state(),
            ),
        decreases measure(old(self).input(), old(self).state()), 22nat,
    {
        self.or_expr()
    }

    fn or_expr(&mut self) -> (res: Result<Expression, Error>)
        requires
            old(self).wf(),
        ensures
            final(self).input() == old(self).input(),
            res_matches(p_binary(old(self).input(), old(self).state(), 6), res, final(self).state()),
            res is Ok ==> final(self).wf() && measure(final(self).input(), final(self).state()) < measure(
                old(self).input(),
                old(self).state(),
            ),
        decreases measure(old(self).input(), old(self).state()), 21nat,
    {
        self.binary(6)
    }

    fn and_expr(&mut self) -> (res: Result<Expression, Error>)
        requires
            old(self).wf(),
        ensures
            final(self).input() == old(self).input(),
            res_matches(p_binary(old(self).input(), old(self).state(), 5), res, final(self).state()),
            res is Ok ==> final(self).wf() && measure(final(self).input(), final(self).state()) < measure(
                old(self).input(),
                old(self).state(),
            ),
        decreases measure(old(self).input(), old(self).state()), 18nat,
    {
        self.binary(5)
    }

    fn equality(&mut self) -> (res: Result<Expression, Error>)
        requires
            old(self).wf(),
        ensures
            final(self).input() == old(self).input(),
            res_matches(p_binary(old(self).input(), old(self).state(), 4), res, final(self).state()),
            res is Ok ==> final(self).wf() && measure(final(self).input(), final(self).state()) < measure(
                old(self).input(),
                old(self).state(),
            ),
        decreases measure(old(self).input(), old(self).state()), 15nat,
    {
        self.binary(4)
    }

    fn comparison(&mut self) -> (res: Result<Expression, Error>)
        requires
            old(self).wf(),
        ensures
            final(self).input() == old(self).input(),
            res_matches(p_binary(old(self).input(), old(self).state(), 3), res, final(self).state()),
            res is Ok ==> final(self).wf() && measure(final(self).input(), final(self).state()) < measure(
                old(self).input(),
                old(self).state(),
            ),
        decreases measure(old(self).input(), old(self).state()), 12nat,
    {
        self.binary(3)
    }

    fn arithmetic(&mut self) -> (res: Result<Expression, Error>)
        requires
            old(self).wf(),
        ensures
            final(self).input() == old(self).input(),
            res_matches(p_binary(old(self).input(), old(self).state(), 2), res, final(self).state()),
            res is Ok ==> final(self).wf() && measure(final(self).input(), final(self).state()) < measure(
                old(self).input(),
                old(self).state(),
            ),
        decreases measure(old(self).input(), old(self).state()), 9nat,
    {
        self.binary(2)
    }

    fn term(&mut self) -> (res: Result<Expression, Error>)
        requires
            old(self).wf(),
        ensures
            final(self).input() == old(self).input(),
            res_matches(p_binary(old(self).input(), old(self).state(), 1), res, final(self).state()),
            res is Ok ==> final(self).wf() && measure(final(self).input(), final(self).state()) < measure(
                old(self).input(),
                old(self).state(),
            ),
        decreases measure(old(self).input(), old(self).state()), 6nat,
    {
        self.binary(1)
    }

    /// The operand of a level of precedence: a factor at level 1, else the level below.
    fn operand(&mut self, lvl: u8) -> (res: Result<Expression, Error>)
        requires
            old(self).wf(),
            1 <= lvl <= 6,
        ensures
            final(self).input() == old(self).input(),
            res_matches(
                if lvl <= 1 { p_factor(old(self).input(), old(self).state()) } else {
                    p_binary(old(self).input(), old(self).state(), (lvl - 1) as nat)
                },
                res,
                final(self).state(),
            ),
            res is Ok ==> final(self).wf() && measure(final(self).input(), final(self).state()) < measure(
                old(self).input(),
                old(self).state(),
            ),
        decreases measure(old(self).input(), old(self).state()), 3 * lvl + 1,
    {
        if lvl == 1 {
            self.factor()
        } else if lvl == 2 {
            self.term()
        } else if lvl == 3 {
            self.arithmetic()
        } else if lvl == 4 {
            self.comparison()
        } else if lvl == 5 {
            self.equality()
        } else {
            self.and_expr()
        }
    }

    /// Operands of the level below joined, from left to right, by the
    /// operators of level `lvl`.
    fn binary(&mut self, lvl: u8) -> (res: Result<Expression, Error>)
        requires
            old(self).wf(),
            1 <= lvl <= 6,
        ensures
            final(self).input() == old(self).input(),
            res_matches(p_binary(old(self).input(), old(self).state(), lvl as nat), res, final(self).state()),
            res is Ok ==> final(self).wf() && measure(final(self).input(), final(self).state()) < measure(
                old(self).input(),
                old(self).state(),
            ),
        decreases measure(old(self).input(), old(self).state()), 3 * lvl + 2,
    {
        let ghost s = self.input();
        let ghost st0 = self.state();
        let mut lhs = match self.operand(lvl) {
            Ok(e) => e,
            Err(e) => {
                return Err(e);
            },
        };
        let ghost st1 = self.state();
        let ghost lhs1 = lhs@;
        assert(p_binary(s, st0, lvl as nat) == p_binary_rest(s, lhs1, st1, lvl as nat));
        loop
            invariant
                self.wf(),
                self.input() == s,
                s == old(self).input(),
                st0 == old(self).state(),
                1 <= lvl <= 6,
                p_binary(s, st0, lvl as nat) == p_binary_rest(s, lhs@, self.state(), lvl as nat),
                measure(s, self.state()) < measure(s, st0),
            decreases measure(s, self.state()),
        {
            let ghost cur = self.state();
            let op = match binary_operator(lvl, &self.curr_token.kind) {
                None => {
                    return Ok(lhs);
                },
                Some(op) => op,
            };
            match self.consume() {
                Ok(_) => {},
                Err(e) => {
                    return Err(e);
                },
            }
            let rhs = match self.operand(lvl) {
                Ok(e) => e,
                Err(e) => {
                    return Err(e);
                },
            };
            lhs = self.construct_bin_expr(op, lhs, rhs);
        }
    }

    /// A factor: a literal, a variable, an indexing, an array, an expression
    /// in parentheses, or a unary operator or cast applied to a factor.
    fn factor(&mut self) -> (res: Result<Expression, Error>)
        requires
            old(self).wf(),
        ensures
            final(self).input() == old(self).input(),
            res_matches(p_factor(old(self).input(), old(self).state()), res, final(self).state()),
            res is Ok ==> final(self).wf() && measure(final(self).input(), final(self).state()) < measure(
                old(self).input(),
                old(self).state(),
            ),
        decreases measure(old(self).input(), old(self).state()), 1nat,
    {
        let ghost s = self.input();
        let ghost st0 = self.state();
        assert(st0.curr.kind is LBracket ==> p_factor(s, st0) == p_array(s, st0));
        if matches!(self.curr_token.kind, TokenKind::LBracket) {
            return self.array();
        }
        let token = match self.consume() {
            Ok(t) => t,
            Err(e) => {
                return Err(e);
            },
        };
        let line = token.line;
        let column = token.column;
        match token.kind {
            TokenKind::IntegerLiteral(n) => Ok(Expression::IntegerLiteral(IntegerLiteral { int: n })),
            TokenKind::FloatLiteral(float) => Ok(Expression::FloatLiteral(FloatLiteral { float })),
            TokenKind::True => Ok(Expression::BooleanLiteral(BooleanLiteral { boolean: true })),
            TokenKind::False => Ok(Expression::BooleanLiteral(BooleanLiteral { boolean: false })),
            TokenKind::StringLiteral(string) => Ok(Expression::StringLiteral(StringLiteral { string })),
            TokenKind::Identifier(value) => {
                if !matches!(self.curr_token.kind, TokenKind::LBracket) {
                    return Ok(Expression::Identifier(Identifier { value }));
                }
                match self.expect_token(TokenKind::LBracket, "expected `[`") {
                    Ok(_) => {},
                    Err(e) => {
                        return Err(e);
                    },
                }
                let expr = match self.expr() {
                    Ok(e) => e,
                    Err(e) => {
                        return Err(e);
                    },
                };
                match self.expect_token(TokenKind::RBracket, "expected `]`") {
                    Ok(_) => {},
                    Err(e) => {
                        return Err(e);
                    },
                }
                Ok(Expression::ArrayIndexing(ArrayIndexing { iden: Identifier { value }, idx: Box::new(expr) }))
            },
            TokenKind::LParen => {
                let res = match self.expr() {
                    Ok(e) => e,
                    Err(e) => {
                        return Err(e);
                    },
                };
                let rparen = match self.consume() {
                    Ok(t) => t,
                    Err(e) => {
                        return Err(e);
                    },
                };
                if !matches!(rparen.kind, TokenKind::RParen) {
                    return Err(
                        Error::Parse(
                            ParserError::new(
                                ParserErrorKind::MissingDelimiter,
                                String::from_str("missing `)` after `(`"),
                                rparen.line,
                                rparen.column,
                            ),
                        ),
                    );
                }
                Ok(res)
            },
            other => match unary_operator(&other) {
                Some(op) => {
                    let operand = match self.factor() {
                        Ok(e) => e,
                        Err(e) => {
                            return Err(e);
                        },
                    };
                    Ok(self.construct_un_expr(op, operand))
                },
                None => Err(
                    Error::Parse(
                        ParserError::new(
                            ParserErrorKind::UnidentifiedToken,
                            String::from_str("expected expression"),
                            line,
                            column,
                        ),
                    ),
                ),
            },
        }
    }

    /// An array literal, at its `[`.
    fn array(&mut self) -> (res: Result<Expression, Error>)
        requires
            old(self).wf(),
        ensures
            final(self).input() == old(self).input(),
            res_matches(p_array(old(self).input(), old(self).state()), res, final(self).state()),
            res is Ok ==> final(self).wf() && measure(final(self).input(), final(self).state()) < measure(
                old(self).input(),
                old(self).state(),
            ),
        decreases measure(old(self).input(), old(self).state()), 0nat,
    {
        let ghost s = self.input();
        let ghost st0 = self.state();
        match self.expect_token(TokenKind::LBracket, "expected `[`") {
            Ok(_) => {},
            Err(e) => {
                return Err(e);
            },
        }
        assert(p_array(s, st0) == p_array_items(s, self.state()));
        let mut arr: Vec<Expression> = Vec::new();
        if !matches!(self.curr_token.kind, TokenKind::RBracket) {
            let expr = match self.expr() {
                Ok(e) => e,
                Err(e) => {
                    return Err(e);
                },
            };
            proof {
                lemma_exprs_view_push(arr@, expr);
            }
            arr.push(expr);
            assert(p_array(s, st0) == p_array_rest(s, exprs_view(arr@), self.state()));
            while !matches!(self.curr_token.kind, TokenKind::RBracket)
                invariant
                    self.wf(),
                    self.input() == s,
                    s == old(self).input(),
                    st0 == old(self).state(),
                    p_array(s, st0) == p_array_rest(s, exprs_view(arr@), self.state()),
                    measure(s, self.state()) < measure(s, st0),
                decreases measure(s, self.state()),
            {
                match self.expect_token(TokenKind::Comma, "expected `,`") {
                    Ok(_) => {},
                    Err(e) => {
                        return Err(e);
                    },
                }
                let expr = match self.expr() {
                    Ok(e) => e,
                    Err(e) => {
                        return Err(e);
                    },
                };
                proof {
                    lemma_exprs_view_push(arr@, expr);
                }
                arr.push(expr);
            }
        }
        match self.expect_token(TokenKind::RBracket, "expected `]`") {
            Ok(_) => {},
            Err(e) => {
                return Err(e);
            },
        }
        Ok(Expression::ArrayLiteral(ArrayLiteral { arr }))
    }
}

impl<'a> Parser<'a> {
    fn program(&mut self) -> (res: Result<Vec<Statement>, Error>)
        requires
            old(self).wf(),
        ensures
            block_matches(p_program(old(self).input(), old(self).state()), res, final(self).state()),
    {
        match self.skip_newlines() {
            Ok(()) => {},
            Err(e) => {
                return Err(e);
            },
        }
        self.block(BlockKind::Program)
    }

    /// The statements of a block, each followed by newlines, up to the
    /// token that ends the block.
    fn block(&mut self, kind: BlockKind) -> (res: Result<Vec<Statement>, Error>)
        requires
            old(self).wf(),
        ensures
            final(self).input() == old(self).input(),
            block_matches(p_block(old(self).input(), old(self).state(), Seq::empty(), kind), res, final(self).state()),
            res is Ok ==> final(self).wf() && measure(final(self).input(), final(self).state()) <= measure(
                old(self).input(),
                old(self).state(),
            ),
        decreases measure(old(self).input(), old(self).state()), 4nat,
    {
        let ghost s = self.input();
        let ghost st0 = self.state();
        let mut statements: Vec<Statement> = Vec::new();
        assert(stmts_view(statements@) == Seq::<SpecStmt>::empty());
        while !block_ends(kind, &self.curr_token.kind)
            invariant
                self.wf(),
                self.input() == s,
                s == old(self).input(),
                st0 == old(self).state(),
                p_block(s, st0, Seq::empty(), kind) == p_block(s, self.state(), stmts_view(statements@), kind),
                measure(s, self.state()) <= measure(s, st0),
            decreases measure(s, self.state()),
        {
            if matches!(self.curr_token.kind, TokenKind::EOF) {
                return Err(
                    Error::Parse(
                        ParserError::new(
                            ParserErrorKind::UnexpectedToken,
                            unclosed_message(kind),
                            self.curr_token.line,
                            self.curr_token.column,
                        ),
                    ),
                );
            }
            let stmt = match self.statement() {
                Ok(st) => st,
                Err(e) => {
                    return Err(e);
                },
            };
            match self.skip_newlines() {
                Ok(()) => {},
                Err(e) => {
                    return Err(e);
                },
            }
            proof {
                lemma_stmts_view_push(statements@, stmt);
            }
            statements.push(stmt);
        }
        Ok(statements)
    }

    /// A statement, which a newline or the end of the input must follow.
    #[verifier::rlimit(40)]
    #[verifier::spinoff_prover]
    fn statement(&mut self) -> (res: Result<Statement, Error>)
        requires
            old(self).wf(),
        ensures
            final(self).input() == old(self).input(),
            res_matches(p_statement(old(self).input(), old(self).state()), res, final(self).state()),
            res is Ok ==> final(self).wf() && measure(final(self).input(), final(self).state()) < measure(
                old(self).input(),
                old(self).state(),
            ),
        decreases measure(old(self).input(), old(self).state()), 3nat,
    {
        let r = match &self.curr_token.kind {
            TokenKind::SetKeyword => self.declare_stmt(),
            TokenKind::Identifier(_) => self.assign_stmt(),
            TokenKind::Del => self.delete_stmt(),
            TokenKind::In => self.input_stmt(),
            TokenKind::Out => self.print_stmt(),
            TokenKind::If => self.if_stmt(),
            TokenKind::While => self.while_stmt(),
            _ => {
                return Err(
                    Error::Parse(
                        ParserError::new(
                            ParserErrorKind::ExpectedStatement,
                            String::from_str("expected statement"),
                            self.curr_token.line,
                            self.curr_token.column,
                        ),
                    ),
                );
            },
        };
        let res = match r {
            Ok(st) => st,
            Err(e) => {
                return Err(e);
            },
        };
        if !matches!(self.curr_token.kind, TokenKind::Newline) && !matches!(self.curr_token.kind, TokenKind::EOF) {
            return Err(
                Error::Parse(
                    ParserError::new(
                        ParserErrorKind::UnexpectedToken,
                        String::from_str("expected newline or end of file after statement"),
                        self.curr_token.line,
                        self.curr_token.column,
                    ),
                ),
            );
        }
        Ok(res)
    }

    fn declare_stmt(&mut self) -> (res: Result<Statement, Error>)
        requires
            old(self).wf(),
        ensures
            final(self).input() == old(self).input(),
            res_matches(p_declare(old(self).input(), old(self).state()), res, final(self).state()),
            res is Ok ==> final(self).wf() && measure(final(self).input(), final(self).state()) < measure(
                old(self).input(),
                old(self).state(),
            ),
    {
        match self.consume() {
            Ok(_) => {},
            Err(e) => {
                return Err(e);
            },
        }
        let value = match self.expect_identifier("expected identifier after `set`") {
            Ok(v) => v,
            Err(e) => {
                return Err(e);
            },
        };
        match self.expect_token(TokenKind::Equals, "expected `=`") {
            Ok(_) => {},
            Err(e) => {
                return Err(e);
            },
        }
        let expr = match self.expr() {
            Ok(e) => e,
            Err(e) => {
                return Err(e);
            },
        };
        Ok(Statement::DeclareStmt(DeclareStmt { iden: Identifier { value }, expr }))
    }

    fn assign_stmt(&mut self) -> (res: Result<Statement, Error>)
        requires
            old(self).wf(),
        ensures
            final(self).input() == old(self).input(),
            res_matches(p_assign(old(self).input(), old(self).state()), res, final(self).state()),
            res is Ok ==> final(self).wf() && measure(final(self).input(), final(self).state()) < measure(
                old(self).input(),
                old(self).state(),
            ),
    {
        let value = match self.expect_identifier("expected identifier") {
            Ok(v) => v,
            Err(e) => {
                return Err(e);
            },
        };
        if !matches!(self.curr_token.kind, TokenKind::Equals) {
            match self.expect_token(TokenKind::LBracket, "expected `[`") {
                Ok(_) => {},
                Err(e) => {
                    return Err(e);
                },
            }
            let idx = match self.expr() {
                Ok(e) => e,
                Err(e) => {
                    return Err(e);
                },
            };
            match self.expect_token(TokenKind::RBracket, "expected `]`") {
                Ok(_) => {},
                Err(e) => {
                    return Err(e);
                },
            }
            match self.expect_token(TokenKind::Equals, "expected `=`") {
                Ok(_) => {},
                Err(e) => {
                    return Err(e);
                },
            }
            let expr = match self.expr() {
                Ok(e) => e,
                Err(e) => {
                    return Err(e);
                },
            };
            return Ok(Statement::IndexAssignmentStmt(IndexAssignmentStmt { iden: Identifier { value }, idx, expr }));
        }
        match self.expect_token(TokenKind::Equals, "expected `=`") {
            Ok(_) => {},
            Err(e) => {
                return Err(e);
            },
        }
        let expr = match self.expr() {
            Ok(e) => e,
            Err(e) => {
                return Err(e);
            },
        };
        Ok(Statement::AssignmentStmt(AssignmentStmt { iden: Identifier { value }, expr }))
    }

    fn delete_stmt(&mut self) -> (res: Result<Statement, Error>)
        requires
            old(self).wf(),
        ensures
            final(self).input() == old(self).input(),
            res_matches(p_name_stmt(old(self).input(), old(self).state(), false), res, final(self).state()),
            res is Ok ==> final(self).wf() && measure(final(self).input(), final(self).state()) < measure(
                old(self).input(),
                old(self).state(),
            ),
    {
        match self.consume() {
            Ok(_) => {},
            Err(e) => {
                return Err(e);
            },
        }
        let value = match self.expect_identifier("expected identifier") {
            Ok(v) => v,
            Err(e) => {
                return Err(e);
            },
        };
        Ok(Statement::DeleteStmt(DeleteStmt { iden: Identifier { value } }))
    }

    fn input_stmt(&mut self) -> (res: Result<Statement, Error>)
        requires
            old(self).wf(),
        ensures
            final(self).input() == old(self).input(),
            res_matches(p_name_stmt(old(self).input(), old(self).state(), true), res, final(self).state()),
            res is Ok ==> final(self).wf() && measure(final(self).input(), final(self).state()) < measure(
                old(self).input(),
                old(self).state(),
            ),
    {
        match self.consume() {
            Ok(_) => {},
            Err(e) => {
                return Err(e);
            },
        }
        let value = match self.expect_identifier("expected identifier") {
            Ok(v) => v,
            Err(e) => {
                return Err(e);
            },
        };
        Ok(Statement::InputStmt(InputStmt { iden: Identifier { value } }))
    }

    fn print_stmt(&mut self) -> (res: Result<Statement, Error>)
        requires
            old(self).wf(),
        ensures
            final(self).input() == old(self).input(),
            res_matches(p_print(old(self).input(), old(self).state()), res, final(self).state()),
            res is Ok ==> final(self).wf() && measure(final(self).input(), final(self).state()) < measure(
                old(self).input(),
                old(self).state(),
            ),
    {
        match self.consume() {
            Ok(_) => {},
            Err(e) => {
                return Err(e);
            },
        }
        let expr = match self.expr() {
            Ok(e) => e,
            Err(e) => {
                return Err(e);
            },
        };
        Ok(Statement::PrintStmt(PrintStmt { expr }))
    }

    /// The keyword, the condition, `:` and newlines that open an `if` or a `while`.
    fn head(&mut self) -> (res: Result<Expression, Error>)
        requires
            old(self).wf(),
        ensures
            final(self).input() == old(self).input(),
            res_matches(p_head(old(self).input(), old(self).state()), res, final(self).state()),
            res is Ok ==> final(self).wf() && measure(final(self).input(), final(self).state()) < measure(
                old(self).input(),
                old(self).state(),
            ),
    {
        match self.consume() {
            Ok(_) => {},
            Err(e) => {
                return Err(e);
            },
        }
        let cond = match self.expr() {
            Ok(e) => e,
            Err(e) => {
                return Err(e);
            },
        };
        match self.expect_token(TokenKind::Colon, "expected `:`") {
            Ok(_) => {},
            Err(e) => {
                return Err(e);
            },
        }
        match self.skip_newlines() {
            Ok(()) => {},
            Err(e) => {
                return Err(e);
            },
        }
        Ok(cond)
    }

    fn if_stmt(&mut self) -> (res: Result<Statement, Error>)
        requires
            old(self).wf(),
        ensures
            final(self).input() == old(self).input(),
            res_matches(p_if(old(self).input(), old(self).state()), res, final(self).state()),
            res is Ok ==> final(self).wf() && measure(final(self).input(), final(self).state()) < measure(
                old(self).input(),
                old(self).state(),
            ),
        decreases measure(old(self).input(), old(self).state()), 2nat,
    {
        let if_cond = match self.head() {
            Ok(e) => e,
            Err(e) => {
                return Err(e);
            },
        };
        let if_stmts = match self.block(BlockKind::Then) {
            Ok(v) => v,
            Err(e) => {
                return Err(e);
            },
        };
        let mut else_stmts: Vec<Statement> = Vec::new();
        if matches!(self.curr_token.kind, TokenKind::Else) {
            match self.consume() {
                Ok(_) => {},
                Err(e) => {
                    return Err(e);
                },
            }
            match self.expect_token(TokenKind::Colon, "expected `:`") {
                Ok(_) => {},
                Err(e) => {
                    return Err(e);
                },
            }
            match self.skip_newlines() {
                Ok(()) => {},
                Err(e) => {
                    return Err(e);
                },
            }
            else_stmts = match self.block(BlockKind::Else) {
                Ok(v) => v,
                Err(e) => {
                    return Err(e);
                },
            };
        }
        assert(stmts_view(Seq::<Statement>::empty()) == Seq::<SpecStmt>::empty());
        match self.expect_token(TokenKind::EndIf, "expected `endif`") {
            Ok(_) => {},
            Err(e) => {
                return Err(e);
            },
        }
        Ok(Statement::IfStmt(IfStmt { if_cond, if_stmts, else_stmts }))
    }

    fn while_stmt(&mut self) -> (res: Result<Statement, Error>)
        requires
            old(self).wf(),
        ensures
            final(self).input() == old(self).input(),
            res_matches(p_while(old(self).input(), old(self).state()), res, final(self).state()),
            res is Ok ==> final(self).wf() && measure(final(self).input(), final(self).state()) < measure(
                old(self).input(),
                old(self).state(),
            ),
        decreases measure(old(self).input(), old(self).state()), 2nat,
    {
        let while_cond = match self.head() {
            Ok(e) => e,
            Err(e) => {
                return Err(e);
            },
        };
        let while_stmts = match self.block(BlockKind::Body) {
            Ok(v) => v,
            Err(e) => {
                return Err(e);
            },
        };
        match self.consume() {
            Ok(_) => {},
            Err(e) => {
                return Err(e);
            },
        }
        Ok(Statement::WhileStmt(WhileStmt { while_cond, while_stmts }))
    }
}

/// Whether a token ends a block.
fn block_ends(kind: BlockKind, k: &TokenKind) -> (r: bool)
    ensures
        r == ends_block(kind, k@),
{
    match kind {
        BlockKind::Then => matches!(k, TokenKind::Else) || matches!(k, TokenKind::EndIf),
        BlockKind::Else => matches!(k, TokenKind::EndIf),
        BlockKind::Body => matches!(k, TokenKind::EndWhile),
        BlockKind::Program => matches!(k, TokenKind::EOF),
    }
}

/// The error message when the input ends inside a block.
fn unclosed_message(kind: BlockKind) -> (r: String)
    ensures
        r@ == crate::grammar::unclosed_msg(kind),
{
    match kind {
        BlockKind::Then => String::from_str("expected `endif` to close `if` statement"),
        BlockKind::Else => String::from_str("expected `endif` to close `if else` statement"),
        BlockKind::Body => String::from_str("expected `endwhile` to close `while` statement"),
        BlockKind::Program => String::new(),
    }
}

/// The operator that a token stands for at a level of precedence.
fn binary_operator(lvl: u8, k: &TokenKind) -> (r: Option<BinaryOperators>)
    ensures
        r == binary_op(lvl as nat, k@),
{
    match k {
        TokenKind::Star => if lvl == 1 { Some(BinaryOperators::Mul) } else { None },
        TokenKind::Slash => if lvl == 1 { Some(BinaryOperators::Div) } else { None },
        TokenKind::Percent => if lvl == 1 { Some(BinaryOperators::Mod) } else { None },
        TokenKind::Plus => if lvl == 2 { Some(BinaryOperators::Add) } else { None },
        TokenKind::Minus => if lvl == 2 { Some(BinaryOperators::Sub) } else { None },
        TokenKind::LAngle => if lvl == 3 { Some(BinaryOperators::LThan) } else { None },
        TokenKind::RAngle => if lvl == 3 { Some(BinaryOperators::GThan) } else { None },
        TokenKind::LAngleEquals => if lvl == 3 { Some(BinaryOperators::LThanEquals) } else { None },
        TokenKind::RAngleEquals => if lvl == 3 { Some(BinaryOperators::GThanEquals) } else { None },
        TokenKind::DEquals => if lvl == 4 { Some(BinaryOperators::Equals) } else { None },
        TokenKind::NotEquals => if lvl == 4 { Some(BinaryOperators::NotEquals) } else { None },
        TokenKind::DAmpersand => if lvl == 5 { Some(BinaryOperators::And) } else { None },
        TokenKind::DPipe => if lvl == 6 { Some(BinaryOperators::Or) } else { None },
        _ => None,
    }
}

/// The unary operator that a token stands for before a factor.
fn unary_operator(k: &TokenKind) -> (r: Option<UnaryOperators>)
    ensures
        r == unary_op(k@),
{
    match k {
        TokenKind::Plus => Some(UnaryOperators::Add),
        TokenKind::Minus => Some(UnaryOperators::Sub),
        TokenKind::Exclaim => Some(UnaryOperators::Not),
        TokenKind::Int => Some(UnaryOperators::ToInt),
        TokenKind::Float => Some(UnaryOperators::ToFloat),
        TokenKind::Bool => Some(UnaryOperators::ToBool),
        TokenKind::Str => Some(UnaryOperators::ToStr),
        _ => None,
    }
}

fn is_newline(k: &TokenKind) -> (r: bool)
    ensures
        r == (k@ is Newline),
{
    matches!(k, TokenKind::Newline)
}

/// Whether two token kinds are equal.
fn kind_eq(a: &TokenKind, b: &TokenKind) -> (r: bool)
    ensures
        r == (a@ == b@),
{
    match (a, b) {
        (TokenKind::IntegerLiteral(x), TokenKind::IntegerLiteral(y)) => *x == *y,
        (TokenKind::FloatLiteral(x), TokenKind::FloatLiteral(y)) => *x == *y,
        (TokenKind::StringLiteral(x), TokenKind::StringLiteral(y)) => *x == *y,
        (TokenKind::Identifier(x), TokenKind::Identifier(y)) => *x == *y,
        (TokenKind::True, TokenKind::True) => true,
        (TokenKind::False, TokenKind::False) => true,
        (TokenKind::Plus, TokenKind::Plus) => true,
        (TokenKind::Minus, TokenKind::Minus) => true,
        (TokenKind::Star, TokenKind::Star) => true,
        (TokenKind::Slash, TokenKind::Slash) => true,
        (TokenKind::Percent, TokenKind::Percent) => true,
        (TokenKind::Exclaim, TokenKind::Exclaim) => true,
        (TokenKind::Equals, TokenKind::Equals) => true,
        (TokenKind::LAngle, TokenKind::LAngle) => true,
        (TokenKind::RAngle, TokenKind::RAngle) => true,
        (TokenKind::LAngleEquals, TokenKind::LAngleEquals) => true,
        (TokenKind::RAngleEquals, TokenKind::RAngleEquals) => true,
        (TokenKind::DEquals, TokenKind::DEquals) => true,
        (TokenKind::NotEquals, TokenKind::NotEquals) => true,
        (TokenKind::DAmpersand, TokenKind::DAmpersand) => true,
        (TokenKind::DPipe, TokenKind::DPipe) => true,
        (TokenKind::LParen, TokenKind::LParen) => true,
        (TokenKind::RParen, TokenKind::RParen) => true,
        (TokenKind::LBracket, TokenKind::LBracket) => true,
        (TokenKind::RBracket, TokenKind::RBracket) => true,
        (TokenKind::Comma, TokenKind::Comma) => true,
        (TokenKind::Colon, TokenKind::Colon) => true,
        (TokenKind::SetKeyword, TokenKind::SetKeyword) => true,
        (TokenKind::Del, TokenKind::Del) => true,
        (TokenKind::In, TokenKind::In) => true,
        (TokenKind::Out, TokenKind::Out) => true,
        (TokenKind::If, TokenKind::If) => true,
        (TokenKind::Else, TokenKind::Else) => true,
        (TokenKind::EndIf, TokenKind::EndIf) => true,
        (TokenKind::While, TokenKind::While) => true,
        (TokenKind::EndWhile, TokenKind::EndWhile) => true,
        (TokenKind::Int, TokenKind::Int) => true,
        (TokenKind::Float, TokenKind::Float) => true,
        (TokenKind::Bool, TokenKind::Bool) => true,
        (TokenKind::Str, TokenKind::Str) => true,
        (TokenKind::Newline, TokenKind::Newline) => true,
        (TokenKind::EOF, TokenKind::EOF) => true,
        _ => false,
    }
}

} // verus!

verus! {

/// Reads a whole source text as a program.
pub fn parse_source(src: &str) -> (res: Result<Vec<Statement>, Error>)
    requires
        vstd::utf8::encode_utf8(src@).len() < usize::MAX,
    ensures
        match parse_bytes(vstd::utf8::encode_utf8(src@)) {
            Ok(prog) => res matches Ok(v) && stmts_view(v@) == prog,
            Err(e) => res matches Err(err) && err@ == e,
        },
{
    let lexer = Lexer::new(src);
    let mut parser = match Parser::new(lexer) {
        Ok(p) => p,
        Err(e) => {
            return Err(e);
        },
    };
    parser.parse()
}

} // verus!
