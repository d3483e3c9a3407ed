//! The syntax tree of a program, and its mathematical model.
use vstd::prelude::*;

verus! {

#[derive(Debug)]
pub struct IntegerLiteral {
    pub int: i64,
}

/// A float literal, kept as the digits it was written with.
#[derive(Debug)]
pub struct FloatLiteral {
    pub float: String,
}

#[derive(Debug)]
pub struct BooleanLiteral {
    pub boolean: bool,
}

#[derive(Debug)]
pub struct StringLiteral {
    pub string: String,
}

#[derive(Debug)]
pub struct Identifier {
    pub value: String,
}

#[derive(Debug, Clone, Copy, PartialEq, Eq, Structural)]
pub enum UnaryOperators {
    Add,
    Sub,
    Not,
    ToInt,
    ToFloat,
    ToBool,
    ToStr,
}

#[derive(Debug)]
pub struct UnaryOperation {
    pub operator: UnaryOperators,
    pub operand: Box<Expression>,
}

#[derive(Debug, Clone, Copy, PartialEq, Eq, Structural)]
pub enum BinaryOperators {
    Add,
    Sub,
    Mul,
    Div,
    Mod,
    LThan,
    GThan,
    LThanEquals,
    GThanEquals,
    Equals,
    NotEquals,
    And,
    Or,
}

#[derive(Debug)]
pub struct BinaryOperation {
    pub operator: BinaryOperators,
    pub left: Box<Expression>,
    pub right: Box<Expression>,
}

#[derive(Debug)]
pub struct ArrayLiteral {
    pub arr: Vec<Expression>,
}

#[derive(Debug)]
pub struct ArrayIndexing {
    pub iden: Identifier,
    pub idx: Box<Expression>,
}

#[derive(Debug)]
pub enum Expression {
    IntegerLiteral(IntegerLiteral),
    FloatLiteral(FloatLiteral),
    BooleanLiteral(BooleanLiteral),
    StringLiteral(StringLiteral),
    Identifier(Identifier),
    ArrayLiteral(ArrayLiteral),
    ArrayIndexing(ArrayIndexing),
    UnaryOperation(UnaryOperation),
    BinaryOperation(BinaryOperation),
}

#[derive(Debug)]
pub struct DeclareStmt {
    pub iden: Identifier,
    pub expr: Expression,
}

#[derive(Debug)]
pub struct AssignmentStmt {
    pub iden: Identifier,
    pub expr: Expression,
}

#[derive(Debug)]
pub struct IndexAssignmentStmt {
    pub iden: Identifier,
    pub idx: Expression,
    pub expr: Expression,
}

#[derive(Debug)]
pub struct DeleteStmt {
    pub iden: Identifier,
}

#[derive(Debug)]
pub struct InputStmt {
    pub iden: Identifier,
}

#[derive(Debug)]
pub struct PrintStmt {
    pub expr: Expression,
}

#[derive(Debug)]
pub struct IfStmt {
    pub if_cond: Expression,
    pub if_stmts: Vec<Statement>,
    pub else_stmts: Vec<Statement>,
}

#[derive(Debug)]
pub struct WhileStmt {
    pub while_cond: Expression,
    pub while_stmts: Vec<Statement>,
}

#[derive(Debug)]
pub enum Statement {
    DeclareStmt(DeclareStmt),
    AssignmentStmt(AssignmentStmt),
    IndexAssignmentStmt(IndexAssignmentStmt),
    DeleteStmt(DeleteStmt),
    InputStmt(InputStmt),
    PrintStmt(PrintStmt),
    IfStmt(IfStmt),
    WhileStmt(WhileStmt),
}

/// The model of an expression: names and texts become sequences of characters.
pub enum SpecExpr {
    Int(i64),
    Float(Seq<char>),
    Bool(bool),
    Str(Seq<char>),
    Var(Seq<char>),
    Array(Seq<SpecExpr>),
    Index(Seq<char>, Box<SpecExpr>),
    Unary(UnaryOperators, Box<SpecExpr>),
    Binary(BinaryOperators, Box<SpecExpr>, Box<SpecExpr>),
}

/// The model of a statement.
pub enum SpecStmt {
    Declare(Seq<char>, SpecExpr),
    Assign(Seq<char>, SpecExpr),
    IndexAssign(Seq<char>, SpecExpr, SpecExpr),
    Delete(Seq<char>),
    Input(Seq<char>),
    Print(SpecExpr),
    If(SpecExpr, Seq<SpecStmt>, Seq<SpecStmt>),
    While(SpecExpr, Seq<SpecStmt>),
}

pub open spec fn expr_view(e: Expression) -> SpecExpr
    decreases e,
{
    match e {
        Expression::IntegerLiteral(n) => SpecExpr::Int(n.int),
        Expression::FloatLiteral(f) => SpecExpr::Float(f.float@),
        Expression::BooleanLiteral(b) => SpecExpr::Bool(b.boolean),
        Expression::StringLiteral(s) => SpecExpr::Str(s.string@),
        Expression::Identifier(i) => SpecExpr::Var(i.value@),
        Expression::ArrayLiteral(a) => SpecExpr::Array(exprs_view(a.arr@)),
        Expression::ArrayIndexing(a) => SpecExpr::Index(a.iden.value@, Box::new(expr_view(*a.idx))),
        Expression::UnaryOperation(u) => SpecExpr::Unary(u.operator, Box::new(expr_view(*u.operand))),
        Expression::BinaryOperation(b) => SpecExpr::Binary(
            b.operator,
            Box::new(expr_view(*b.left)),
            Box::new(expr_view(*b.right)),
        ),
    }
}

pub open spec fn exprs_view(s: Seq<Expression>) -> Seq<SpecExpr>
    decreases s,
{
    if s.len() == 0 {
        Seq::empty()
    } else {
        seq![expr_view(s[0])] + exprs_view(s.subrange(1, s.len() as int))
    }
}

pub open spec fn stmt_view(st: Statement) -> SpecStmt
    decreases st,
{
    match st {
        Statement::DeclareStmt(d) => SpecStmt::Declare(d.iden.value@, expr_view(d.expr)),
        Statement::AssignmentStmt(a) => SpecStmt::Assign(a.iden.value@, expr_view(a.expr)),
        Statement::IndexAssignmentStmt(a) => SpecStmt::IndexAssign(a.iden.value@, expr_view(a.idx), expr_view(a.expr)),
        Statement::DeleteStmt(d) => SpecStmt::Delete(d.iden.value@),
        Statement::InputStmt(i) => SpecStmt::Input(i.iden.value@),
        Statement::PrintStmt(p) => SpecStmt::Print(expr_view(p.expr)),
        Statement::IfStmt(i) => SpecStmt::If(expr_view(i.if_cond), stmts_view(i.if_stmts@), stmts_view(i.else_stmts@)),
        Statement::WhileStmt(w) => SpecStmt::While(expr_view(w.while_cond), stmts_view(w.while_stmts@)),
    }
}

pub open spec fn stmts_view(s: Seq<Statement>) -> Seq<SpecStmt>
    decreases s,
{
    if s.len() == 0 {
        Seq::empty()
    } else {
        seq![stmt_view(s[0])] + stmts_view(s.subrange(1, s.len() as int))
    }
}

impl View for Expression {
    type V = SpecExpr;

    open spec fn view(&self) -> SpecExpr {
        expr_view(*self)
    }
}

impl View for Statement {
    type V = SpecStmt;

    open spec fn view(&self) -> SpecStmt {
        stmt_view(*self)
    }
}

/// The view of a list of expressions is the list of their views.
pub proof fn lemma_exprs_view(s: Seq<Expression>)
    ensures
        exprs_view(s).len() == s.len(),
        forall|i: int| 0 <= i < s.len() ==> #[trigger] exprs_view(s)[i] == expr_view(s[i]),
    decreases s.len(),
{
    if s.len() > 0 {
        lemma_exprs_view(s.subrange(1, s.len() as int));
        assert forall|i: int| 0 <= i < s.len() implies #[trigger] exprs_view(s)[i] == expr_view(s[i]) by {
            if i > 0 {
                assert(s.subrange(1, s.len() as int)[i - 1] == s[i]);
            }
        }
    }
}

/// The view of a list of statements is the list of their views.
pub proof fn lemma_stmts_view(s: Seq<Statement>)
    ensures
        stmts_view(s).len() == s.len(),
        forall|i: int| 0 <= i < s.len() ==> #[trigger] stmts_view(s)[i] == stmt_view(s[i]),
    decreases s.len(),
{
    if s.len() > 0 {
        lemma_stmts_view(s.subrange(1, s.len() as int));
        assert forall|i: int| 0 <= i < s.len() implies #[trigger] stmts_view(s)[i] == stmt_view(s[i]) by {
            if i > 0 {
                assert(s.subrange(1, s.len() as int)[i - 1] == s[i]);
            }
        }
    }
}

/// Pushing onto a list of statements pushes its view.
pub proof fn lemma_stmts_view_push(s: Seq<Statement>, x: Statement)
    ensures
        stmts_view(s.push(x)) == stmts_view(s).push(stmt_view(x)),
{
    lemma_stmts_view(s);
    lemma_stmts_view(s.push(x));
    assert(stmts_view(s.push(x)) =~= stmts_view(s).push(stmt_view(x)));
}

/// Pushing onto a list of expressions pushes its view.
pub proof fn lemma_exprs_view_push(s: Seq<Expression>, x: Expression)
    ensures
        exprs_view(s.push(x)) == exprs_view(s).push(expr_view(x)),
{
    lemma_exprs_view(s);
    lemma_exprs_view(s.push(x));
    assert(exprs_view(s.push(x)) =~= exprs_view(s).push(expr_view(x)));
}

} // verus!
