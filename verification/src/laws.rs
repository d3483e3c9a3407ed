//! Properties of the library as a whole.
use vstd::prelude::*;
use crate::ast::{BinaryOperators, SpecExpr, SpecStmt, UnaryOperators};
use crate::semantics::{
    Answers, Env, Machine, SpecEval, SpecFlow, ask, debug_list, debug_text, eval, eval_binary, eval_list,
    eval_unary, exec_block, exec_stmt, fail_showing, incompatible, index_value, run, stop,
};
use crate::value::{SpecFloatRequest, SpecValue, lookup_answer};
use crate::text::{all_digits, bool_text, decimal, digit_char, digits_value, int_text, is_digit_char, parse_bool, parse_int, trim};
use crate::error::{RuntimeErrorKind, SpecRuntimeError};
use crate::grammar::binary_op;
use crate::lexer::{LexPos, LexStep, ByteClass, in_class, scan, lemma_scan, shift, skip_blanks, token_at, word_kind, lex_token};
use crate::text::{ascii_text, is_white, skip_white, drop_white_end};
use crate::token::SpecTokenKind;

verus! {

/// `a` is a prefix of `b`.
pub open spec fn is_prefix<A>(a: Seq<A>, b: Seq<A>) -> bool {
    a.len() <= b.len() && b.subrange(0, a.len() as int) == a
}

/// An evaluation that did not stop for a float answer.
pub open spec fn settled(e: SpecEval) -> bool {
    !(e is Need)
}

proof fn lemma_lookup_extend(memo: Answers, memo2: Answers, req: SpecFloatRequest)
    requires
        is_prefix(memo, memo2),
        lookup_answer(memo, req) is Some,
    ensures
        lookup_answer(memo2, req) == lookup_answer(memo, req),
    decreases memo.len(),
{
    assert(memo2[0] == memo[0]);
    if memo[0].0 != req {
        let t = memo.subrange(1, memo.len() as int);
        let t2 = memo2.subrange(1, memo2.len() as int);
        assert(t2.subrange(0, t.len() as int) == t);
        lemma_lookup_extend(t, t2, req);
    }
}

proof fn lemma_ask_extend(memo: Answers, memo2: Answers, req: SpecFloatRequest)
    requires
        is_prefix(memo, memo2),
        ask(memo, req) is Ok,
    ensures
        ask(memo2, req) == ask(memo, req),
{
    lemma_lookup_extend(memo, memo2, req);
}

proof fn lemma_debug_extend(memo: Answers, memo2: Answers, v: SpecValue)
    requires
        is_prefix(memo, memo2),
        debug_text(memo, v) is Ok,
    ensures
        debug_text(memo2, v) == debug_text(memo, v),
    decreases v,
{
    match v {
        SpecValue::Float(b) => {
            lemma_ask_extend(memo, memo2, SpecFloatRequest::DebugText(b));
        },
        SpecValue::Array(vs) => {
            lemma_debug_list_extend(memo, memo2, vs);
        },
        _ => {},
    }
}

proof fn lemma_debug_list_extend(memo: Answers, memo2: Answers, vs: Seq<SpecValue>)
    requires
        is_prefix(memo, memo2),
        debug_list(memo, vs) is Ok,
    ensures
        debug_list(memo2, vs) == debug_list(memo, vs),
    decreases vs,
{
    if vs.len() > 0 {
        lemma_debug_list_extend(memo, memo2, vs.subrange(0, vs.len() - 1));
        lemma_debug_extend(memo, memo2, vs[vs.len() - 1]);
    }
}

proof fn lemma_showing_extend(memo: Answers, memo2: Answers, before: Seq<char>, v: SpecValue, after: Seq<char>)
    requires
        is_prefix(memo, memo2),
        settled(fail_showing(memo, before, v, after)),
    ensures
        fail_showing(memo2, before, v, after) == fail_showing(memo, before, v, after),
{
    lemma_debug_extend(memo, memo2, v);
}

proof fn lemma_incompatible_extend(memo: Answers, memo2: Answers, l: SpecValue, r: SpecValue)
    requires
        is_prefix(memo, memo2),
        settled(incompatible(memo, l, r)),
    ensures
        incompatible(memo2, l, r) == incompatible(memo, l, r),
{
    lemma_debug_extend(memo, memo2, l);
    lemma_debug_extend(memo, memo2, r);
}

proof fn lemma_unary_extend(memo: Answers, memo2: Answers, op: UnaryOperators, v: SpecValue)
    requires
        is_prefix(memo, memo2),
        settled(eval_unary(memo, op, v)),
    ensures
        eval_unary(memo2, op, v) == eval_unary(memo, op, v),
{
    match v {
        SpecValue::Float(b) => {
            if ask(memo, SpecFloatRequest::Neg(b)) is Ok {
                lemma_ask_extend(memo, memo2, SpecFloatRequest::Neg(b));
            }
            if ask(memo, SpecFloatRequest::ToInt(b)) is Ok {
                lemma_ask_extend(memo, memo2, SpecFloatRequest::ToInt(b));
            }
            if ask(memo, SpecFloatRequest::ToText(b)) is Ok {
                lemma_ask_extend(memo, memo2, SpecFloatRequest::ToText(b));
            }
            if debug_text(memo, v) is Ok {
                lemma_debug_extend(memo, memo2, v);
            }
        },
        SpecValue::Int(n) => {
            if ask(memo, SpecFloatRequest::FromInt(n)) is Ok {
                lemma_ask_extend(memo, memo2, SpecFloatRequest::FromInt(n));
            }
            if debug_text(memo, v) is Ok {
                lemma_debug_extend(memo, memo2, v);
            }
        },
        SpecValue::String(s) => {
            if ask(memo, SpecFloatRequest::Parse(s)) is Ok {
                lemma_ask_extend(memo, memo2, SpecFloatRequest::Parse(s));
            }
            if debug_text(memo, v) is Ok {
                lemma_debug_extend(memo, memo2, v);
            }
        },
        _ => {
            if debug_text(memo, v) is Ok {
                lemma_debug_extend(memo, memo2, v);
            }
        },
    }
}

proof fn lemma_binary_extend(memo: Answers, memo2: Answers, op: BinaryOperators, l: SpecValue, r: SpecValue)
    requires
        is_prefix(memo, memo2),
        settled(eval_binary(memo, op, l, r)),
    ensures
        eval_binary(memo2, op, l, r) == eval_binary(memo, op, l, r),
{
    match (l, r) {
        (SpecValue::Float(a), SpecValue::Float(b)) => {
            lemma_ask_extend(memo, memo2, SpecFloatRequest::Binary(op, a, b));
        },
        (SpecValue::Int(_), SpecValue::Int(_)) => {},
        (SpecValue::Boolean(_), SpecValue::Boolean(_)) => {},
        (SpecValue::String(_), SpecValue::String(_)) => {},
        _ => {
            lemma_incompatible_extend(memo, memo2, l, r);
        },
    }
}

proof fn lemma_index_extend(memo: Answers, memo2: Answers, env: Env, x: Seq<char>, iv: SpecValue)
    requires
        is_prefix(memo, memo2),
        settled(index_value(memo, env, x, iv)),
    ensures
        index_value(memo2, env, x, iv) == index_value(memo, env, x, iv),
{
    if env.contains_key(x) && !(env[x] is Array) {
        lemma_showing_extend(memo, memo2, "cannot index value of type `"@, env[x], "`"@);
    }
}

/// An evaluation that did not stop for a float answer gives the same
/// result when the host has answered more requests.
pub proof fn lemma_eval_extend(env: Env, memo: Answers, memo2: Answers, e: SpecExpr)
    requires
        is_prefix(memo, memo2),
        settled(eval(env, memo, e)),
    ensures
        eval(env, memo2, e) == eval(env, memo, e),
    decreases e,
{
    match e {
        SpecExpr::Float(t) => {
            lemma_ask_extend(memo, memo2, SpecFloatRequest::Literal(t));
        },
        SpecExpr::Array(es) => {
            lemma_eval_list_extend(env, memo, memo2, es);
        },
        SpecExpr::Index(x, ie) => {
            lemma_eval_extend(env, memo, memo2, *ie);
            if let SpecEval::Done(iv) = eval(env, memo, *ie) {
                lemma_index_extend(memo, memo2, env, x, iv);
            }
        },
        SpecExpr::Unary(op, inner) => {
            lemma_eval_extend(env, memo, memo2, *inner);
            if let SpecEval::Done(v) = eval(env, memo, *inner) {
                lemma_unary_extend(memo, memo2, op, v);
            }
        },
        SpecExpr::Binary(op, l, r) => {
            lemma_eval_extend(env, memo, memo2, *l);
            if let SpecEval::Done(lv) = eval(env, memo, *l) {
                match op {
                    BinaryOperators::And => {
                        if lv == SpecValue::Boolean(true) {
                            lemma_eval_extend(env, memo, memo2, *r);
                            if let SpecEval::Done(rv) = eval(env, memo, *r) {
                                if !(rv is Boolean) {
                                    lemma_incompatible_extend(memo, memo2, lv, rv);
                                }
                            }
                        }
                    },
                    BinaryOperators::Or => {
                        if lv == SpecValue::Boolean(false) {
                            lemma_eval_extend(env, memo, memo2, *r);
                            if let SpecEval::Done(rv) = eval(env, memo, *r) {
                                if !(rv is Boolean) {
                                    lemma_incompatible_extend(memo, memo2, lv, rv);
                                }
                            }
                        }
                    },
                    _ => {
                        lemma_eval_extend(env, memo, memo2, *r);
                        if let SpecEval::Done(rv) = eval(env, memo, *r) {
                            lemma_binary_extend(memo, memo2, op, lv, rv);
                        }
                    },
                }
            }
        },
        _ => {},
    }
}

proof fn lemma_eval_list_extend(env: Env, memo: Answers, memo2: Answers, es: Seq<SpecExpr>)
    requires
        is_prefix(memo, memo2),
        match eval_list(env, memo, es) {
            Ok(_) => true,
            Err(x) => settled(x),
        },
    ensures
        eval_list(env, memo2, es) == eval_list(env, memo, es),
    decreases es,
{
    if es.len() > 0 {
        lemma_eval_list_extend(env, memo, memo2, es.subrange(0, es.len() - 1));
        if eval_list(env, memo, es.subrange(0, es.len() - 1)) is Ok {
            lemma_eval_extend(env, memo, memo2, es[es.len() - 1]);
        }
    }
}

/// A run that ended normally or with an error, as opposed to one that
/// stopped for an answer, an input line or fuel.
pub open spec fn settled_flow(f: SpecFlow) -> bool {
    f is Normal || f is Fail
}

proof fn lemma_prefix_trans<A>(a: Seq<A>, b: Seq<A>, c: Seq<A>)
    requires
        is_prefix(a, b),
        is_prefix(b, c),
    ensures
        is_prefix(a, c),
{
    assert(c.subrange(0, a.len() as int) =~= b.subrange(0, a.len() as int));
}

/// Running a statement only ever appends to what was printed.
pub proof fn lemma_stmt_out_grows(m: Machine, ins: Seq<Seq<char>>, memo: Answers, fuel: nat, st: SpecStmt)
    ensures
        is_prefix(m.out, exec_stmt(m, ins, memo, fuel, st).0.out),
    decreases fuel, st,
{
    assert(m.out.subrange(0, m.out.len() as int) =~= m.out);
    match st {
        SpecStmt::Print(e) => {
            assert(m.out.push(SpecValue::Int(0)).subrange(0, m.out.len() as int) =~= m.out);
            if let SpecEval::Done(v) = eval(m.env, memo, e) {
                assert(m.out.push(v).subrange(0, m.out.len() as int) =~= m.out);
            }
        },
        SpecStmt::If(c, a, b) => {
            lemma_block_out_grows(m, ins, memo, fuel, a);
            lemma_block_out_grows(m, ins, memo, fuel, b);
        },
        SpecStmt::While(c, body) => {
            if fuel > 0 {
                lemma_block_out_grows(m, ins, memo, (fuel - 1) as nat, body);
                let m1 = exec_block(m, ins, memo, (fuel - 1) as nat, body).0;
                lemma_stmt_out_grows(m1, ins, memo, (fuel - 1) as nat, st);
                lemma_prefix_trans(m.out, m1.out, exec_stmt(m1, ins, memo, (fuel - 1) as nat, st).0.out);
            }
        },
        _ => {},
    }
}

/// Running statements only ever appends to what was printed.
pub proof fn lemma_block_out_grows(m: Machine, ins: Seq<Seq<char>>, memo: Answers, fuel: nat, stmts: Seq<SpecStmt>)
    ensures
        is_prefix(m.out, exec_block(m, ins, memo, fuel, stmts).0.out),
    decreases fuel, stmts,
{
    assert(m.out.subrange(0, m.out.len() as int) =~= m.out);
    if stmts.len() > 0 {
        lemma_stmt_out_grows(m, ins, memo, fuel, stmts[0]);
        let m1 = exec_stmt(m, ins, memo, fuel, stmts[0]).0;
        lemma_block_out_grows(m1, ins, memo, fuel, stmts.subrange(1, stmts.len() as int));
        lemma_prefix_trans(m.out, m1.out, exec_block(m1, ins, memo, fuel, stmts.subrange(1, stmts.len() as int)).0.out);
    }
}

/// Giving a statement more input lines, more float answers and more fuel
/// changes nothing when it ended normally or with an error, and otherwise
/// only prints more.
pub proof fn lemma_stmt_extend(
    m: Machine,
    ins: Seq<Seq<char>>,
    ins2: Seq<Seq<char>>,
    memo: Answers,
    memo2: Answers,
    fuel: nat,
    fuel2: nat,
    st: SpecStmt,
)
    requires
        is_prefix(ins, ins2),
        is_prefix(memo, memo2),
        fuel <= fuel2,
    ensures
        settled_flow(exec_stmt(m, ins, memo, fuel, st).1) ==> exec_stmt(m, ins2, memo2, fuel2, st) == exec_stmt(
            m,
            ins,
            memo,
            fuel,
            st,
        ),
        is_prefix(exec_stmt(m, ins, memo, fuel, st).0.out, exec_stmt(m, ins2, memo2, fuel2, st).0.out),
    decreases fuel, st,
{
    let r1 = exec_stmt(m, ins, memo, fuel, st);
    let r2 = exec_stmt(m, ins2, memo2, fuel2, st);
    lemma_stmt_out_grows(m, ins2, memo2, fuel2, st);
    match st {
        SpecStmt::Declare(x, e) => {
            if settled(eval(m.env, memo, e)) {
                lemma_eval_extend(m.env, memo, memo2, e);
            }
        },
        SpecStmt::Assign(x, e) => {
            if settled(eval(m.env, memo, e)) {
                lemma_eval_extend(m.env, memo, memo2, e);
            }
        },
        SpecStmt::Print(e) => {
            if settled(eval(m.env, memo, e)) {
                lemma_eval_extend(m.env, memo, memo2, e);
                assert(r1.0.out.subrange(0, r1.0.out.len() as int) =~= r1.0.out);
            }
        },
        SpecStmt::IndexAssign(x, ie, e) => {
            if settled(eval(m.env, memo, ie)) {
                lemma_eval_extend(m.env, memo, memo2, ie);
                if let SpecEval::Done(iv) = eval(m.env, memo, ie) {
                    if settled(eval(m.env, memo, e)) {
                        lemma_eval_extend(m.env, memo, memo2, e);
                        if let SpecEval::Done(v) = eval(m.env, memo, e) {
                            if m.env.contains_key(x) && !(m.env[x] is Array) {
                                if settled(fail_showing(memo, "cannot index value of type `"@, m.env[x], "`"@)) {
                                    lemma_showing_extend(memo, memo2, "cannot index value of type `"@, m.env[x], "`"@);
                                }
                            }
                        }
                    }
                }
            }
        },
        SpecStmt::Input(x) => {
            if m.read < ins.len() {
                assert(ins2[m.read as int] == ins2.subrange(0, ins.len() as int)[m.read as int]);
            }
        },
        SpecStmt::If(c, a, b) => {
            if settled(eval(m.env, memo, c)) {
                lemma_eval_extend(m.env, memo, memo2, c);
                lemma_block_extend(m, ins, ins2, memo, memo2, fuel, fuel2, a);
                lemma_block_extend(m, ins, ins2, memo, memo2, fuel, fuel2, b);
            }
        },
        SpecStmt::While(c, body) => {
            if fuel > 0 && settled(eval(m.env, memo, c)) {
                lemma_eval_extend(m.env, memo, memo2, c);
                if eval(m.env, memo, c) == SpecEval::Done(SpecValue::Boolean(true)) {
                    let f1 = (fuel - 1) as nat;
                    let f2 = (fuel2 - 1) as nat;
                    lemma_block_extend(m, ins, ins2, memo, memo2, f1, f2, body);
                    let b1 = exec_block(m, ins, memo, f1, body);
                    let b2 = exec_block(m, ins2, memo2, f2, body);
                    if b1.1 is Normal {
                        lemma_stmt_extend(b1.0, ins, ins2, memo, memo2, f1, f2, st);
                    } else if !settled_flow(b1.1) {
                        lemma_stmt_out_grows(b2.0, ins2, memo2, f2, st);
                        if b2.1 is Normal {
                            lemma_prefix_trans(b1.0.out, b2.0.out, exec_stmt(b2.0, ins2, memo2, f2, st).0.out);
                        }
                    }
                }
            }
        },
        _ => {},
    }
    if settled_flow(r1.1) && r2 == r1 {
        assert(r1.0.out.subrange(0, r1.0.out.len() as int) =~= r1.0.out);
    }
}

/// The same for statements run one after the other.
pub proof fn lemma_block_extend(
    m: Machine,
    ins: Seq<Seq<char>>,
    ins2: Seq<Seq<char>>,
    memo: Answers,
    memo2: Answers,
    fuel: nat,
    fuel2: nat,
    stmts: Seq<SpecStmt>,
)
    requires
        is_prefix(ins, ins2),
        is_prefix(memo, memo2),
        fuel <= fuel2,
    ensures
        settled_flow(exec_block(m, ins, memo, fuel, stmts).1) ==> exec_block(m, ins2, memo2, fuel2, stmts)
            == exec_block(m, ins, memo, fuel, stmts),
        is_prefix(exec_block(m, ins, memo, fuel, stmts).0.out, exec_block(m, ins2, memo2, fuel2, stmts).0.out),
    decreases fuel, stmts,
{
    let r1 = exec_block(m, ins, memo, fuel, stmts);
    let r2 = exec_block(m, ins2, memo2, fuel2, stmts);
    if stmts.len() == 0 {
        assert(m.out.subrange(0, m.out.len() as int) =~= m.out);
    } else {
        let rest = stmts.subrange(1, stmts.len() as int);
        lemma_stmt_extend(m, ins, ins2, memo, memo2, fuel, fuel2, stmts[0]);
        let s1 = exec_stmt(m, ins, memo, fuel, stmts[0]);
        let s2 = exec_stmt(m, ins2, memo2, fuel2, stmts[0]);
        if s1.1 is Normal {
            lemma_block_extend(s1.0, ins, ins2, memo, memo2, fuel, fuel2, rest);
        } else if settled_flow(s1.1) {
            assert(s1.0.out.subrange(0, s1.0.out.len() as int) =~= s1.0.out);
        } else {
            lemma_block_out_grows(s2.0, ins2, memo2, fuel2, rest);
            if s2.1 is Normal {
                lemma_prefix_trans(s1.0.out, s2.0.out, exec_block(s2.0, ins2, memo2, fuel2, rest).0.out);
            }
        }
    }
}

/// A run that ended normally or with an error ends the same way, having
/// printed the same, when it is given more input lines, more float answers
/// and more fuel; a run that stopped for one of these has printed a prefix
/// of what the longer run prints. This is what lets a host run a program
/// again from the start after each answer and print only what is new.
pub proof fn law_run_extend(
    prog: Seq<SpecStmt>,
    ins: Seq<Seq<char>>,
    ins2: Seq<Seq<char>>,
    memo: Answers,
    memo2: Answers,
    fuel: nat,
    fuel2: nat,
)
    requires
        is_prefix(ins, ins2),
        is_prefix(memo, memo2),
        fuel <= fuel2,
    ensures
        settled_flow(run(prog, ins, memo, fuel).1) ==> run(prog, ins2, memo2, fuel2) == run(prog, ins, memo, fuel),
        is_prefix(run(prog, ins, memo, fuel).0.out, run(prog, ins2, memo2, fuel2).0.out),
{
    lemma_block_extend(crate::semantics::initial_machine(), ins, ins2, memo, memo2, fuel, fuel2, prog);
}

/// Declaring a variable binds it: reading it afterwards gives the value
/// of the declaring expression.
pub proof fn law_declare_then_read(m: Machine, ins: Seq<Seq<char>>, memo: Answers, fuel: nat, x: Seq<char>, e: SpecExpr)
    requires
        eval(m.env, memo, e) is Done,
    ensures
        exec_stmt(m, ins, memo, fuel, SpecStmt::Declare(x, e)).1 is Normal,
        eval(exec_stmt(m, ins, memo, fuel, SpecStmt::Declare(x, e)).0.env, memo, SpecExpr::Var(x)) == eval(m.env, memo, e),
{
}

/// Assigning to a declared variable changes its value; assigning to an
/// undeclared one is an error that changes nothing.
pub proof fn law_assign(m: Machine, ins: Seq<Seq<char>>, memo: Answers, fuel: nat, x: Seq<char>, e: SpecExpr)
    requires
        eval(m.env, memo, e) is Done,
    ensures
        m.env.contains_key(x) ==> eval(exec_stmt(m, ins, memo, fuel, SpecStmt::Assign(x, e)).0.env, memo, SpecExpr::Var(x))
            == eval(m.env, memo, e),
        !m.env.contains_key(x) ==> exec_stmt(m, ins, memo, fuel, SpecStmt::Assign(x, e)) == (
            m,
            SpecFlow::Fail(SpecRuntimeError {
                kind: RuntimeErrorKind::UndefinedVariable,
                msg: "undeclared variable assignment `"@ + x + "`"@,
            }),
        ),
{
}

/// After `del x`, reading `x` is an error, and the other variables keep their values.
pub proof fn law_delete(m: Machine, ins: Seq<Seq<char>>, memo: Answers, fuel: nat, x: Seq<char>, y: Seq<char>)
    requires
        y != x,
    ensures
        eval(exec_stmt(m, ins, memo, fuel, SpecStmt::Delete(x)).0.env, memo, SpecExpr::Var(x)) == SpecEval::Fail(
            SpecRuntimeError { kind: RuntimeErrorKind::UndefinedVariable, msg: "undefined variable `"@ + x + "`"@ },
        ),
        eval(exec_stmt(m, ins, memo, fuel, SpecStmt::Delete(x)).0.env, memo, SpecExpr::Var(y)) == eval(
            m.env,
            memo,
            SpecExpr::Var(y),
        ),
{
}

/// `&&` with a false left operand is false, and `||` with a true left
/// operand is true, whatever the right operand would give.
pub proof fn law_short_circuit(env: Env, memo: Answers, l: SpecExpr, r: SpecExpr)
    ensures
        eval(env, memo, l) == SpecEval::Done(SpecValue::Boolean(false)) ==> eval(
            env,
            memo,
            SpecExpr::Binary(BinaryOperators::And, Box::new(l), Box::new(r)),
        ) == SpecEval::Done(SpecValue::Boolean(false)),
        eval(env, memo, l) == SpecEval::Done(SpecValue::Boolean(true)) ==> eval(
            env,
            memo,
            SpecExpr::Binary(BinaryOperators::Or, Box::new(l), Box::new(r)),
        ) == SpecEval::Done(SpecValue::Boolean(true)),
{
}

/// Dividing an integer by zero, or taking its remainder by zero, is an error.
pub proof fn law_division_by_zero(env: Env, memo: Answers, l: SpecExpr, r: SpecExpr, n: i64)
    requires
        eval(env, memo, l) == SpecEval::Done(SpecValue::Int(n)),
        eval(env, memo, r) == SpecEval::Done(SpecValue::Int(0)),
    ensures
        eval(env, memo, SpecExpr::Binary(BinaryOperators::Div, Box::new(l), Box::new(r))) == SpecEval::Fail(
            SpecRuntimeError { kind: RuntimeErrorKind::DivisionByZero, msg: "division by zero"@ },
        ),
        eval(env, memo, SpecExpr::Binary(BinaryOperators::Mod, Box::new(l), Box::new(r))) == SpecEval::Fail(
            SpecRuntimeError { kind: RuntimeErrorKind::DivisionByZero, msg: "division by zero"@ },
        ),
{
}

/// The condition of an `if` or a `while` must be a boolean.
pub proof fn law_condition_boolean(
    m: Machine,
    ins: Seq<Seq<char>>,
    memo: Answers,
    fuel: nat,
    c: SpecExpr,
    a: Seq<SpecStmt>,
    b: Seq<SpecStmt>,
    v: SpecValue,
)
    requires
        eval(m.env, memo, c) == SpecEval::Done(v),
        !(v is Boolean),
    ensures
        exec_stmt(m, ins, memo, fuel, SpecStmt::If(c, a, b)) == (
            m,
            SpecFlow::Fail(SpecRuntimeError {
                kind: RuntimeErrorKind::TypeMismatch,
                msg: "expected boolean in `if` condition"@,
            }),
        ),
        fuel > 0 ==> exec_stmt(m, ins, memo, fuel, SpecStmt::While(c, a)) == (
            m,
            SpecFlow::Fail(SpecRuntimeError {
                kind: RuntimeErrorKind::TypeMismatch,
                msg: "expected boolean in `while` condition"@,
            }),
        ),
{
}

/// A program of one statement ends as that statement does.
pub proof fn law_single_statement(m: Machine, ins: Seq<Seq<char>>, memo: Answers, fuel: nat, st: SpecStmt)
    ensures
        exec_block(m, ins, memo, fuel, seq![st]) == exec_stmt(m, ins, memo, fuel, st),
{
    let r = exec_stmt(m, ins, memo, fuel, st);
    let one = seq![st];
    assert(one.subrange(1, 1) =~= Seq::<SpecStmt>::empty());
    assert(one[0] == st);
    assert(exec_block(r.0, ins, memo, fuel, Seq::<SpecStmt>::empty()) == (r.0, SpecFlow::Normal));
    assert(exec_block(m, ins, memo, fuel, one) == if r.1 is Normal {
        exec_block(r.0, ins, memo, fuel, one.subrange(1, 1))
    } else {
        r
    });
}

/// `in x` binds the next input line, trimmed of white space at both ends,
/// as a string, and counts it as read; with no line left it asks for one
/// and changes nothing.
pub proof fn law_input(m: Machine, ins: Seq<Seq<char>>, memo: Answers, fuel: nat, x: Seq<char>)
    ensures
        m.read < ins.len() ==> exec_block(m, ins, memo, fuel, seq![SpecStmt::Input(x)]) == (
            Machine { env: m.env.insert(x, SpecValue::String(trim(ins[m.read as int]))), read: m.read + 1, ..m },
            SpecFlow::Normal,
        ),
        m.read >= ins.len() ==> exec_block(m, ins, memo, fuel, seq![SpecStmt::Input(x)]) == (m, SpecFlow::NeedInput),
{
    law_single_statement(m, ins, memo, fuel, SpecStmt::Input(x));
}

/// `if c: A else: B endif` (as one statement, or as a program of that
/// statement alone) runs `A` from the same state when `c` is true and
/// `B` when it is false; a condition that is not a boolean is an error, and
/// a condition that fails or waits for a float answer stops the statement,
/// in each case with nothing changed.
pub proof fn law_if(m: Machine, ins: Seq<Seq<char>>, memo: Answers, fuel: nat, c: SpecExpr, a: Seq<SpecStmt>, b: Seq<SpecStmt>)
    ensures
        exec_stmt(m, ins, memo, fuel, SpecStmt::If(c, a, b)) == exec_block(m, ins, memo, fuel, seq![SpecStmt::If(c, a, b)]),
        ({
            let r = exec_block(m, ins, memo, fuel, seq![SpecStmt::If(c, a, b)]);
            match eval(m.env, memo, c) {
                SpecEval::Done(SpecValue::Boolean(true)) => r == exec_block(m, ins, memo, fuel, a),
                SpecEval::Done(SpecValue::Boolean(false)) => r == exec_block(m, ins, memo, fuel, b),
                SpecEval::Done(_) => r == (
                    m,
                    SpecFlow::Fail(SpecRuntimeError {
                        kind: RuntimeErrorKind::TypeMismatch,
                        msg: "expected boolean in `if` condition"@,
                    }),
                ),
                other => r == (m, stop(other)),
            }
        }),
{
    law_single_statement(m, ins, memo, fuel, SpecStmt::If(c, a, b));
}

/// `while c: B endwhile` (as one statement, or as a program of that
/// statement alone) with fuel left tests `c` in the current state: when
/// it is true, it runs `B` and then the loop again, each with one unit of
/// fuel less, stopping at the first run of `B` that does not end normally;
/// when it is false it ends with nothing changed; a condition that is not a
/// boolean is an error, and one that fails or waits for a float answer stops
/// the loop. Without fuel the loop stops and asks for more.
pub proof fn law_while(m: Machine, ins: Seq<Seq<char>>, memo: Answers, fuel: nat, c: SpecExpr, body: Seq<SpecStmt>)
    ensures
        exec_stmt(m, ins, memo, fuel, SpecStmt::While(c, body)) == exec_block(m, ins, memo, fuel, seq![SpecStmt::While(c, body)]),
        ({
            let st = SpecStmt::While(c, body);
            let r = exec_block(m, ins, memo, fuel, seq![st]);
            if fuel == 0 {
                r == (m, SpecFlow::OutOfFuel)
            } else {
                match eval(m.env, memo, c) {
                    SpecEval::Done(SpecValue::Boolean(true)) => {
                        let (m1, f1) = exec_block(m, ins, memo, (fuel - 1) as nat, body);
                        r == if f1 is Normal {
                            exec_block(m1, ins, memo, (fuel - 1) as nat, seq![st])
                        } else {
                            (m1, f1)
                        }
                    },
                    SpecEval::Done(SpecValue::Boolean(false)) => r == (m, SpecFlow::Normal),
                    SpecEval::Done(_) => r == (
                        m,
                        SpecFlow::Fail(SpecRuntimeError {
                            kind: RuntimeErrorKind::TypeMismatch,
                            msg: "expected boolean in `while` condition"@,
                        }),
                    ),
                    other => r == (m, stop(other)),
                }
            }
        }),
{
    let st = SpecStmt::While(c, body);
    law_single_statement(m, ins, memo, fuel, st);
    if fuel > 0 {
        let (m1, f1) = exec_block(m, ins, memo, (fuel - 1) as nat, body);
        law_single_statement(m1, ins, memo, (fuel - 1) as nat, st);
    }
}

/// A `while` loop that ends normally leaves its condition false.
pub proof fn law_while_ends_on_false(m: Machine, ins: Seq<Seq<char>>, memo: Answers, fuel: nat, c: SpecExpr, body: Seq<SpecStmt>)
    requires
        exec_block(m, ins, memo, fuel, seq![SpecStmt::While(c, body)]).1 is Normal,
    ensures
        eval(exec_block(m, ins, memo, fuel, seq![SpecStmt::While(c, body)]).0.env, memo, c) == SpecEval::Done(
            SpecValue::Boolean(false),
        ),
    decreases fuel,
{
    let st = SpecStmt::While(c, body);
    law_single_statement(m, ins, memo, fuel, st);
    if fuel > 0 {
        if eval(m.env, memo, c) == SpecEval::Done(SpecValue::Boolean(true)) {
            let (m1, f1) = exec_block(m, ins, memo, (fuel - 1) as nat, body);
            law_single_statement(m1, ins, memo, (fuel - 1) as nat, st);
            law_while_ends_on_false(m1, ins, memo, (fuel - 1) as nat, c, body);
        }
    }
}

proof fn lemma_digit_char(d: nat)
    requires
        d < 10,
    ensures
        is_digit_char(digit_char(d)),
        (digit_char(d) as u32) - 48 == d,
        digit_char(d) != '-' && digit_char(d) != '+',
{
    let b: u8 = (d + 48) as u8;
    assert(b == d + 48);
    assert((b as char) as u32 == b as u32);
}

proof fn lemma_decimal(n: nat)
    ensures
        decimal(n).len() > 0,
        all_digits(decimal(n)),
        digits_value(decimal(n)) == n,
        decimal(n)[0] != '-' && decimal(n)[0] != '+',
    decreases n,
{
    if n < 10 {
        lemma_digit_char(n);
        assert(seq![digit_char(n)].drop_last() =~= Seq::<char>::empty());
        assert(seq![digit_char(n)].last() == digit_char(n));
        assert(digits_value(Seq::<char>::empty()) == 0);
    } else {
        lemma_decimal(n / 10);
        lemma_digit_char(n % 10);
        let s = decimal(n / 10);
        let t = s.push(digit_char(n % 10));
        assert(t.drop_last() == s);
        assert(t.last() == digit_char(n % 10));
        assert(t[0] == s[0]);
        assert(digits_value(t) == digits_value(s) * 10 + ((t.last() as u32) - 48) as nat);
        assert(all_digits(t)) by {
            assert forall|i: int| 0 <= i < t.len() implies is_digit_char(#[trigger] t[i]) by {
                if i < s.len() {
                    assert(t[i] == s[i]);
                }
            }
        }
    }
}

/// Converting an integer to a string and back gives the integer.
pub proof fn law_int_text_roundtrip(n: i64)
    ensures
        parse_int(int_text(n as int)) == Some(n),
{
    if n < 0 {
        let d = decimal((-n) as nat);
        lemma_decimal((-n) as nat);
        let t = seq!['-'] + d;
        assert(t.drop_first() == d);
        assert(t[0] == '-');
    } else {
        lemma_decimal(n as nat);
    }
}

/// Converting a boolean to a string and back gives the boolean.
pub proof fn law_bool_text_roundtrip(b: bool)
    ensures
        parse_bool(bool_text(b)) == Some(b),
{
    reveal_strlit("true");
    reveal_strlit("false");
    assert("true"@.len() != "false"@.len());
}

/// `x[i] = v`, with `x` an array and `i` in bounds, replaces the element at
/// `i` by `v`: the array keeps its length and its other elements, and
/// nothing else changes.
pub proof fn law_index_assign(
    m: Machine,
    ins: Seq<Seq<char>>,
    memo: Answers,
    fuel: nat,
    x: Seq<char>,
    ie: SpecExpr,
    e: SpecExpr,
    vs: Seq<SpecValue>,
    i: i64,
    v: SpecValue,
)
    requires
        m.env.contains_key(x),
        m.env[x] == SpecValue::Array(vs),
        eval(m.env, memo, ie) == SpecEval::Done(SpecValue::Int(i)),
        eval(m.env, memo, e) == SpecEval::Done(v),
    ensures
        ({
            let (m2, f) = exec_stmt(m, ins, memo, fuel, SpecStmt::IndexAssign(x, ie, e));
            0 <= i < vs.len() ==> {
                &&& f is Normal
                &&& m2.out == m.out
                &&& m2.read == m.read
                &&& m2.env.dom() == m.env.dom()
                &&& forall|y: Seq<char>| #[trigger] m.env.contains_key(y) && y != x ==> m2.env[y] == m.env[y]
                &&& m2.env[x] is Array
                &&& m2.env[x]->Array_0.len() == vs.len()
                &&& m2.env[x]->Array_0[i as int] == v
                &&& forall|j: int| 0 <= j < vs.len() && j != i ==> #[trigger] m2.env[x]->Array_0[j] == vs[j]
            }
        }),
        ({
            let (m2, f) = exec_stmt(m, ins, memo, fuel, SpecStmt::IndexAssign(x, ie, e));
            !(0 <= i < vs.len()) ==> (m2 == m && (f matches SpecFlow::Fail(err) && err.kind == RuntimeErrorKind::InvalidIndex))
        }),
{
    let (m2, f) = exec_stmt(m, ins, memo, fuel, SpecStmt::IndexAssign(x, ie, e));
    if 0 <= i < vs.len() {
        assert(m2.env.dom() =~= m.env.dom());
    }
}

/// Reading `x[i]` after `x[i] = v` gives `v`.
pub proof fn law_index_read_after_write(
    m: Machine,
    ins: Seq<Seq<char>>,
    memo: Answers,
    fuel: nat,
    x: Seq<char>,
    ie: SpecExpr,
    e: SpecExpr,
    vs: Seq<SpecValue>,
    i: i64,
    v: SpecValue,
)
    requires
        m.env.contains_key(x),
        m.env[x] == SpecValue::Array(vs),
        eval(m.env, memo, ie) == SpecEval::Done(SpecValue::Int(i)),
        eval(m.env, memo, e) == SpecEval::Done(v),
        0 <= i < vs.len(),
    ensures
        eval(
            exec_stmt(m, ins, memo, fuel, SpecStmt::IndexAssign(x, ie, e)).0.env,
            memo,
            SpecExpr::Index(x, Box::new(SpecExpr::Int(i))),
        ) == SpecEval::Done(v),
{
    law_index_assign(m, ins, memo, fuel, x, ie, e, vs, i, v);
    let env2 = exec_stmt(m, ins, memo, fuel, SpecStmt::IndexAssign(x, ie, e)).0.env;
    assert(eval(env2, memo, SpecExpr::Int(i)) == SpecEval::Done(SpecValue::Int(i)));
    assert(env2.contains_key(x));
    assert(index_value(memo, env2, x, SpecValue::Int(i)) == SpecEval::Done(v));
}

/// The value of `l op r`.
pub open spec fn eval_op(env: Env, memo: Answers, op: BinaryOperators, l: SpecExpr, r: SpecExpr) -> SpecEval {
    eval(env, memo, SpecExpr::Binary(op, Box::new(l), Box::new(r)))
}

/// Comparing two integers gives the mathematical comparison; `>` and `<`
/// are mirror images, and a number is never greater than itself.
pub proof fn law_int_comparisons(env: Env, memo: Answers, l: SpecExpr, r: SpecExpr, a: i64, b: i64)
    requires
        eval(env, memo, l) == SpecEval::Done(SpecValue::Int(a)),
        eval(env, memo, r) == SpecEval::Done(SpecValue::Int(b)),
    ensures
        eval_op(env, memo, BinaryOperators::LThan, l, r) == SpecEval::Done(SpecValue::Boolean(a < b)),
        eval_op(env, memo, BinaryOperators::GThan, l, r) == SpecEval::Done(SpecValue::Boolean(a > b)),
        eval_op(env, memo, BinaryOperators::LThanEquals, l, r) == SpecEval::Done(SpecValue::Boolean(a <= b)),
        eval_op(env, memo, BinaryOperators::GThanEquals, l, r) == SpecEval::Done(SpecValue::Boolean(a >= b)),
        eval_op(env, memo, BinaryOperators::Equals, l, r) == SpecEval::Done(SpecValue::Boolean(a == b)),
        eval_op(env, memo, BinaryOperators::NotEquals, l, r) == SpecEval::Done(SpecValue::Boolean(a != b)),
        eval_op(env, memo, BinaryOperators::GThan, l, r) == eval_op(env, memo, BinaryOperators::LThan, r, l),
        eval_op(env, memo, BinaryOperators::GThanEquals, l, r) == eval_op(env, memo, BinaryOperators::LThanEquals, r, l),
        eval_op(env, memo, BinaryOperators::GThan, l, l) == SpecEval::Done(SpecValue::Boolean(false)),
        eval_op(env, memo, BinaryOperators::LThan, l, l) == SpecEval::Done(SpecValue::Boolean(false)),
        eval_op(env, memo, BinaryOperators::LThanEquals, l, l) == SpecEval::Done(SpecValue::Boolean(true)),
{
    lemma_int_operands(env, memo, BinaryOperators::LThan, l, r, a, b);
    lemma_int_operands(env, memo, BinaryOperators::GThan, l, r, a, b);
    lemma_int_operands(env, memo, BinaryOperators::LThanEquals, l, r, a, b);
    lemma_int_operands(env, memo, BinaryOperators::GThanEquals, l, r, a, b);
    lemma_int_operands(env, memo, BinaryOperators::Equals, l, r, a, b);
    lemma_int_operands(env, memo, BinaryOperators::NotEquals, l, r, a, b);
    lemma_int_operands(env, memo, BinaryOperators::LThan, r, l, b, a);
    lemma_int_operands(env, memo, BinaryOperators::LThanEquals, r, l, b, a);
    lemma_int_operands(env, memo, BinaryOperators::GThan, l, l, a, a);
    lemma_int_operands(env, memo, BinaryOperators::LThan, l, l, a, a);
    lemma_int_operands(env, memo, BinaryOperators::LThanEquals, l, l, a, a);
}

/// An operator other than `&&` and `||` on two integer operands.
proof fn lemma_int_operands(env: Env, memo: Answers, op: BinaryOperators, l: SpecExpr, r: SpecExpr, a: i64, b: i64)
    requires
        eval(env, memo, l) == SpecEval::Done(SpecValue::Int(a)),
        eval(env, memo, r) == SpecEval::Done(SpecValue::Int(b)),
        !(op is And),
        !(op is Or),
    ensures
        eval_op(env, memo, op, l, r) == crate::semantics::int_binary(op, a, b),
{
}

/// Integer `+`, `-` and `*` give the exact result whenever it fits in an
/// `i64`.
pub proof fn law_int_arithmetic(env: Env, memo: Answers, l: SpecExpr, r: SpecExpr, a: i64, b: i64)
    requires
        eval(env, memo, l) == SpecEval::Done(SpecValue::Int(a)),
        eval(env, memo, r) == SpecEval::Done(SpecValue::Int(b)),
    ensures
        i64::MIN <= a + b <= i64::MAX ==> eval_op(env, memo, BinaryOperators::Add, l, r) == SpecEval::Done(
            SpecValue::Int((a + b) as i64),
        ),
        i64::MIN <= a - b <= i64::MAX ==> eval_op(env, memo, BinaryOperators::Sub, l, r) == SpecEval::Done(
            SpecValue::Int((a - b) as i64),
        ),
        i64::MIN <= a * b <= i64::MAX ==> eval_op(env, memo, BinaryOperators::Mul, l, r) == SpecEval::Done(
            SpecValue::Int((a * b) as i64),
        ),
{
    lemma_int_operands(env, memo, BinaryOperators::Add, l, r, a, b);
    lemma_int_operands(env, memo, BinaryOperators::Sub, l, r, a, b);
    lemma_int_operands(env, memo, BinaryOperators::Mul, l, r, a, b);
}

/// The operators that a token stands for, with their level of precedence
/// from 1 (binding tightest) to 6: `*`, `/` and `%`; `+` and `-`; the
/// orderings; `==` and `!=`; `&&`; `||`.
pub open spec fn precedence(op: BinaryOperators) -> nat {
    match op {
        BinaryOperators::Mul | BinaryOperators::Div | BinaryOperators::Mod => 1,
        BinaryOperators::Add | BinaryOperators::Sub => 2,
        BinaryOperators::LThan | BinaryOperators::GThan | BinaryOperators::LThanEquals | BinaryOperators::GThanEquals => 3,
        BinaryOperators::Equals | BinaryOperators::NotEquals => 4,
        BinaryOperators::And => 5,
        BinaryOperators::Or => 6,
    }
}

/// The token that writes a binary operator.
pub open spec fn operator_token(op: BinaryOperators) -> SpecTokenKind {
    match op {
        BinaryOperators::Mul => SpecTokenKind::Star,
        BinaryOperators::Div => SpecTokenKind::Slash,
        BinaryOperators::Mod => SpecTokenKind::Percent,
        BinaryOperators::Add => SpecTokenKind::Plus,
        BinaryOperators::Sub => SpecTokenKind::Minus,
        BinaryOperators::LThan => SpecTokenKind::LAngle,
        BinaryOperators::GThan => SpecTokenKind::RAngle,
        BinaryOperators::LThanEquals => SpecTokenKind::LAngleEquals,
        BinaryOperators::GThanEquals => SpecTokenKind::RAngleEquals,
        BinaryOperators::Equals => SpecTokenKind::DEquals,
        BinaryOperators::NotEquals => SpecTokenKind::NotEquals,
        BinaryOperators::And => SpecTokenKind::DAmpersand,
        BinaryOperators::Or => SpecTokenKind::DPipe,
    }
}

/// The grammar joins operands at each level of precedence by exactly the
/// operators of that level: a token is read as an operator at one level
/// only, that of the operator it writes. So `%` binds as tightly as `*`
/// and `/`, and tighter than `+` and `-`.
pub proof fn law_precedence(lvl: nat, k: SpecTokenKind, op: BinaryOperators)
    ensures
        binary_op(lvl, k) == Some(op) <==> (precedence(op) == lvl && operator_token(op) == k),
{
}

/// A byte that may continue a word: an ASCII letter, a digit or `_`.
pub open spec fn word_byte(b: u8) -> bool {
    (48 <= b <= 57) || (65 <= b <= 90) || (97 <= b <= 122) || b == 95
}

/// At a letter or `_`, the token is the longest run of letters, digits and
/// `_` that starts there, read as a keyword or an identifier; the lexer
/// moves past the whole run.
pub proof fn law_word_token(s: Seq<u8>, p: LexPos, e: int)
    requires
        0 <= p.idx < e <= s.len(),
        (65 <= s[p.idx] <= 90) || (97 <= s[p.idx] <= 122) || s[p.idx] == 95,
        forall|j: int| p.idx < j < e ==> word_byte(#[trigger] s[j]),
        e == s.len() || !word_byte(s[e]),
    ensures
        lex_token(s, p) == LexStep::Token(
            token_at(word_kind(ascii_text(s.subrange(p.idx, e))), p),
            LexPos { idx: e, line: p.line, column: p.column + (e - p.idx) },
        ),
{
    assert(scan(s, p.idx, ByteClass::Blank) == p.idx);
    assert(skip_blanks(s, p) == p);
    lemma_scan(s, p.idx + 1, ByteClass::WordChar);
    let k = scan(s, p.idx + 1, ByteClass::WordChar);
    if k < e {
        assert(word_byte(s[k]));
    }
    if k > e {
        assert(in_class(s[e], ByteClass::WordChar));
    }
    assert(k == e);
}

/// A word that is not a keyword is an identifier named by the whole run,
/// digits included.
pub proof fn law_identifier_keeps_digits(s: Seq<u8>, p: LexPos, e: int)
    requires
        0 <= p.idx < e <= s.len(),
        (65 <= s[p.idx] <= 90) || (97 <= s[p.idx] <= 122) || s[p.idx] == 95,
        forall|j: int| p.idx < j < e ==> word_byte(#[trigger] s[j]),
        e == s.len() || !word_byte(s[e]),
        word_kind(ascii_text(s.subrange(p.idx, e))) is Identifier,
    ensures
        (lex_token(s, p) matches LexStep::Token(t, _) && t.kind == SpecTokenKind::Identifier(ascii_text(s.subrange(p.idx, e)))),
        ascii_text(s.subrange(p.idx, e)).len() == e - p.idx,
{
    law_word_token(s, p, e);
}

/// The value of `op e`.
pub open spec fn eval_un(env: Env, memo: Answers, op: UnaryOperators, e: SpecExpr) -> SpecEval {
    eval(env, memo, SpecExpr::Unary(op, Box::new(e)))
}

/// A cast to a value's own type gives the value back unchanged, and so
/// does unary `+` on a number.
pub proof fn law_cast_to_own_type(env: Env, memo: Answers, e: SpecExpr, v: SpecValue)
    requires
        eval(env, memo, e) == SpecEval::Done(v),
    ensures
        v is String ==> eval_un(env, memo, UnaryOperators::ToStr, e) == SpecEval::Done(v),
        v is Int ==> eval_un(env, memo, UnaryOperators::ToInt, e) == SpecEval::Done(v),
        v is Boolean ==> eval_un(env, memo, UnaryOperators::ToBool, e) == SpecEval::Done(v),
        v is Float ==> eval_un(env, memo, UnaryOperators::ToFloat, e) == SpecEval::Done(v),
        (v is Int || v is Float) ==> eval_un(env, memo, UnaryOperators::Add, e) == SpecEval::Done(v),
{
}

/// Casting an integer or a boolean to a string and back gives it back; a
/// string cast to a string twice is still itself.
pub proof fn law_cast_roundtrip(env: Env, memo: Answers, e: SpecExpr, v: SpecValue)
    requires
        eval(env, memo, e) == SpecEval::Done(v),
    ensures
        v is Int ==> eval_un(env, memo, UnaryOperators::ToInt, SpecExpr::Unary(UnaryOperators::ToStr, Box::new(e)))
            == SpecEval::Done(v),
        v is Boolean ==> eval_un(env, memo, UnaryOperators::ToBool, SpecExpr::Unary(UnaryOperators::ToStr, Box::new(e)))
            == SpecEval::Done(v),
        v is String ==> eval_un(env, memo, UnaryOperators::ToStr, SpecExpr::Unary(UnaryOperators::ToStr, Box::new(e)))
            == SpecEval::Done(v),
{
    match v {
        SpecValue::Int(n) => {
            law_int_text_roundtrip(n);
            assert(eval_un(env, memo, UnaryOperators::ToStr, e) == SpecEval::Done(SpecValue::String(int_text(n as int))));
        },
        SpecValue::Boolean(b) => {
            law_bool_text_roundtrip(b);
            assert(eval_un(env, memo, UnaryOperators::ToStr, e) == SpecEval::Done(SpecValue::String(bool_text(b))));
        },
        SpecValue::String(t) => {
            assert(eval_un(env, memo, UnaryOperators::ToStr, e) == SpecEval::Done(v));
        },
        _ => {},
    }
}

/// `!` negates a boolean, so `!!b` is `b`; unary `-` negates an integer
/// (but `i64::MIN`, which has no negation), so `--n` is `n`.
pub proof fn law_negation(env: Env, memo: Answers, e: SpecExpr, v: SpecValue)
    requires
        eval(env, memo, e) == SpecEval::Done(v),
    ensures
        v matches SpecValue::Boolean(b) ==> eval_un(env, memo, UnaryOperators::Not, e) == SpecEval::Done(
            SpecValue::Boolean(!b),
        ),
        v is Boolean ==> eval_un(env, memo, UnaryOperators::Not, SpecExpr::Unary(UnaryOperators::Not, Box::new(e)))
            == SpecEval::Done(v),
        v matches SpecValue::Int(n) ==> (n != i64::MIN ==> eval_un(env, memo, UnaryOperators::Sub, e) == SpecEval::Done(
            SpecValue::Int((-n) as i64),
        )),
        v matches SpecValue::Int(n) ==> (n != i64::MIN ==> eval_un(
            env,
            memo,
            UnaryOperators::Sub,
            SpecExpr::Unary(UnaryOperators::Sub, Box::new(e)),
        ) == SpecEval::Done(v)),
{
    match v {
        SpecValue::Boolean(b) => {
            assert(eval_un(env, memo, UnaryOperators::Not, e) == SpecEval::Done(SpecValue::Boolean(!b)));
        },
        SpecValue::Int(n) => {
            if n != i64::MIN {
                assert(eval_un(env, memo, UnaryOperators::Sub, e) == SpecEval::Done(SpecValue::Int((-n) as i64)));
            }
        },
        _ => {},
    }
}

/// On strings, `+` joins them in order and `==` and `!=` compare their
/// characters.
pub proof fn law_string_operators(env: Env, memo: Answers, l: SpecExpr, r: SpecExpr, a: Seq<char>, b: Seq<char>)
    requires
        eval(env, memo, l) == SpecEval::Done(SpecValue::String(a)),
        eval(env, memo, r) == SpecEval::Done(SpecValue::String(b)),
    ensures
        eval_op(env, memo, BinaryOperators::Add, l, r) is Done,
        eval_op(env, memo, BinaryOperators::Add, l, r)->Done_0 is String,
        ({
            let t = eval_op(env, memo, BinaryOperators::Add, l, r)->Done_0->String_0;
            &&& t.len() == a.len() + b.len()
            &&& t.subrange(0, a.len() as int) == a
            &&& t.subrange(a.len() as int, t.len() as int) == b
        }),
        eval_op(env, memo, BinaryOperators::Equals, l, r) == SpecEval::Done(SpecValue::Boolean(a == b)),
        eval_op(env, memo, BinaryOperators::NotEquals, l, r) == SpecEval::Done(SpecValue::Boolean(a != b)),
{
    assert(eval_op(env, memo, BinaryOperators::Add, l, r) == SpecEval::Done(SpecValue::String(a + b)));
    assert((a + b).subrange(0, a.len() as int) =~= a);
    assert((a + b).subrange(a.len() as int, (a + b).len() as int) =~= b);
}

/// On booleans, `&&`, `||`, `==` and `!=` are the logical operations.
pub proof fn law_boolean_operators(env: Env, memo: Answers, l: SpecExpr, r: SpecExpr, a: bool, b: bool)
    requires
        eval(env, memo, l) == SpecEval::Done(SpecValue::Boolean(a)),
        eval(env, memo, r) == SpecEval::Done(SpecValue::Boolean(b)),
    ensures
        eval_op(env, memo, BinaryOperators::And, l, r) == SpecEval::Done(SpecValue::Boolean(a && b)),
        eval_op(env, memo, BinaryOperators::Or, l, r) == SpecEval::Done(SpecValue::Boolean(a || b)),
        eval_op(env, memo, BinaryOperators::Equals, l, r) == SpecEval::Done(SpecValue::Boolean(a == b)),
        eval_op(env, memo, BinaryOperators::NotEquals, l, r) == SpecEval::Done(SpecValue::Boolean(a != b)),
{
}

/// `out e` appends the value of `e` to what was printed and changes
/// nothing else.
pub proof fn law_print(m: Machine, ins: Seq<Seq<char>>, memo: Answers, fuel: nat, e: SpecExpr, v: SpecValue)
    requires
        eval(m.env, memo, e) == SpecEval::Done(v),
    ensures
        exec_stmt(m, ins, memo, fuel, SpecStmt::Print(e)) == (Machine { out: m.out.push(v), ..m }, SpecFlow::Normal),
        exec_stmt(m, ins, memo, fuel, SpecStmt::Print(e)).0.out.len() == m.out.len() + 1,
        exec_stmt(m, ins, memo, fuel, SpecStmt::Print(e)).0.out.last() == v,
{
}

/// The size of an integer.
pub open spec fn magnitude(x: int) -> int {
    if x < 0 {
        -x
    } else {
        x
    }
}

proof fn lemma_div_mod_nonneg(u: int, w: int)
    requires
        0 <= u,
        0 < w,
    ensures
        u == w * (u / w) + u % w,
        0 <= u % w < w,
        0 <= u / w <= u,
{
    vstd::arithmetic::div_mod::lemma_fundamental_div_mod(u, w);
    vstd::arithmetic::div_mod::lemma_mod_pos_bound(u, w);
    vstd::arithmetic::div_mod::lemma_div_basics_4(u, w);
    vstd::arithmetic::div_mod::lemma_div_basics_5(u, w);
}

/// `checked_div` and `checked_rem` on `i64` divide with truncation: the
/// quotient times the divisor plus the remainder is the dividend, and the
/// remainder is smaller than the divisor and has the dividend's sign.
proof fn lemma_truncated_division(a: i64, b: i64)
    requires
        b != 0,
        !(a == i64::MIN && b == -1),
    ensures
        a.checked_div(b) is Some,
        a.checked_rem(b) is Some,
        a.checked_div(b)->0 * b + a.checked_rem(b)->0 == a,
        magnitude(a.checked_rem(b)->0 as int) < magnitude(b as int),
        a >= 0 ==> a.checked_rem(b)->0 >= 0,
        a < 0 ==> a.checked_rem(b)->0 <= 0,
{
    let x = a as int;
    let d = b as int;
    let u = magnitude(x);
    let w = magnitude(d);
    lemma_div_mod_nonneg(u, w);
    let q = u / w;
    let r = u % w;
    if x == 0 {
        assert(q == 0 && r == 0) by (nonlinear_arith)
            requires
                0 == w * q + r,
                0 <= r < w,
                0 <= q,
        ;
        assert(a.checked_div(b) == Some(0i64));
        assert(a.checked_rem(b) == Some(0i64));
        assert(a.checked_div(b)->0 as int == 0);
        assert(a.checked_rem(b)->0 as int == 0);
        assert(a.checked_div(b)->0 * b + a.checked_rem(b)->0 == a) by (nonlinear_arith)
            requires
                a.checked_div(b)->0 as int == 0,
                a.checked_rem(b)->0 as int == 0,
                0 * d + 0 == x,
                x == a,
                d == b,
        ;
    } else if x > 0 && d > 0 {
        assert(a.checked_div(b) == Some(q as i64));
        assert(a.checked_rem(b) == Some(r as i64));
        assert(q * d + r == x) by (nonlinear_arith)
            requires
                u == w * q + r,
                u == x,
                w == d,
        ;
        assert(a.checked_div(b)->0 as int == q);
        assert(a.checked_rem(b)->0 as int == r);
        assert(a.checked_div(b)->0 * b + a.checked_rem(b)->0 == a) by (nonlinear_arith)
            requires
                a.checked_div(b)->0 as int == q,
                a.checked_rem(b)->0 as int == r,
                q * d + r == x,
                x == a,
                d == b,
        ;
    } else if x < 0 && d < 0 {
        assert(q < 0x8000_0000_0000_0000) by (nonlinear_arith)
            requires
                u == w * q + r,
                0 <= r,
                w >= 1,
                u <= 0x8000_0000_0000_0000,
                !(u == 0x8000_0000_0000_0000 && w == 1),
                0 <= q,
        ;
        assert(a.checked_div(b) == Some(q as i64));
        assert(a.checked_rem(b) == Some((-r) as i64));
        assert(q * d + (-r) == x) by (nonlinear_arith)
            requires
                u == w * q + r,
                u == -x,
                w == -d,
        ;
        assert(a.checked_div(b)->0 as int == q);
        assert(a.checked_rem(b)->0 as int == -r);
        assert(a.checked_div(b)->0 * b + a.checked_rem(b)->0 == a) by (nonlinear_arith)
            requires
                a.checked_div(b)->0 as int == q,
                a.checked_rem(b)->0 as int == -r,
                q * d + (-r) == x,
                x == a,
                d == b,
        ;
    } else if x < 0 {
        assert(a.checked_div(b) == Some((-q) as i64));
        assert(a.checked_rem(b) == Some((-r) as i64));
        assert((-q) * d + (-r) == x) by (nonlinear_arith)
            requires
                u == w * q + r,
                u == -x,
                w == d,
        ;
        assert(a.checked_div(b)->0 as int == -q);
        assert(a.checked_rem(b)->0 as int == -r);
        assert(a.checked_div(b)->0 * b + a.checked_rem(b)->0 == a) by (nonlinear_arith)
            requires
                a.checked_div(b)->0 as int == -q,
                a.checked_rem(b)->0 as int == -r,
                (-q) * d + (-r) == x,
                x == a,
                d == b,
        ;
    } else {
        assert(a.checked_div(b) == Some((-q) as i64));
        assert(a.checked_rem(b) == Some(r as i64));
        assert((-q) * d + r == x) by (nonlinear_arith)
            requires
                u == w * q + r,
                u == x,
                w == -d,
        ;
        assert(a.checked_div(b)->0 as int == -q);
        assert(a.checked_rem(b)->0 as int == r);
        assert(a.checked_div(b)->0 * b + a.checked_rem(b)->0 == a) by (nonlinear_arith)
            requires
                a.checked_div(b)->0 as int == -q,
                a.checked_rem(b)->0 as int == r,
                (-q) * d + r == x,
                x == a,
                d == b,
        ;
    }
}

/// Integer `/` and `%` divide with truncation toward zero: for a divisor
/// other than 0 (and not `i64::MIN / -1`), quotient times divisor plus
/// remainder is the dividend, the remainder is smaller than the divisor in
/// size, and it has the sign of the dividend.
pub proof fn law_int_division(env: Env, memo: Answers, l: SpecExpr, r: SpecExpr, a: i64, b: i64)
    requires
        eval(env, memo, l) == SpecEval::Done(SpecValue::Int(a)),
        eval(env, memo, r) == SpecEval::Done(SpecValue::Int(b)),
        b != 0,
        !(a == i64::MIN && b == -1),
    ensures
        eval_op(env, memo, BinaryOperators::Div, l, r) matches SpecEval::Done(SpecValue::Int(_)),
        eval_op(env, memo, BinaryOperators::Mod, l, r) matches SpecEval::Done(SpecValue::Int(_)),
        ({
            let q = eval_op(env, memo, BinaryOperators::Div, l, r)->Done_0->Int_0;
            let m = eval_op(env, memo, BinaryOperators::Mod, l, r)->Done_0->Int_0;
            &&& q * b + m == a
            &&& magnitude(m as int) < magnitude(b as int)
            &&& (a >= 0 ==> m >= 0)
            &&& (a < 0 ==> m <= 0)
        }),
{
    lemma_int_operands(env, memo, BinaryOperators::Div, l, r, a, b);
    lemma_int_operands(env, memo, BinaryOperators::Mod, l, r, a, b);
    lemma_truncated_division(a, b);
}

/// `x[i]` gives the element at `i` of the array `x`; an index out of bounds
/// is an error.
pub proof fn law_index_read(env: Env, memo: Answers, x: Seq<char>, ie: SpecExpr, vs: Seq<SpecValue>, i: i64)
    requires
        env.contains_key(x),
        env[x] == SpecValue::Array(vs),
        eval(env, memo, ie) == SpecEval::Done(SpecValue::Int(i)),
    ensures
        0 <= i < vs.len() ==> eval(env, memo, SpecExpr::Index(x, Box::new(ie))) == SpecEval::Done(vs[i as int]),
        !(0 <= i < vs.len()) ==> (eval(env, memo, SpecExpr::Index(x, Box::new(ie))) matches SpecEval::Fail(err)
            && err.kind == RuntimeErrorKind::InvalidIndex),
{
}

/// An array literal whose elements all have values is the array of those
/// values, in order.
pub proof fn law_array_literal(env: Env, memo: Answers, es: Seq<SpecExpr>, vals: Seq<SpecValue>)
    requires
        vals.len() == es.len(),
        forall|i: int| 0 <= i < es.len() ==> eval(env, memo, #[trigger] es[i]) == SpecEval::Done(vals[i]),
    ensures
        eval(env, memo, SpecExpr::Array(es)) == SpecEval::Done(SpecValue::Array(vals)),
{
    lemma_eval_list_values(env, memo, es, vals);
}

proof fn lemma_eval_list_values(env: Env, memo: Answers, es: Seq<SpecExpr>, vals: Seq<SpecValue>)
    requires
        vals.len() == es.len(),
        forall|i: int| 0 <= i < es.len() ==> eval(env, memo, #[trigger] es[i]) == SpecEval::Done(vals[i]),
    ensures
        eval_list(env, memo, es) == Ok::<Seq<SpecValue>, SpecEval>(vals),
    decreases es.len(),
{
    if es.len() > 0 {
        let n = es.len() - 1;
        let es0 = es.subrange(0, n);
        let vals0 = vals.subrange(0, n);
        assert forall|i: int| 0 <= i < es0.len() implies eval(env, memo, #[trigger] es0[i]) == SpecEval::Done(vals0[i]) by {
            assert(es0[i] == es[i]);
        }
        lemma_eval_list_values(env, memo, es0, vals0);
        assert(eval(env, memo, es[n]) == SpecEval::Done(vals[n]));
        assert(vals0.push(vals[n]) =~= vals);
    } else {
        assert(vals =~= Seq::<SpecValue>::empty());
    }
}

/// The number that a run of ASCII digit bytes denotes.
pub open spec fn digit_bytes_value(b: Seq<u8>) -> nat
    decreases b.len(),
{
    if b.len() == 0 {
        0
    } else {
        digit_bytes_value(b.drop_last()) * 10 + (b.last() - 48) as nat
    }
}

proof fn lemma_ascii_digits(b: Seq<u8>)
    requires
        forall|k: int| 0 <= k < b.len() ==> 48 <= #[trigger] b[k] <= 57,
    ensures
        all_digits(ascii_text(b)),
        digits_value(ascii_text(b)) == digit_bytes_value(b),
    decreases b.len(),
{
    let t = ascii_text(b);
    assert forall|k: int| 0 <= k < t.len() implies is_digit_char(#[trigger] t[k]) by {
        let c = b[k];
        assert((c as char) as u32 == c as u32);
    }
    if b.len() > 0 {
        let b0 = b.drop_last();
        assert(ascii_text(b0) =~= t.drop_last());
        lemma_ascii_digits(b0);
        let c = b.last();
        assert((c as char) as u32 == c as u32);
        assert(t.last() == c as char);
    }
}

/// At a digit, a run of digits not followed by `.` is an integer literal
/// whose value is the number the digits denote, when it fits in an `i64`,
/// and an error when it does not; the lexer moves past the whole run.
pub proof fn law_integer_token(s: Seq<u8>, p: LexPos, j: int)
    requires
        0 <= p.idx < j <= s.len(),
        forall|k: int| p.idx <= k < j ==> 48 <= #[trigger] s[k] <= 57,
        j == s.len() || !(48 <= s[j] <= 57 || s[j] == 46),
    ensures
        digit_bytes_value(s.subrange(p.idx, j)) <= i64::MAX ==> lex_token(s, p) == LexStep::Token(
            token_at(SpecTokenKind::IntegerLiteral(digit_bytes_value(s.subrange(p.idx, j)) as i64), p),
            LexPos { idx: j, line: p.line, column: p.column + (j - p.idx) },
        ),
        digit_bytes_value(s.subrange(p.idx, j)) > i64::MAX ==> (lex_token(s, p) matches LexStep::Failure(err)
            && err.kind == crate::error::LexerErrorKind::InvalidNumber),
{
    assert(scan(s, p.idx, ByteClass::Blank) == p.idx);
    assert(skip_blanks(s, p) == p);
    lemma_scan(s, p.idx + 1, ByteClass::Digit);
    let k = scan(s, p.idx + 1, ByteClass::Digit);
    if k < j {
        assert(48 <= s[k] <= 57);
    }
    if k > j {
        assert(in_class(s[j], ByteClass::Digit));
    }
    assert(k == j);
    let b = s.subrange(p.idx, j);
    assert forall|i: int| 0 <= i < b.len() implies 48 <= #[trigger] b[i] <= 57 by {
        assert(b[i] == s[p.idx + i]);
    }
    lemma_ascii_digits(b);
    let t = ascii_text(b);
    assert(is_digit_char(t[0]));
}

/// How a binary operator is written, as bytes.
pub open spec fn operator_spelling(op: BinaryOperators) -> Seq<u8> {
    match op {
        BinaryOperators::Mul => seq![42u8],
        BinaryOperators::Div => seq![47u8],
        BinaryOperators::Mod => seq![37u8],
        BinaryOperators::Add => seq![43u8],
        BinaryOperators::Sub => seq![45u8],
        BinaryOperators::LThan => seq![60u8],
        BinaryOperators::GThan => seq![62u8],
        BinaryOperators::LThanEquals => seq![60u8, 61u8],
        BinaryOperators::GThanEquals => seq![62u8, 61u8],
        BinaryOperators::Equals => seq![61u8, 61u8],
        BinaryOperators::NotEquals => seq![33u8, 61u8],
        BinaryOperators::And => seq![38u8, 38u8],
        BinaryOperators::Or => seq![124u8, 124u8],
    }
}

/// Where the text spells a binary operator (and `<` or `>` is not followed
/// by `=`), the token is that operator's, and the lexer moves past it.
pub proof fn law_operator_token(s: Seq<u8>, p: LexPos, op: BinaryOperators)
    requires
        0 <= p.idx,
        p.idx + operator_spelling(op).len() <= s.len(),
        s.subrange(p.idx, p.idx + operator_spelling(op).len()) == operator_spelling(op),
        (op is LThan || op is GThan) ==> (p.idx + 1 == s.len() || s[p.idx + 1] != 61),
    ensures
        lex_token(s, p) == LexStep::Token(
            token_at(operator_token(op), p),
            LexPos {
                idx: p.idx + operator_spelling(op).len(),
                line: p.line,
                column: p.column + operator_spelling(op).len(),
            },
        ),
{
    let w = operator_spelling(op);
    assert(s[p.idx] == w[0]);
    if w.len() == 2 {
        assert(s[p.idx + 1] == w[1]);
    }
    assert(scan(s, p.idx, ByteClass::Blank) == p.idx);
    assert(skip_blanks(s, p) == p);
}

/// Trimming keeps a contiguous part of the text and drops only white space
/// around it: what is left neither starts nor ends with white space. Among
/// ASCII characters, the white space is tab, line feed, vertical tab, form
/// feed, carriage return and space.
pub proof fn law_trim(t: Seq<char>)
    ensures
        exists|a: int, b: int|
            #![trigger t.subrange(a, b)]
            0 <= a <= b <= t.len() && trim(t) == t.subrange(a, b) && (forall|i: int| 0 <= i < a ==> is_white(#[trigger] t[i]))
                && (forall|i: int| b <= i < t.len() ==> is_white(#[trigger] t[i])),
        trim(t).len() > 0 ==> !is_white(trim(t)[0]) && !is_white(trim(t).last()),
        forall|c: char| (c as u32) < 128 ==> (#[trigger] is_white(c) <==> (9 <= c as u32 <= 13 || c as u32 == 32)),
{
    lemma_skip_white_range(t, 0);
    let a = skip_white(t, 0);
    lemma_drop_white_end_range(t, a, t.len() as int);
    let b = drop_white_end(t, a, t.len() as int);
    assert(trim(t) == t.subrange(a, b));
    if b > a {
        assert(trim(t)[0] == t[a]);
        assert(trim(t).last() == t[b - 1]);
    }
}

proof fn lemma_skip_white_range(t: Seq<char>, i: int)
    requires
        0 <= i <= t.len(),
        forall|k: int| 0 <= k < i ==> is_white(#[trigger] t[k]),
    ensures
        i <= skip_white(t, i) <= t.len(),
        forall|k: int| 0 <= k < skip_white(t, i) ==> is_white(#[trigger] t[k]),
        skip_white(t, i) < t.len() ==> !is_white(t[skip_white(t, i)]),
    decreases t.len() - i,
{
    if i < t.len() && is_white(t[i]) {
        lemma_skip_white_range(t, i + 1);
    }
}

proof fn lemma_drop_white_end_range(t: Seq<char>, lo: int, j: int)
    requires
        0 <= lo <= j <= t.len(),
        forall|k: int| j <= k < t.len() ==> is_white(#[trigger] t[k]),
    ensures
        lo <= drop_white_end(t, lo, j) <= j,
        forall|k: int| drop_white_end(t, lo, j) <= k < t.len() ==> is_white(#[trigger] t[k]),
        drop_white_end(t, lo, j) > lo ==> !is_white(t[drop_white_end(t, lo, j) - 1]),
    decreases j - lo,
{
    if lo < j && is_white(t[j - 1]) {
        lemma_drop_white_end_range(t, lo, j - 1);
    }
}

} // verus!
