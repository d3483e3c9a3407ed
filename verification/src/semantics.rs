//! What running a program means: the value of an expression and the effect
//! of a statement, over the models of values and of the syntax tree.
use vstd::prelude::*;
use crate::ast::{BinaryOperators, SpecExpr, SpecStmt, UnaryOperators};
use crate::error::{RuntimeErrorKind, SpecRuntimeError};
use crate::text::{bool_text, int_text, parse_bool, parse_int, str_debug, trim};
use crate::value::{SpecFloatRequest, SpecValue, lookup_answer};

verus! {

/// The variables and their values.
pub type Env = Map<Seq<char>, SpecValue>;

/// The host's answers to float requests.
pub type Answers = Seq<(SpecFloatRequest, Option<SpecValue>)>;

/// What evaluating an expression gives: a value, an error, or a float
/// request that the host has not answered yet.
pub enum SpecEval {
    Done(SpecValue),
    Fail(SpecRuntimeError),
    Need(SpecFloatRequest),
}

pub open spec fn fail(kind: RuntimeErrorKind, msg: Seq<char>) -> SpecEval {
    SpecEval::Fail(SpecRuntimeError { kind, msg })
}

/// The host's answer to a request, or the request itself when it has not been answered.
pub open spec fn ask(memo: Answers, req: SpecFloatRequest) -> Result<Option<SpecValue>, SpecFloatRequest> {
    match lookup_answer(memo, req) {
        Some(a) => Ok(a),
        None => Err(req),
    }
}

/// The value that an answer gives, for requests that the host never refuses.
pub open spec fn answer_value(a: Option<SpecValue>) -> SpecEval {
    match a {
        Some(v) => SpecEval::Done(v),
        None => fail(RuntimeErrorKind::TypeMismatch, "float operation refused"@),
    }
}

/// The text that an answer gives.
pub open spec fn answer_text(a: Option<SpecValue>) -> Seq<char> {
    match a {
        Some(SpecValue::String(t)) => t,
        _ => Seq::empty(),
    }
}

/// The name of a binary operator, as `{:?}` shows it.
pub open spec fn op_name(op: BinaryOperators) -> Seq<char> {
    match op {
        BinaryOperators::Add => "Add"@,
        BinaryOperators::Sub => "Sub"@,
        BinaryOperators::Mul => "Mul"@,
        BinaryOperators::Div => "Div"@,
        BinaryOperators::Mod => "Mod"@,
        BinaryOperators::LThan => "LThan"@,
        BinaryOperators::GThan => "GThan"@,
        BinaryOperators::LThanEquals => "LThanEquals"@,
        BinaryOperators::GThanEquals => "GThanEquals"@,
        BinaryOperators::Equals => "Equals"@,
        BinaryOperators::NotEquals => "NotEquals"@,
        BinaryOperators::And => "And"@,
        BinaryOperators::Or => "Or"@,
    }
}

/// A value as `{:?}` shows it, as in `Int(3)` or `Array([Boolean(true)])`.
pub open spec fn debug_text(memo: Answers, v: SpecValue) -> Result<Seq<char>, SpecFloatRequest>
    decreases v,
{
    match v {
        SpecValue::Int(n) => Ok("Int("@ + int_text(n as int) + ")"@),
        SpecValue::Float(b) => match ask(memo, SpecFloatRequest::DebugText(b)) {
            Err(q) => Err(q),
            Ok(a) => Ok("Float("@ + answer_text(a) + ")"@),
        },
        SpecValue::Boolean(b) => Ok("Boolean("@ + bool_text(b) + ")"@),
        SpecValue::String(s) => Ok("String("@ + str_debug(s) + ")"@),
        SpecValue::Array(vs) => match debug_list(memo, vs) {
            Err(q) => Err(q),
            Ok(t) => Ok("Array(["@ + t + "])"@),
        },
    }
}

/// The values of a list as `{:?}` shows them, separated by `, `.
pub open spec fn debug_list(memo: Answers, vs: Seq<SpecValue>) -> Result<Seq<char>, SpecFloatRequest>
    decreases vs,
{
    if vs.len() == 0 {
        Ok(Seq::empty())
    } else {
        match debug_list(memo, vs.subrange(0, vs.len() - 1)) {
            Err(q) => Err(q),
            Ok(init) => match debug_text(memo, vs[vs.len() - 1]) {
                Err(q) => Err(q),
                Ok(last) => Ok(if vs.len() == 1 { last } else { init + ", "@ + last }),
            },
        }
    }
}

/// The text that `out` writes for a value, before its line break: numbers,
/// booleans and strings plainly, an array as `{:?}` shows its items.
pub open spec fn display_text(memo: Answers, v: SpecValue) -> Result<Seq<char>, SpecFloatRequest> {
    match v {
        SpecValue::Int(n) => Ok(int_text(n as int)),
        SpecValue::Float(b) => match ask(memo, SpecFloatRequest::ToText(b)) {
            Err(q) => Err(q),
            Ok(a) => Ok(answer_text(a)),
        },
        SpecValue::Boolean(b) => Ok(bool_text(b)),
        SpecValue::String(s) => Ok(s),
        SpecValue::Array(vs) => match debug_list(memo, vs) {
            Err(q) => Err(q),
            Ok(t) => Ok("["@ + t + "]"@),
        },
    }
}

/// A type error whose message shows a value.
pub open spec fn fail_showing(memo: Answers, before: Seq<char>, v: SpecValue, after: Seq<char>) -> SpecEval {
    match debug_text(memo, v) {
        Err(q) => SpecEval::Need(q),
        Ok(d) => fail(RuntimeErrorKind::TypeMismatch, before + d + after),
    }
}

/// The error for operands of different types.
pub open spec fn incompatible(memo: Answers, l: SpecValue, r: SpecValue) -> SpecEval {
    match debug_text(memo, l) {
        Err(q) => SpecEval::Need(q),
        Ok(dl) => match debug_text(memo, r) {
            Err(q) => SpecEval::Need(q),
            Ok(dr) => fail(RuntimeErrorKind::TypeMismatch, "incompatible operands `"@ + dl + "` and `"@ + dr + "`"@),
        },
    }
}

/// A binary operator on two integers. Arithmetic wraps around, so
/// `i64::MIN / -1` gives `i64::MIN` and `i64::MIN % -1` gives 0; dividing
/// by zero is an error.
pub open spec fn int_binary(op: BinaryOperators, l: i64, r: i64) -> SpecEval {
    match op {
        BinaryOperators::Add => SpecEval::Done(SpecValue::Int(l.wrapping_add(r))),
        BinaryOperators::Sub => SpecEval::Done(SpecValue::Int(l.wrapping_sub(r))),
        BinaryOperators::Mul => SpecEval::Done(SpecValue::Int(l.wrapping_mul(r))),
        BinaryOperators::Div => if r == 0 {
            fail(RuntimeErrorKind::DivisionByZero, "division by zero"@)
        } else {
            SpecEval::Done(SpecValue::Int(match l.checked_div(r) {
                Some(q) => q,
                None => i64::MIN,
            }))
        },
        BinaryOperators::Mod => if r == 0 {
            fail(RuntimeErrorKind::DivisionByZero, "division by zero"@)
        } else {
            SpecEval::Done(SpecValue::Int(match l.checked_rem(r) {
                Some(q) => q,
                None => 0,
            }))
        },
        BinaryOperators::LThan => SpecEval::Done(SpecValue::Boolean(l < r)),
        BinaryOperators::GThan => SpecEval::Done(SpecValue::Boolean(l > r)),
        BinaryOperators::LThanEquals => SpecEval::Done(SpecValue::Boolean(l <= r)),
        BinaryOperators::GThanEquals => SpecEval::Done(SpecValue::Boolean(l >= r)),
        BinaryOperators::Equals => SpecEval::Done(SpecValue::Boolean(l == r)),
        BinaryOperators::NotEquals => SpecEval::Done(SpecValue::Boolean(l != r)),
        _ => fail(RuntimeErrorKind::TypeMismatch, "invalid operator `"@ + op_name(op) + "` for ints"@),
    }
}

/// A binary operator other than `&&` and `||` on two values.
pub open spec fn eval_binary(memo: Answers, op: BinaryOperators, lv: SpecValue, rv: SpecValue) -> SpecEval {
    match (lv, rv) {
        (SpecValue::Int(l), SpecValue::Int(r)) => int_binary(op, l, r),
        (SpecValue::Float(l), SpecValue::Float(r)) => match ask(memo, SpecFloatRequest::Binary(op, l, r)) {
            Err(q) => SpecEval::Need(q),
            Ok(Some(v)) => SpecEval::Done(v),
            Ok(None) => fail(RuntimeErrorKind::DivisionByZero, "division by zero"@),
        },
        (SpecValue::Boolean(l), SpecValue::Boolean(r)) => match op {
            BinaryOperators::Equals => SpecEval::Done(SpecValue::Boolean(l == r)),
            BinaryOperators::NotEquals => SpecEval::Done(SpecValue::Boolean(l != r)),
            _ => fail(RuntimeErrorKind::TypeMismatch, "invalid operator `"@ + op_name(op) + "` for booleans"@),
        },
        (SpecValue::String(l), SpecValue::String(r)) => match op {
            BinaryOperators::Add => SpecEval::Done(SpecValue::String(l + r)),
            BinaryOperators::Equals => SpecEval::Done(SpecValue::Boolean(l == r)),
            BinaryOperators::NotEquals => SpecEval::Done(SpecValue::Boolean(l != r)),
            _ => fail(RuntimeErrorKind::TypeMismatch, "invalid operator `"@ + op_name(op) + "` for strings"@),
        },
        _ => incompatible(memo, lv, rv),
    }
}

/// A unary operator or cast on a value.
pub open spec fn eval_unary(memo: Answers, op: UnaryOperators, v: SpecValue) -> SpecEval {
    match op {
        UnaryOperators::Add => match v {
            SpecValue::Int(_) | SpecValue::Float(_) => SpecEval::Done(v),
            _ => fail(RuntimeErrorKind::TypeMismatch, "expected either `int` or `float` for unary `+`"@),
        },
        UnaryOperators::Sub => match v {
            SpecValue::Int(n) => SpecEval::Done(SpecValue::Int(0i64.wrapping_sub(n))),
            SpecValue::Float(b) => match ask(memo, SpecFloatRequest::Neg(b)) {
                Err(q) => SpecEval::Need(q),
                Ok(a) => answer_value(a),
            },
            _ => fail(RuntimeErrorKind::TypeMismatch, "expected either `int` or `float` for unary `-`"@),
        },
        UnaryOperators::Not => match v {
            SpecValue::Boolean(b) => SpecEval::Done(SpecValue::Boolean(!b)),
            _ => fail_showing(memo, "expected `boolean` for unary `!`, found "@, v, ""@),
        },
        UnaryOperators::ToInt => match v {
            SpecValue::Int(_) => SpecEval::Done(v),
            SpecValue::Float(b) => match ask(memo, SpecFloatRequest::ToInt(b)) {
                Err(q) => SpecEval::Need(q),
                Ok(a) => answer_value(a),
            },
            SpecValue::String(s) => match parse_int(s) {
                Some(n) => SpecEval::Done(SpecValue::Int(n)),
                None => fail(RuntimeErrorKind::TypeMismatch, "failed to cast `"@ + s + "` to int"@),
            },
            _ => fail_showing(memo, "cannot cast type `"@, v, "` to int"@),
        },
        UnaryOperators::ToFloat => match v {
            SpecValue::Int(n) => match ask(memo, SpecFloatRequest::FromInt(n)) {
                Err(q) => SpecEval::Need(q),
                Ok(a) => answer_value(a),
            },
            SpecValue::Float(_) => SpecEval::Done(v),
            SpecValue::String(s) => match ask(memo, SpecFloatRequest::Parse(s)) {
                Err(q) => SpecEval::Need(q),
                Ok(Some(x)) => SpecEval::Done(x),
                Ok(None) => fail(RuntimeErrorKind::TypeMismatch, "failed to cast `"@ + s + "` to float"@),
            },
            _ => fail_showing(memo, "cannot cast type `"@, v, "` to float"@),
        },
        UnaryOperators::ToBool => match v {
            SpecValue::Boolean(_) => SpecEval::Done(v),
            SpecValue::String(s) => match parse_bool(s) {
                Some(b) => SpecEval::Done(SpecValue::Boolean(b)),
                None => fail(RuntimeErrorKind::TypeMismatch, "failed to cast `"@ + s + "` to boolean"@),
            },
            _ => fail_showing(memo, "cannot cast type `"@, v, "` to boolean"@),
        },
        UnaryOperators::ToStr => match v {
            SpecValue::Int(n) => SpecEval::Done(SpecValue::String(int_text(n as int))),
            SpecValue::Float(b) => match ask(memo, SpecFloatRequest::ToText(b)) {
                Err(q) => SpecEval::Need(q),
                Ok(a) => answer_value(a),
            },
            SpecValue::Boolean(b) => SpecEval::Done(SpecValue::String(bool_text(b))),
            SpecValue::String(_) => SpecEval::Done(v),
            _ => fail_showing(memo, "cannot cast type `"@, v, "` to string"@),
        },
    }
}

/// Reading `x[i]` where `iv` is the value of the index.
pub open spec fn index_value(memo: Answers, env: Env, x: Seq<char>, iv: SpecValue) -> SpecEval {
    if !env.contains_key(x) {
        fail(RuntimeErrorKind::UndefinedVariable, "undefined variable `"@ + x + "`"@)
    } else {
        match env[x] {
            SpecValue::Array(vs) => match iv {
                SpecValue::Int(i) => if i < 0 {
                    fail(RuntimeErrorKind::InvalidIndex, "array index cannot be negative"@)
                } else if i >= vs.len() {
                    fail(RuntimeErrorKind::InvalidIndex, "array index out of bounds"@)
                } else {
                    SpecEval::Done(vs[i as int])
                },
                _ => fail(RuntimeErrorKind::InvalidIndex, "array index must be an integer"@),
            },
            other => fail_showing(memo, "cannot index value of type `"@, other, "`"@),
        }
    }
}

/// The value of an expression. Operands are evaluated from left to right,
/// and `&&` and `||` evaluate their right operand only when it decides.
pub open spec fn eval(env: Env, memo: Answers, e: SpecExpr) -> SpecEval
    decreases e,
{
    match e {
        SpecExpr::Int(n) => SpecEval::Done(SpecValue::Int(n)),
        SpecExpr::Float(t) => match ask(memo, SpecFloatRequest::Literal(t)) {
            Err(q) => SpecEval::Need(q),
            Ok(a) => answer_value(a),
        },
        SpecExpr::Bool(b) => SpecEval::Done(SpecValue::Boolean(b)),
        SpecExpr::Str(t) => SpecEval::Done(SpecValue::String(t)),
        SpecExpr::Var(x) => if env.contains_key(x) {
            SpecEval::Done(env[x])
        } else {
            fail(RuntimeErrorKind::UndefinedVariable, "undefined variable `"@ + x + "`"@)
        },
        SpecExpr::Array(es) => match eval_list(env, memo, es) {
            Ok(vs) => SpecEval::Done(SpecValue::Array(vs)),
            Err(other) => other,
        },
        SpecExpr::Index(x, ie) => match eval(env, memo, *ie) {
            SpecEval::Done(iv) => index_value(memo, env, x, iv),
            other => other,
        },
        SpecExpr::Unary(op, inner) => match eval(env, memo, *inner) {
            SpecEval::Done(v) => eval_unary(memo, op, v),
            other => other,
        },
        SpecExpr::Binary(op, l, r) => match eval(env, memo, *l) {
            SpecEval::Done(lv) => match op {
                BinaryOperators::And => match lv {
                    SpecValue::Boolean(true) => match eval(env, memo, *r) {
                        SpecEval::Done(SpecValue::Boolean(b)) => SpecEval::Done(SpecValue::Boolean(b)),
                        SpecEval::Done(rv) => incompatible(memo, lv, rv),
                        other => other,
                    },
                    SpecValue::Boolean(false) => SpecEval::Done(lv),
                    _ => fail(RuntimeErrorKind::TypeMismatch, "invalid operator `And` for booleans"@),
                },
                BinaryOperators::Or => match lv {
                    SpecValue::Boolean(true) => SpecEval::Done(lv),
                    SpecValue::Boolean(false) => match eval(env, memo, *r) {
                        SpecEval::Done(SpecValue::Boolean(b)) => SpecEval::Done(SpecValue::Boolean(b)),
                        SpecEval::Done(rv) => incompatible(memo, lv, rv),
                        other => other,
                    },
                    _ => fail(RuntimeErrorKind::TypeMismatch, "invalid operator `Or` for booleans"@),
                },
                _ => match eval(env, memo, *r) {
                    SpecEval::Done(rv) => eval_binary(memo, op, lv, rv),
                    other => other,
                },
            },
            other => other,
        },
    }
}

/// The values of a list of expressions, evaluated from left to right, or
/// what stopped the evaluation.
pub open spec fn eval_list(env: Env, memo: Answers, es: Seq<SpecExpr>) -> Result<Seq<SpecValue>, SpecEval>
    decreases es,
{
    if es.len() == 0 {
        Ok(Seq::empty())
    } else {
        match eval_list(env, memo, es.subrange(0, es.len() - 1)) {
            Err(other) => Err(other),
            Ok(init) => match eval(env, memo, es[es.len() - 1]) {
                SpecEval::Done(v) => Ok(init.push(v)),
                other => Err(other),
            },
        }
    }
}

/// Once a prefix of a list fails to render, the whole list fails in the same way.
pub proof fn lemma_debug_list_err(memo: Answers, vs: Seq<SpecValue>, i: int)
    requires
        0 <= i <= vs.len(),
        debug_list(memo, vs.subrange(0, i)) is Err,
    ensures
        debug_list(memo, vs) == debug_list(memo, vs.subrange(0, i)),
    decreases vs.len() - i,
{
    if i < vs.len() {
        let p = vs.subrange(0, i + 1);
        assert(p.subrange(0, p.len() - 1) == vs.subrange(0, i));
        lemma_debug_list_err(memo, vs, i + 1);
    } else {
        assert(vs.subrange(0, i) == vs);
    }
}

/// Once a prefix of a list fails to evaluate, the whole list fails in the same way.
pub proof fn lemma_eval_list_err(env: Env, memo: Answers, es: Seq<SpecExpr>, i: int)
    requires
        0 <= i <= es.len(),
        eval_list(env, memo, es.subrange(0, i)) is Err,
    ensures
        eval_list(env, memo, es) == eval_list(env, memo, es.subrange(0, i)),
    decreases es.len() - i,
{
    if i < es.len() {
        let p = es.subrange(0, i + 1);
        assert(p.subrange(0, p.len() - 1) == es.subrange(0, i));
        lemma_eval_list_err(env, memo, es, i + 1);
    } else {
        assert(es.subrange(0, i) == es);
    }
}

/// The state of a running program: the variables, the values printed so
/// far, and the number of input lines read.
pub struct Machine {
    pub env: Env,
    pub out: Seq<SpecValue>,
    pub read: nat,
}

/// How running statements ends: normally, with an error, or suspended
/// because it needs a float answer, another input line, or more fuel.
pub enum SpecFlow {
    Normal,
    Fail(SpecRuntimeError),
    NeedFloat(SpecFloatRequest),
    NeedInput,
    OutOfFuel,
}

/// The flow for an evaluation that gave no value.
pub open spec fn stop(e: SpecEval) -> SpecFlow {
    match e {
        SpecEval::Done(_) => SpecFlow::Normal,
        SpecEval::Fail(x) => SpecFlow::Fail(x),
        SpecEval::Need(q) => SpecFlow::NeedFloat(q),
    }
}

pub open spec fn stop_with(kind: RuntimeErrorKind, msg: Seq<char>) -> SpecFlow {
    SpecFlow::Fail(SpecRuntimeError { kind, msg })
}

/// `x[i] = v`, where `iv` is the value of the index. Nothing happens when
/// `x` is not bound.
pub open spec fn index_assign(m: Machine, memo: Answers, x: Seq<char>, iv: SpecValue, v: SpecValue) -> (Machine, SpecFlow) {
    if !m.env.contains_key(x) {
        (m, SpecFlow::Normal)
    } else {
        match m.env[x] {
            SpecValue::Array(vs) => match iv {
                SpecValue::Int(i) => if i < 0 {
                    (m, stop_with(RuntimeErrorKind::InvalidIndex, "array index cannot be negative"@))
                } else if i >= vs.len() {
                    (m, stop_with(RuntimeErrorKind::InvalidIndex, "array index out of bounds"@))
                } else {
                    (Machine { env: m.env.insert(x, SpecValue::Array(vs.update(i as int, v))), ..m }, SpecFlow::Normal)
                },
                _ => (m, stop_with(RuntimeErrorKind::InvalidIndex, "array index must be an integer"@)),
            },
            other => (m, stop(fail_showing(memo, "cannot index value of type `"@, other, "`"@))),
        }
    }
}

/// Running a statement. `in x` binds the next input line, trimmed of white
/// space at both ends, as a string. A `while` spends one unit of fuel each
/// time it tests its condition, and gives `OutOfFuel` when there is none left.
pub open spec fn exec_stmt(m: Machine, inputs: Seq<Seq<char>>, memo: Answers, fuel: nat, st: SpecStmt) -> (Machine, SpecFlow)
    decreases fuel, st,
{
    match st {
        SpecStmt::Declare(x, e) => match eval(m.env, memo, e) {
            SpecEval::Done(v) => (Machine { env: m.env.insert(x, v), ..m }, SpecFlow::Normal),
            other => (m, stop(other)),
        },
        SpecStmt::Assign(x, e) => match eval(m.env, memo, e) {
            SpecEval::Done(v) => if m.env.contains_key(x) {
                (Machine { env: m.env.insert(x, v), ..m }, SpecFlow::Normal)
            } else {
                (m, stop_with(RuntimeErrorKind::UndefinedVariable, "undeclared variable assignment `"@ + x + "`"@))
            },
            other => (m, stop(other)),
        },
        SpecStmt::IndexAssign(x, ie, e) => match eval(m.env, memo, ie) {
            SpecEval::Done(iv) => match eval(m.env, memo, e) {
                SpecEval::Done(v) => index_assign(m, memo, x, iv, v),
                other => (m, stop(other)),
            },
            other => (m, stop(other)),
        },
        SpecStmt::Delete(x) => (Machine { env: m.env.remove(x), ..m }, SpecFlow::Normal),
        SpecStmt::Input(x) => if m.read < inputs.len() {
            (Machine { env: m.env.insert(x, SpecValue::String(trim(inputs[m.read as int]))), read: m.read + 1, ..m }, SpecFlow::Normal)
        } else {
            (m, SpecFlow::NeedInput)
        },
        SpecStmt::Print(e) => match eval(m.env, memo, e) {
            SpecEval::Done(v) => (Machine { out: m.out.push(v), ..m }, SpecFlow::Normal),
            other => (m, stop(other)),
        },
        SpecStmt::If(c, a, b) => match eval(m.env, memo, c) {
            SpecEval::Done(SpecValue::Boolean(true)) => exec_block(m, inputs, memo, fuel, a),
            SpecEval::Done(SpecValue::Boolean(false)) => exec_block(m, inputs, memo, fuel, b),
            SpecEval::Done(_) => (m, stop_with(RuntimeErrorKind::TypeMismatch, "expected boolean in `if` condition"@)),
            other => (m, stop(other)),
        },
        SpecStmt::While(c, body) => if fuel == 0 {
            (m, SpecFlow::OutOfFuel)
        } else {
            match eval(m.env, memo, c) {
                SpecEval::Done(SpecValue::Boolean(true)) => {
                    let (m1, f1) = exec_block(m, inputs, memo, (fuel - 1) as nat, body);
                    if f1 is Normal {
                        exec_stmt(m1, inputs, memo, (fuel - 1) as nat, st)
                    } else {
                        (m1, f1)
                    }
                },
                SpecEval::Done(SpecValue::Boolean(false)) => (m, SpecFlow::Normal),
                SpecEval::Done(_) => (m, stop_with(RuntimeErrorKind::TypeMismatch, "expected boolean in `while` condition"@)),
                other => (m, stop(other)),
            }
        },
    }
}

/// Running statements one after the other, up to the first that does not end normally.
pub open spec fn exec_block(m: Machine, inputs: Seq<Seq<char>>, memo: Answers, fuel: nat, stmts: Seq<SpecStmt>) -> (Machine, SpecFlow)
    decreases fuel, stmts,
{
    if stmts.len() == 0 {
        (m, SpecFlow::Normal)
    } else {
        let (m1, f1) = exec_stmt(m, inputs, memo, fuel, stmts[0]);
        if f1 is Normal {
            exec_block(m1, inputs, memo, fuel, stmts.subrange(1, stmts.len() as int))
        } else {
            (m1, f1)
        }
    }
}

/// The machine before a program runs.
pub open spec fn initial_machine() -> Machine {
    Machine { env: Map::empty(), out: Seq::empty(), read: 0 }
}

/// Running a program from the start, with the input lines and float
/// answers given so far and the given fuel.
pub open spec fn run(prog: Seq<SpecStmt>, inputs: Seq<Seq<char>>, memo: Answers, fuel: nat) -> (Machine, SpecFlow) {
    exec_block(initial_machine(), inputs, memo, fuel, prog)
}

} // verus!
