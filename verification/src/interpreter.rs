//! Running programs: the evaluator of expressions and the executor of
//! statements, proved to follow `semantics.rs`.
use vstd::prelude::*;
use crate::ast::{BinaryOperators, Expression, Statement, UnaryOperators, SpecExpr, exprs_view, lemma_exprs_view, stmts_view, lemma_stmts_view, stmt_view};
use crate::error::{RuntimeError, RuntimeErrorKind, SpecRuntimeError};
use crate::semantics::{
    Env, SpecEval, Machine, SpecFlow, exec_stmt, initial_machine, exec_block, index_assign, answer_text, answer_value, ask, debug_list, debug_text, display_text, eval, eval_binary,
    eval_list, eval_unary, fail_showing, incompatible, index_value, int_binary, op_name,
};
use crate::text::{bool_to_text, chars_of, debug_str, int_to_text, parse_bool_text, parse_int_text, push_char, trim_text};
use crate::value::{
    FloatRequest, SpecFloatRequest, SpecValue, Value, answers_view, clone_value, find_answer,
    lemma_values_view, lemma_values_view_ext, value_view, values_view,
};

verus! {

/// What evaluating an expression gives: a value, an error, or a float
/// request that the host has not answered yet.
pub enum Eval {
    Done(Value),
    Fail(RuntimeError),
    Need(FloatRequest),
}

impl View for Eval {
    type V = SpecEval;

    open spec fn view(&self) -> SpecEval {
        match self {
            Eval::Done(v) => SpecEval::Done(v@),
            Eval::Fail(e) => SpecEval::Fail(e@),
            Eval::Need(q) => SpecEval::Need(q@),
        }
    }
}

/// The host's answers, as the library sees them.
pub type HostAnswers = [(FloatRequest, Option<Value>)];

fn fail(kind: RuntimeErrorKind, msg: String) -> (r: Eval)
    ensures
        r@ == SpecEval::Fail(SpecRuntimeError { kind, msg: msg@ }),
{
    Eval::Fail(RuntimeError::new(kind, msg))
}

fn ask_host(memo: &HostAnswers, req: FloatRequest) -> (r: Result<Option<Value>, FloatRequest>)
    ensures
        match ask(answers_view(memo@), req@) {
            Ok(a) => r matches Ok(b) && match a {
                Some(v) => b matches Some(x) && x@ == v,
                None => b is None,
            },
            Err(q) => r matches Err(q2) && q2@ == q,
        },
{
    match find_answer(memo, &req) {
        Some(a) => Ok(a),
        None => Err(req),
    }
}

fn answer_value_exec(a: Option<Value>) -> (r: Eval)
    ensures
        r@ == answer_value(match a {
            Some(v) => Some(v@),
            None => None,
        }),
{
    match a {
        Some(v) => Eval::Done(v),
        None => fail(RuntimeErrorKind::TypeMismatch, String::from_str("float operation refused")),
    }
}

fn answer_text_exec(a: Option<Value>) -> (r: String)
    ensures
        r@ == answer_text(match a {
            Some(v) => Some(v@),
            None => None,
        }),
{
    match a {
        Some(Value::String(t)) => t,
        _ => String::new(),
    }
}

/// The name of a binary operator, as `{:?}` shows it.
fn op_name_text(op: BinaryOperators) -> (r: String)
    ensures
        r@ == op_name(op),
{
    match op {
        BinaryOperators::Add => String::from_str("Add"),
        BinaryOperators::Sub => String::from_str("Sub"),
        BinaryOperators::Mul => String::from_str("Mul"),
        BinaryOperators::Div => String::from_str("Div"),
        BinaryOperators::Mod => String::from_str("Mod"),
        BinaryOperators::LThan => String::from_str("LThan"),
        BinaryOperators::GThan => String::from_str("GThan"),
        BinaryOperators::LThanEquals => String::from_str("LThanEquals"),
        BinaryOperators::GThanEquals => String::from_str("GThanEquals"),
        BinaryOperators::Equals => String::from_str("Equals"),
        BinaryOperators::NotEquals => String::from_str("NotEquals"),
        BinaryOperators::And => String::from_str("And"),
        BinaryOperators::Or => String::from_str("Or"),
    }
}

/// A value as `{:?}` shows it.
pub fn debug_value(memo: &HostAnswers, v: &Value) -> (r: Result<String, FloatRequest>)
    ensures
        match debug_text(answers_view(memo@), v@) {
            Ok(t) => r matches Ok(s) && s@ == t,
            Err(q) => r matches Err(q2) && q2@ == q,
        },
    decreases v, 1nat,
{
    let ghost m = answers_view(memo@);
    match v {
        Value::Int(n) => {
            let s = String::from_str("Int(");
            let t = int_to_text(*n);
            let s = s.concat(t.as_str());
            Ok(s.concat(")"))
        },
        Value::Float(b) => match ask_host(memo, FloatRequest::DebugText(*b)) {
            Err(q) => Err(q),
            Ok(a) => {
                let s = String::from_str("Float(");
                let t = answer_text_exec(a);
                let s = s.concat(t.as_str());
                Ok(s.concat(")"))
            },
        },
        Value::Boolean(b) => {
            let s = String::from_str("Boolean(");
            let t = bool_to_text(*b);
            let s = s.concat(t.as_str());
            Ok(s.concat(")"))
        },
        Value::String(t) => {
            let s = String::from_str("String(");
            let d = debug_str(t.as_str());
            let s = s.concat(d.as_str());
            Ok(s.concat(")"))
        },
        Value::Array(a) => match debug_items(memo, a) {
            Err(q) => Err(q),
            Ok(t) => {
                let s = String::from_str("Array([");
                let s = s.concat(t.as_str());
                Ok(s.concat("])"))
            },
        },
    }
}

/// The items of an array as `{:?}` shows them, separated by `, `.
fn debug_items(memo: &HostAnswers, a: &Vec<Value>) -> (r: Result<String, FloatRequest>)
    ensures
        match debug_list(answers_view(memo@), values_view(a@)) {
            Ok(t) => r matches Ok(s) && s@ == t,
            Err(q) => r matches Err(q2) && q2@ == q,
        },
    decreases a, 0nat,
{
    let ghost m = answers_view(memo@);
    let ghost vs = values_view(a@);
    proof {
        lemma_values_view(a@);
    }
    let mut acc = String::new();
    let mut i: usize = 0;
    assert(vs.subrange(0, 0) =~= Seq::<SpecValue>::empty());
    while i < a.len()
        invariant
            m == answers_view(memo@),
            vs == values_view(a@),
            vs.len() == a@.len(),
            forall|j: int| 0 <= j < a@.len() ==> #[trigger] vs[j] == value_view(a@[j]),
            i <= a@.len(),
            debug_list(m, vs.subrange(0, i as int)) == Ok::<Seq<char>, SpecFloatRequest>(acc@),
        decreases a@.len() - i,
    {
        proof {
            assert(decreases_to!(*a => a@));
            assert(decreases_to!(a@ => a@[i as int]));
        }
        let ghost prefix = vs.subrange(0, i + 1);
        assert(prefix.subrange(0, prefix.len() - 1) == vs.subrange(0, i as int));
        assert(prefix[prefix.len() - 1] == vs[i as int]);
        match debug_value(memo, &a[i]) {
            Err(q) => {
                proof {
                    crate::semantics::lemma_debug_list_err(m, vs, i + 1);
                }
                return Err(q);
            },
            Ok(t) => {
                if i == 0 {
                    acc = t;
                } else {
                    let s = acc.concat(", ");
                    acc = s.concat(t.as_str());
                }
            },
        }
        i = i + 1;
    }
    assert(vs.subrange(0, i as int) == vs);
    Ok(acc)
}

/// The line that `out` writes for a value: its text (see `display_text`)
/// and a line break. A float's text is the host's answer to `ToText`.
pub fn output_line(memo: &HostAnswers, v: &Value) -> (r: Result<String, FloatRequest>)
    ensures
        match display_text(answers_view(memo@), v@) {
            Ok(t) => r matches Ok(s) && s@ == t.push('\n'),
            Err(q) => r matches Err(q2) && q2@ == q,
        },
{
    let text = match v {
        Value::Int(n) => int_to_text(*n),
        Value::Float(b) => match ask_host(memo, FloatRequest::ToText(*b)) {
            Err(q) => {
                return Err(q);
            },
            Ok(a) => answer_text_exec(a),
        },
        Value::Boolean(b) => bool_to_text(*b),
        Value::String(t) => t.clone(),
        Value::Array(a) => {
            proof {
                lemma_values_view(a@);
            }
            match debug_items(memo, a) {
                Err(q) => {
                    return Err(q);
                },
                Ok(t) => {
                    let s = String::from_str("[");
                    let s = s.concat(t.as_str());
                    s.concat("]")
                },
            }
        },
    };
    let mut line = text;
    push_char(&mut line, '\n');
    Ok(line)
}

/// A type error whose message shows a value.
fn fail_showing_exec(memo: &HostAnswers, before: &str, v: &Value, after: &str) -> (r: Eval)
    ensures
        r@ == fail_showing(answers_view(memo@), before@, v@, after@),
{
    match debug_value(memo, v) {
        Err(q) => Eval::Need(q),
        Ok(d) => {
            let s = String::from_str(before);
            let s = s.concat(d.as_str());
            fail(RuntimeErrorKind::TypeMismatch, s.concat(after))
        },
    }
}

/// The error for operands of different types.
fn incompatible_exec(memo: &HostAnswers, l: &Value, r: &Value) -> (res: Eval)
    ensures
        res@ == incompatible(answers_view(memo@), l@, r@),
{
    match debug_value(memo, l) {
        Err(q) => Eval::Need(q),
        Ok(dl) => match debug_value(memo, r) {
            Err(q) => Eval::Need(q),
            Ok(dr) => {
                let s = String::from_str("incompatible operands `");
                let s = s.concat(dl.as_str());
                let s = s.concat("` and `");
                let s = s.concat(dr.as_str());
                fail(RuntimeErrorKind::TypeMismatch, s.concat("`"))
            },
        },
    }
}

fn invalid_operator(op: BinaryOperators, suffix: &str) -> (r: Eval)
    ensures
        r@ == SpecEval::Fail(SpecRuntimeError {
            kind: RuntimeErrorKind::TypeMismatch,
            msg: "invalid operator `"@ + op_name(op) + suffix@,
        }),
{
    let s = String::from_str("invalid operator `");
    let name = op_name_text(op);
    let s = s.concat(name.as_str());
    fail(RuntimeErrorKind::TypeMismatch, s.concat(suffix))
}

/// A binary operator on two integers.
fn int_binary_exec(op: BinaryOperators, l: i64, r: i64) -> (res: Eval)
    ensures
        res@ == int_binary(op, l, r),
{
    match op {
        BinaryOperators::Add => Eval::Done(Value::Int(l.wrapping_add(r))),
        BinaryOperators::Sub => Eval::Done(Value::Int(l.wrapping_sub(r))),
        BinaryOperators::Mul => Eval::Done(Value::Int(l.wrapping_mul(r))),
        BinaryOperators::Div => {
            if r == 0 {
                return fail(RuntimeErrorKind::DivisionByZero, String::from_str("division by zero"));
            }
            Eval::Done(Value::Int(match l.checked_div(r) {
                Some(q) => q,
                None => i64::MIN,
            }))
        },
        BinaryOperators::Mod => {
            if r == 0 {
                return fail(RuntimeErrorKind::DivisionByZero, String::from_str("division by zero"));
            }
            Eval::Done(Value::Int(match l.checked_rem(r) {
                Some(q) => q,
                None => 0,
            }))
        },
        BinaryOperators::LThan => Eval::Done(Value::Boolean(l < r)),
        BinaryOperators::GThan => Eval::Done(Value::Boolean(l > r)),
        BinaryOperators::LThanEquals => Eval::Done(Value::Boolean(l <= r)),
        BinaryOperators::GThanEquals => Eval::Done(Value::Boolean(l >= r)),
        BinaryOperators::Equals => Eval::Done(Value::Boolean(l == r)),
        BinaryOperators::NotEquals => Eval::Done(Value::Boolean(l != r)),
        _ => invalid_operator(op, "` for ints"),
    }
}

/// A binary operator other than `&&` and `||` on two values.
fn eval_binary_exec(memo: &HostAnswers, op: BinaryOperators, lv: Value, rv: Value) -> (res: Eval)
    ensures
        res@ == eval_binary(answers_view(memo@), op, lv@, rv@),
{
    match (&lv, &rv) {
        (Value::Int(l), Value::Int(r)) => int_binary_exec(op, *l, *r),
        (Value::Float(l), Value::Float(r)) => match ask_host(memo, FloatRequest::Binary(op, *l, *r)) {
            Err(q) => Eval::Need(q),
            Ok(Some(v)) => Eval::Done(v),
            Ok(None) => fail(RuntimeErrorKind::DivisionByZero, String::from_str("division by zero")),
        },
        (Value::Boolean(l), Value::Boolean(r)) => match op {
            BinaryOperators::Equals => Eval::Done(Value::Boolean(*l == *r)),
            BinaryOperators::NotEquals => Eval::Done(Value::Boolean(*l != *r)),
            _ => invalid_operator(op, "` for booleans"),
        },
        (Value::String(l), Value::String(r)) => match op {
            BinaryOperators::Add => {
                let s = l.clone();
                Eval::Done(Value::String(s.concat(r.as_str())))
            },
            BinaryOperators::Equals => Eval::Done(Value::Boolean(*l == *r)),
            BinaryOperators::NotEquals => Eval::Done(Value::Boolean(!(*l == *r))),
            _ => invalid_operator(op, "` for strings"),
        },
        _ => incompatible_exec(memo, &lv, &rv),
    }
}

fn failed_cast(s: &String, suffix: &str) -> (r: Eval)
    ensures
        r@ == SpecEval::Fail(SpecRuntimeError {
            kind: RuntimeErrorKind::TypeMismatch,
            msg: "failed to cast `"@ + s@ + suffix@,
        }),
{
    let m = String::from_str("failed to cast `");
    let m = m.concat(s.as_str());
    fail(RuntimeErrorKind::TypeMismatch, m.concat(suffix))
}

/// A unary operator or cast on a value.
fn eval_unary_exec(memo: &HostAnswers, op: UnaryOperators, v: Value) -> (res: Eval)
    ensures
        res@ == eval_unary(answers_view(memo@), op, v@),
{
    match op {
        UnaryOperators::Add => match v {
            Value::Int(_) | Value::Float(_) => Eval::Done(v),
            _ => fail(RuntimeErrorKind::TypeMismatch, String::from_str("expected either `int` or `float` for unary `+`")),
        },
        UnaryOperators::Sub => match v {
            Value::Int(n) => Eval::Done(Value::Int(0i64.wrapping_sub(n))),
            Value::Float(b) => match ask_host(memo, FloatRequest::Neg(b)) {
                Err(q) => Eval::Need(q),
                Ok(a) => answer_value_exec(a),
            },
            _ => fail(RuntimeErrorKind::TypeMismatch, String::from_str("expected either `int` or `float` for unary `-`")),
        },
        UnaryOperators::Not => match v {
            Value::Boolean(b) => Eval::Done(Value::Boolean(!b)),
            _ => fail_showing_exec(memo, "expected `boolean` for unary `!`, found ", &v, ""),
        },
        UnaryOperators::ToInt => match v {
            Value::Int(_) => Eval::Done(v),
            Value::Float(b) => match ask_host(memo, FloatRequest::ToInt(b)) {
                Err(q) => Eval::Need(q),
                Ok(a) => answer_value_exec(a),
            },
            Value::String(s) => {
                let chars = chars_of(s.as_str());
                match parse_int_text(&chars) {
                    Some(n) => Eval::Done(Value::Int(n)),
                    None => failed_cast(&s, "` to int"),
                }
            },
            _ => fail_showing_exec(memo, "cannot cast type `", &v, "` to int"),
        },
        UnaryOperators::ToFloat => match v {
            Value::Int(n) => match ask_host(memo, FloatRequest::FromInt(n)) {
                Err(q) => Eval::Need(q),
                Ok(a) => answer_value_exec(a),
            },
            Value::Float(_) => Eval::Done(v),
            Value::String(s) => match ask_host(memo, FloatRequest::Parse(s.clone())) {
                Err(q) => Eval::Need(q),
                Ok(Some(x)) => Eval::Done(x),
                Ok(None) => failed_cast(&s, "` to float"),
            },
            _ => fail_showing_exec(memo, "cannot cast type `", &v, "` to float"),
        },
        UnaryOperators::ToBool => match v {
            Value::Boolean(_) => Eval::Done(v),
            Value::String(s) => match parse_bool_text(&s) {
                Some(b) => Eval::Done(Value::Boolean(b)),
                None => failed_cast(&s, "` to boolean"),
            },
            _ => fail_showing_exec(memo, "cannot cast type `", &v, "` to boolean"),
        },
        UnaryOperators::ToStr => match v {
            Value::Int(n) => Eval::Done(Value::String(int_to_text(n))),
            Value::Float(b) => match ask_host(memo, FloatRequest::ToText(b)) {
                Err(q) => Eval::Need(q),
                Ok(a) => answer_value_exec(a),
            },
            Value::Boolean(b) => Eval::Done(Value::String(bool_to_text(b))),
            Value::String(_) => Eval::Done(v),
            _ => fail_showing_exec(memo, "cannot cast type `", &v, "` to string"),
        },
    }
}

/// The environment that a list of bindings stands for.
pub open spec fn env_of(s: Seq<(String, Value)>) -> Env {
    Map::new(
        |k: Seq<char>| exists|i: int| 0 <= i < s.len() && s[i].0@ == k,
        |k: Seq<char>| s[choose|i: int| 0 <= i < s.len() && s[i].0@ == k].1@,
    )
}

/// No name is bound twice.
pub open spec fn keys_unique(s: Seq<(String, Value)>) -> bool {
    forall|i: int, j: int| 0 <= i < s.len() && 0 <= j < s.len() && i != j ==> s[i].0@ != s[j].0@
}

proof fn lemma_env_at(s: Seq<(String, Value)>, i: int)
    requires
        keys_unique(s),
        0 <= i < s.len(),
    ensures
        env_of(s).contains_key(s[i].0@),
        env_of(s)[s[i].0@] == s[i].1@,
{
    let k = s[i].0@;
    assert(exists|j: int| 0 <= j < s.len() && s[j].0@ == k);
    let j = choose|j: int| 0 <= j < s.len() && s[j].0@ == k;
    assert(j == i);
}

proof fn lemma_env_absent(s: Seq<(String, Value)>, k: Seq<char>)
    requires
        forall|i: int| 0 <= i < s.len() ==> s[i].0@ != k,
    ensures
        !env_of(s).contains_key(k),
{
}

proof fn lemma_env_push(s: Seq<(String, Value)>, k: String, v: Value)
    requires
        keys_unique(s),
        forall|i: int| 0 <= i < s.len() ==> s[i].0@ != k@,
    ensures
        keys_unique(s.push((k, v))),
        env_of(s.push((k, v))) == env_of(s).insert(k@, v@),
{
    let t = s.push((k, v));
    assert forall|key: Seq<char>| #[trigger] env_of(t).contains_key(key) <==> env_of(s).insert(k@, v@).contains_key(key) by {
        if env_of(s).contains_key(key) {
            let i = choose|i: int| 0 <= i < s.len() && s[i].0@ == key;
            assert(t[i] == s[i]);
        }
        if key == k@ {
            assert(t[s.len() as int].0@ == k@);
        }
        if env_of(t).contains_key(key) && key != k@ {
            let i = choose|i: int| 0 <= i < t.len() && t[i].0@ == key;
            assert(s[i] == t[i]);
        }
    }
    assert forall|key: Seq<char>| #[trigger] env_of(t).contains_key(key) implies env_of(t)[key] == env_of(s).insert(k@, v@)[key] by {
        if key == k@ {
            lemma_env_at(t, s.len() as int);
        } else {
            let i = choose|i: int| 0 <= i < t.len() && t[i].0@ == key;
            assert(t[i] == s[i]);
            lemma_env_at(t, i);
            lemma_env_at(s, i);
        }
    }
    assert(env_of(t) =~= env_of(s).insert(k@, v@));
}

proof fn lemma_env_update(s: Seq<(String, Value)>, i: int, v: Value)
    requires
        keys_unique(s),
        0 <= i < s.len(),
    ensures
        keys_unique(s.update(i, (s[i].0, v))),
        env_of(s.update(i, (s[i].0, v))) == env_of(s).insert(s[i].0@, v@),
{
    let t = s.update(i, (s[i].0, v));
    let k = s[i].0@;
    assert forall|key: Seq<char>| #[trigger] env_of(t).contains_key(key) <==> env_of(s).insert(k, v@).contains_key(key) by {
        if env_of(s).contains_key(key) {
            let j = choose|j: int| 0 <= j < s.len() && s[j].0@ == key;
            assert(t[j].0@ == key);
        }
        if env_of(t).contains_key(key) {
            let j = choose|j: int| 0 <= j < t.len() && t[j].0@ == key;
            assert(s[j].0@ == key);
        }
    }
    assert forall|key: Seq<char>| #[trigger] env_of(t).contains_key(key) implies env_of(t)[key] == env_of(s).insert(k, v@)[key] by {
        let j = choose|j: int| 0 <= j < t.len() && t[j].0@ == key;
        lemma_env_at(t, j);
        if j != i {
            lemma_env_at(s, j);
        }
    }
    assert(env_of(t) =~= env_of(s).insert(k, v@));
}

proof fn lemma_env_remove(s: Seq<(String, Value)>, i: int)
    requires
        keys_unique(s),
        0 <= i < s.len(),
    ensures
        keys_unique(s.remove(i)),
        env_of(s.remove(i)) == env_of(s).remove(s[i].0@),
{
    let t = s.remove(i);
    let k = s[i].0@;
    assert forall|a: int, b: int| 0 <= a < t.len() && 0 <= b < t.len() && a != b implies t[a].0@ != t[b].0@ by {
        let a2 = if a < i { a } else { a + 1 };
        let b2 = if b < i { b } else { b + 1 };
        assert(t[a] == s[a2]);
        assert(t[b] == s[b2]);
    }
    assert forall|key: Seq<char>| #[trigger] env_of(t).contains_key(key) <==> env_of(s).remove(k).contains_key(key) by {
        if env_of(s).contains_key(key) && key != k {
            let j = choose|j: int| 0 <= j < s.len() && s[j].0@ == key;
            let j2 = if j < i { j } else { j - 1 };
            assert(t[j2] == s[j]);
        }
        if env_of(t).contains_key(key) {
            let j = choose|j: int| 0 <= j < t.len() && t[j].0@ == key;
            let j2 = if j < i { j } else { j + 1 };
            assert(t[j] == s[j2]);
        }
    }
    assert forall|key: Seq<char>| #[trigger] env_of(t).contains_key(key) implies env_of(t)[key] == env_of(s).remove(k)[key] by {
        let j = choose|j: int| 0 <= j < t.len() && t[j].0@ == key;
        let j2 = if j < i { j } else { j + 1 };
        assert(t[j] == s[j2]);
        lemma_env_at(t, j);
        lemma_env_at(s, j2);
    }
    assert(env_of(t) =~= env_of(s).remove(k));
}

/// The state of a running program: the variables, the values printed so
/// far, and the number of input lines read.
pub struct Interpreter {
    global_var: Vec<(String, Value)>,
    output: Vec<Value>,
    inputs_read: usize,
}

impl Interpreter {
    pub closed spec fn env(&self) -> Env {
        env_of(self.global_var@)
    }

    pub closed spec fn out(&self) -> Seq<SpecValue> {
        values_view(self.output@)
    }

    pub closed spec fn read(&self) -> nat {
        self.inputs_read as nat
    }

    pub closed spec fn wf(&self) -> bool {
        keys_unique(self.global_var@)
    }

    /// An interpreter with no variables that has printed and read nothing.
    pub fn new() -> (r: Self)
        ensures
            r.wf(),
            r.env() == Map::<Seq<char>, SpecValue>::empty(),
            r.out() == Seq::<SpecValue>::empty(),
            r.read() == 0,
            r.machine() == initial_machine(),
    {
        let r = Interpreter { global_var: Vec::new(), output: Vec::new(), inputs_read: 0 };
        assert(r.env() =~= Map::<Seq<char>, SpecValue>::empty());
        assert(values_view(r.output@) =~= Seq::<SpecValue>::empty());
        r
    }

    /// The values printed so far, in order.
    pub fn output(&self) -> (r: &Vec<Value>)
        ensures
            values_view(r@) == self.out(),
    {
        &self.output
    }

    /// Where a name is bound.
    fn find(&self, key: &String) -> (r: Option<usize>)
        requires
            self.wf(),
        ensures
            r matches Some(i) ==> i < self.global_var@.len() && self.global_var@[i as int].0@ == key@,
            r is None ==> !self.env().contains_key(key@),
            r is Some <==> self.env().contains_key(key@),
    {
        let mut i: usize = 0;
        while i < self.global_var.len()
            invariant
                self.wf(),
                i <= self.global_var@.len(),
                forall|j: int| 0 <= j < i ==> self.global_var@[j].0@ != key@,
            decreases self.global_var@.len() - i,
        {
            if self.global_var[i].0 == *key {
                proof {
                    lemma_env_at(self.global_var@, i as int);
                }
                return Some(i);
            }
            i = i + 1;
        }
        proof {
            lemma_env_absent(self.global_var@, key@);
        }
        None
    }

    /// The value of a variable.
    pub fn lookup(&self, key: &String) -> (r: Option<Value>)
        requires
            self.wf(),
        ensures
            r is Some <==> self.env().contains_key(key@),
            r matches Some(v) ==> v@ == self.env()[key@],
    {
        match self.find(key) {
            Some(i) => {
                proof {
                    lemma_env_at(self.global_var@, i as int);
                }
                Some(clone_value(&self.global_var[i].1))
            },
            None => None,
        }
    }

    /// Binds a name, replacing its old value if it had one.
    fn bind(&mut self, key: String, v: Value)
        requires
            old(self).wf(),
        ensures
            final(self).wf(),
            final(self).env() == old(self).env().insert(key@, v@),
            final(self).out() == old(self).out(),
            final(self).read() == old(self).read(),
    {
        match self.find(&key) {
            Some(i) => {
                proof {
                    lemma_env_update(self.global_var@, i as int, v);
                }
                let ghost k = self.global_var@[i as int].0;
                let name = self.global_var[i].0.clone();
                self.global_var.set(i, (name, v));
            },
            None => {
                proof {
                    lemma_env_push(self.global_var@, key, v);
                }
                self.global_var.push((key, v));
            },
        }
    }

    /// Removes a binding, if there is one.
    fn unbind(&mut self, key: &String)
        requires
            old(self).wf(),
        ensures
            final(self).wf(),
            final(self).env() == old(self).env().remove(key@),
            final(self).out() == old(self).out(),
            final(self).read() == old(self).read(),
    {
        match self.find(key) {
            Some(i) => {
                proof {
                    lemma_env_remove(self.global_var@, i as int);
                }
                self.global_var.remove(i);
            },
            None => {
                assert(self.env().remove(key@) =~= self.env());
            },
        }
    }
}

/// The error for a name that is not bound.
fn undefined_variable(x: &String) -> (r: Eval)
    ensures
        r@ == SpecEval::Fail(SpecRuntimeError {
            kind: RuntimeErrorKind::UndefinedVariable,
            msg: "undefined variable `"@ + x@ + "`"@,
        }),
{
    let m = String::from_str("undefined variable `");
    let m = m.concat(x.as_str());
    fail(RuntimeErrorKind::UndefinedVariable, m.concat("`"))
}

impl Interpreter {
    /// Reading `x[i]`, where `iv` is the value of the index.
    fn index_value(&self, memo: &HostAnswers, x: &String, iv: Value) -> (r: Eval)
        requires
            self.wf(),
        ensures
            r@ == index_value(answers_view(memo@), self.env(), x@, iv@),
    {
        match self.find(x) {
            None => undefined_variable(x),
            Some(i) => {
                proof {
                    lemma_env_at(self.global_var@, i as int);
                }
                match &self.global_var[i].1 {
                    Value::Array(vs) => {
                        proof {
                            lemma_values_view(vs@);
                        }
                        match iv {
                            Value::Int(k) => {
                                if k < 0 {
                                    fail(RuntimeErrorKind::InvalidIndex, String::from_str("array index cannot be negative"))
                                } else if (k as u64) >= (vs.len() as u64) {
                                    fail(RuntimeErrorKind::InvalidIndex, String::from_str("array index out of bounds"))
                                } else {
                                    Eval::Done(clone_value(&vs[k as usize]))
                                }
                            },
                            _ => fail(RuntimeErrorKind::InvalidIndex, String::from_str("array index must be an integer")),
                        }
                    },
                    other => fail_showing_exec(memo, "cannot index value of type `", other, "`"),
                }
            },
        }
    }

    /// The value of an expression in the current variables.
    pub fn expression(&self, expr: &Expression, memo: &HostAnswers) -> (r: Eval)
        requires
            self.wf(),
        ensures
            r@ == eval(self.env(), answers_view(memo@), expr@),
        decreases expr,
    {
        let ghost m = answers_view(memo@);
        match expr {
            Expression::IntegerLiteral(n) => Eval::Done(Value::Int(n.int)),
            Expression::FloatLiteral(f) => match ask_host(memo, FloatRequest::Literal(f.float.clone())) {
                Err(q) => Eval::Need(q),
                Ok(a) => answer_value_exec(a),
            },
            Expression::BooleanLiteral(b) => Eval::Done(Value::Boolean(b.boolean)),
            Expression::StringLiteral(t) => Eval::Done(Value::String(t.string.clone())),
            Expression::Identifier(i) => match self.lookup(&i.value) {
                Some(v) => Eval::Done(v),
                None => undefined_variable(&i.value),
            },
            Expression::ArrayLiteral(al) => {
                let ghost es = exprs_view(al.arr@);
                proof {
                    lemma_exprs_view(al.arr@);
                }
                let mut vals: Vec<Value> = Vec::new();
                let mut i: usize = 0;
                assert(es.subrange(0, 0) =~= Seq::<SpecExpr>::empty());
                assert(values_view(vals@) =~= Seq::<SpecValue>::empty());
                while i < al.arr.len()
                    invariant
                        *expr == Expression::ArrayLiteral(*al),
                        self.wf(),
                        m == answers_view(memo@),
                        es == exprs_view(al.arr@),
                        es.len() == al.arr@.len(),
                        forall|j: int| 0 <= j < al.arr@.len() ==> #[trigger] es[j] == crate::ast::expr_view(al.arr@[j]),
                        i <= al.arr@.len(),
                        eval_list(self.env(), m, es.subrange(0, i as int)) == Ok::<Seq<SpecValue>, SpecEval>(values_view(vals@)),
                    decreases al.arr@.len() - i,
                {
                    proof {
                        assert(decreases_to!(*expr => (*expr)->ArrayLiteral_0));
                        assert(decreases_to!((*expr)->ArrayLiteral_0 => (*expr)->ArrayLiteral_0.arr));
                        assert(decreases_to!((*expr)->ArrayLiteral_0.arr => al.arr@));
                        assert(decreases_to!(al.arr@ => al.arr@[i as int]));
                    }
                    let ghost prefix = es.subrange(0, i + 1);
                    assert(prefix.subrange(0, prefix.len() - 1) == es.subrange(0, i as int));
                    assert(prefix[prefix.len() - 1] == es[i as int]);
                    match self.expression(&al.arr[i], memo) {
                        Eval::Done(v) => {
                            proof {
                                lemma_values_view(vals@);
                                lemma_values_view(vals@.push(v));
                                assert(values_view(vals@.push(v)) =~= values_view(vals@).push(v@));
                            }
                            vals.push(v);
                        },
                        other => {
                            proof {
                                crate::semantics::lemma_eval_list_err(self.env(), m, es, i + 1);
                            }
                            return other;
                        },
                    }
                    i = i + 1;
                }
                assert(es.subrange(0, i as int) == es);
                Eval::Done(Value::Array(vals))
            },
            Expression::ArrayIndexing(ai) => match self.expression(&ai.idx, memo) {
                Eval::Done(iv) => self.index_value(memo, &ai.iden.value, iv),
                other => other,
            },
            Expression::UnaryOperation(u) => match self.expression(&u.operand, memo) {
                Eval::Done(v) => eval_unary_exec(memo, u.operator, v),
                other => other,
            },
            Expression::BinaryOperation(b) => {
                let lv = match self.expression(&b.left, memo) {
                    Eval::Done(v) => v,
                    other => {
                        return other;
                    },
                };
                match b.operator {
                    BinaryOperators::And => match lv {
                        Value::Boolean(true) => match self.expression(&b.right, memo) {
                            Eval::Done(Value::Boolean(x)) => Eval::Done(Value::Boolean(x)),
                            Eval::Done(rv) => incompatible_exec(memo, &Value::Boolean(true), &rv),
                            other => other,
                        },
                        Value::Boolean(false) => Eval::Done(Value::Boolean(false)),
                        _ => fail(RuntimeErrorKind::TypeMismatch, String::from_str("invalid operator `And` for booleans")),
                    },
                    BinaryOperators::Or => match lv {
                        Value::Boolean(true) => Eval::Done(Value::Boolean(true)),
                        Value::Boolean(false) => match self.expression(&b.right, memo) {
                            Eval::Done(Value::Boolean(x)) => Eval::Done(Value::Boolean(x)),
                            Eval::Done(rv) => incompatible_exec(memo, &Value::Boolean(false), &rv),
                            other => other,
                        },
                        _ => fail(RuntimeErrorKind::TypeMismatch, String::from_str("invalid operator `Or` for booleans")),
                    },
                    op => match self.expression(&b.right, memo) {
                        Eval::Done(rv) => eval_binary_exec(memo, op, lv, rv),
                        other => other,
                    },
                }
            },
        }
    }
}

/// How running statements ends: normally, with an error, or suspended
/// because it needs a float answer, another input line, or more fuel.
pub enum Flow {
    Normal,
    Failed(RuntimeError),
    NeedsFloat(FloatRequest),
    NeedsInput,
    OutOfFuel,
}

impl View for Flow {
    type V = SpecFlow;

    open spec fn view(&self) -> SpecFlow {
        match self {
            Flow::Normal => SpecFlow::Normal,
            Flow::Failed(e) => SpecFlow::Fail(e@),
            Flow::NeedsFloat(q) => SpecFlow::NeedFloat(q@),
            Flow::NeedsInput => SpecFlow::NeedInput,
            Flow::OutOfFuel => SpecFlow::OutOfFuel,
        }
    }
}

/// The input lines, as texts.
pub open spec fn inputs_view(inputs: Seq<String>) -> Seq<Seq<char>> {
    Seq::new(inputs.len(), |i: int| inputs[i]@)
}

/// The flow for an evaluation that gave no value.
fn stop_exec(e: Eval) -> (r: Flow)
    ensures
        r@ == crate::semantics::stop(e@),
{
    match e {
        Eval::Done(_) => Flow::Normal,
        Eval::Fail(x) => Flow::Failed(x),
        Eval::Need(q) => Flow::NeedsFloat(q),
    }
}

fn stop_with(kind: RuntimeErrorKind, msg: String) -> (r: Flow)
    ensures
        r@ == crate::semantics::stop_with(kind, msg@),
{
    Flow::Failed(RuntimeError::new(kind, msg))
}

impl Interpreter {
    /// The state as `semantics.rs` sees it.
    pub open spec fn machine(&self) -> Machine {
        Machine { env: self.env(), out: self.out(), read: self.read() }
    }

    /// `x[i] = v`, where `iv` is the value of the index.
    fn index_assign(&mut self, memo: &HostAnswers, x: &String, iv: Value, v: Value) -> (r: Flow)
        requires
            old(self).wf(),
        ensures
            final(self).wf(),
            (final(self).machine(), r@) == index_assign(old(self).machine(), answers_view(memo@), x@, iv@, v@),
    {
        let i = match self.find(x) {
            None => {
                return Flow::Normal;
            },
            Some(i) => i,
        };
        proof {
            lemma_env_at(self.global_var@, i as int);
        }
        let current = clone_value(&self.global_var[i].1);
        match current {
            Value::Array(mut arr) => match iv {
                Value::Int(k) => {
                    proof {
                        lemma_values_view(arr@);
                    }
                    if k < 0 {
                        return stop_with(RuntimeErrorKind::InvalidIndex, String::from_str("array index cannot be negative"));
                    }
                    if (k as u64) >= (arr.len() as u64) {
                        return stop_with(RuntimeErrorKind::InvalidIndex, String::from_str("array index out of bounds"));
                    }
                    let ghost before = arr@;
                    arr.set(k as usize, v);
                    proof {
                        lemma_values_view(arr@);
                        lemma_values_view_ext(arr@, values_view(before).update(k as int, v@));
                    }
                    self.bind(x.clone(), Value::Array(arr));
                    Flow::Normal
                },
                _ => stop_with(RuntimeErrorKind::InvalidIndex, String::from_str("array index must be an integer")),
            },
            other => stop_exec(fail_showing_exec(memo, "cannot index value of type `", &other, "`")),
        }
    }

    /// Runs one statement with the input lines and float answers given so far
    /// and the given fuel; `laws.rs` states what `if` and `while` do.
    pub fn statement(&mut self, stmt: &Statement, inputs: &[String], memo: &HostAnswers, fuel: u64) -> (r: Flow)
        requires
            old(self).wf(),
        ensures
            final(self).wf(),
            (final(self).machine(), r@) == exec_stmt(
                old(self).machine(),
                inputs_view(inputs@),
                answers_view(memo@),
                fuel as nat,
                stmt@,
            ),
        decreases fuel, stmt,
    {
        let ghost ins = inputs_view(inputs@);
        let ghost m = answers_view(memo@);
        match stmt {
            Statement::DeclareStmt(d) => match self.expression(&d.expr, memo) {
                Eval::Done(v) => {
                    self.bind(d.iden.value.clone(), v);
                    Flow::Normal
                },
                other => stop_exec(other),
            },
            Statement::AssignmentStmt(a) => match self.expression(&a.expr, memo) {
                Eval::Done(v) => {
                    if self.find(&a.iden.value).is_some() {
                        self.bind(a.iden.value.clone(), v);
                        Flow::Normal
                    } else {
                        let msg = String::from_str("undeclared variable assignment `");
                        let msg = msg.concat(a.iden.value.as_str());
                        stop_with(RuntimeErrorKind::UndefinedVariable, msg.concat("`"))
                    }
                },
                other => stop_exec(other),
            },
            Statement::IndexAssignmentStmt(ia) => {
                let iv = match self.expression(&ia.idx, memo) {
                    Eval::Done(iv) => iv,
                    other => {
                        return stop_exec(other);
                    },
                };
                let v = match self.expression(&ia.expr, memo) {
                    Eval::Done(v) => v,
                    other => {
                        return stop_exec(other);
                    },
                };
                self.index_assign(memo, &ia.iden.value, iv, v)
            },
            Statement::DeleteStmt(d) => {
                self.unbind(&d.iden.value);
                Flow::Normal
            },
            Statement::InputStmt(inp) => {
                if self.inputs_read < inputs.len() {
                    let line = trim_text(inputs[self.inputs_read].as_str());
                    self.bind(inp.iden.value.clone(), Value::String(line));
                    self.inputs_read = self.inputs_read + 1;
                    Flow::Normal
                } else {
                    Flow::NeedsInput
                }
            },
            Statement::PrintStmt(p) => match self.expression(&p.expr, memo) {
                Eval::Done(v) => {
                    proof {
                        lemma_values_view(self.output@);
                        lemma_values_view(self.output@.push(v));
                        assert(values_view(self.output@.push(v)) =~= values_view(self.output@).push(v@));
                    }
                    self.output.push(v);
                    Flow::Normal
                },
                other => stop_exec(other),
            },
            Statement::IfStmt(i) => match self.expression(&i.if_cond, memo) {
                Eval::Done(Value::Boolean(true)) => {
                    proof {
                        assert(decreases_to!(*stmt => (*stmt)->IfStmt_0));
                        assert(decreases_to!((*stmt)->IfStmt_0 => (*stmt)->IfStmt_0.if_stmts));
                    }
                    self.block(&i.if_stmts, inputs, memo, fuel)
                },
                Eval::Done(Value::Boolean(false)) => {
                    proof {
                        assert(decreases_to!(*stmt => (*stmt)->IfStmt_0));
                        assert(decreases_to!((*stmt)->IfStmt_0 => (*stmt)->IfStmt_0.else_stmts));
                    }
                    self.block(&i.else_stmts, inputs, memo, fuel)
                },
                Eval::Done(_) => stop_with(RuntimeErrorKind::TypeMismatch, String::from_str("expected boolean in `if` condition")),
                other => stop_exec(other),
            },
            Statement::WhileStmt(w) => {
                let mut f = fuel;
                loop
                    invariant
                        *stmt == Statement::WhileStmt(*w),
                        self.wf(),
                        f <= fuel,
                        ins == inputs_view(inputs@),
                        m == answers_view(memo@),
                        exec_stmt(old(self).machine(), ins, m, fuel as nat, stmt@) == exec_stmt(self.machine(), ins, m, f as nat, stmt@),
                    decreases f,
                {
                    if f == 0 {
                        return Flow::OutOfFuel;
                    }
                    match self.expression(&w.while_cond, memo) {
                        Eval::Done(Value::Boolean(true)) => {
                            let r = self.block(&w.while_stmts, inputs, memo, f - 1);
                            match r {
                                Flow::Normal => {},
                                other => {
                                    return other;
                                },
                            }
                            f = f - 1;
                        },
                        Eval::Done(Value::Boolean(false)) => {
                            return Flow::Normal;
                        },
                        Eval::Done(_) => {
                            return stop_with(
                                RuntimeErrorKind::TypeMismatch,
                                String::from_str("expected boolean in `while` condition"),
                            );
                        },
                        other => {
                            return stop_exec(other);
                        },
                    }
                }
            },
        }
    }

    /// Runs statements one after the other, up to the first that does not end normally.
    fn block(&mut self, stmts: &Vec<Statement>, inputs: &[String], memo: &HostAnswers, fuel: u64) -> (r: Flow)
        requires
            old(self).wf(),
        ensures
            final(self).wf(),
            (final(self).machine(), r@) == exec_block(
                old(self).machine(),
                inputs_view(inputs@),
                answers_view(memo@),
                fuel as nat,
                stmts_view(stmts@),
            ),
        decreases fuel, stmts,
    {
        let ghost ins = inputs_view(inputs@);
        let ghost m = answers_view(memo@);
        let ghost ss = stmts_view(stmts@);
        proof {
            lemma_stmts_view(stmts@);
        }
        let mut i: usize = 0;
        assert(ss.subrange(0, ss.len() as int) == ss);
        while i < stmts.len()
            invariant
                self.wf(),
                i <= stmts@.len(),
                ss == stmts_view(stmts@),
                ss.len() == stmts@.len(),
                forall|j: int| 0 <= j < stmts@.len() ==> #[trigger] ss[j] == stmt_view(stmts@[j]),
                ins == inputs_view(inputs@),
                m == answers_view(memo@),
                exec_block(old(self).machine(), ins, m, fuel as nat, ss) == exec_block(
                    self.machine(),
                    ins,
                    m,
                    fuel as nat,
                    ss.subrange(i as int, ss.len() as int),
                ),
            decreases stmts@.len() - i,
        {
            proof {
                assert(decreases_to!(*stmts => stmts@));
                assert(decreases_to!(stmts@ => stmts@[i as int]));
            }
            let ghost rest = ss.subrange(i as int, ss.len() as int);
            assert(rest[0] == ss[i as int]);
            assert(rest.subrange(1, rest.len() as int) == ss.subrange(i + 1, ss.len() as int));
            let r = self.statement(&stmts[i], inputs, memo, fuel);
            match r {
                Flow::Normal => {},
                other => {
                    return other;
                },
            }
            i = i + 1;
        }
        Flow::Normal
    }

    /// Runs a program with the input lines and float answers given so far
    /// and the given fuel; the values printed are in `output`.
    pub fn interpret(&mut self, program: &Vec<Statement>, inputs: &[String], memo: &HostAnswers, fuel: u64) -> (r: Flow)
        requires
            old(self).wf(),
        ensures
            final(self).wf(),
            (final(self).machine(), r@) == exec_block(
                old(self).machine(),
                inputs_view(inputs@),
                answers_view(memo@),
                fuel as nat,
                stmts_view(program@),
            ),
    {
        self.block(program, inputs, memo, fuel)
    }
}

} // verus!
