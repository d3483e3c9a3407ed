//! Run-time values, and the requests for floating-point work that the host answers.
use vstd::prelude::*;
use crate::ast::BinaryOperators;

verus! {

/// A run-time value. A float is held as the bits of its IEEE 754 double:
/// the library moves floats around, and the host computes with them.
#[derive(Debug)]
pub enum Value {
    Int(i64),
    Float(u64),
    Boolean(bool),
    String(String),
    Array(Vec<Value>),
}

/// The model of a value.
pub enum SpecValue {
    Int(i64),
    Float(u64),
    Boolean(bool),
    String(Seq<char>),
    Array(Seq<SpecValue>),
}

pub open spec fn value_view(v: Value) -> SpecValue
    decreases v,
{
    match v {
        Value::Int(n) => SpecValue::Int(n),
        Value::Float(b) => SpecValue::Float(b),
        Value::Boolean(b) => SpecValue::Boolean(b),
        Value::String(s) => SpecValue::String(s@),
        Value::Array(a) => SpecValue::Array(values_view(a@)),
    }
}

pub open spec fn values_view(s: Seq<Value>) -> Seq<SpecValue>
    decreases s,
{
    if s.len() == 0 {
        Seq::empty()
    } else {
        seq![value_view(s[0])] + values_view(s.subrange(1, s.len() as int))
    }
}

impl View for Value {
    type V = SpecValue;

    open spec fn view(&self) -> SpecValue {
        value_view(*self)
    }
}

pub proof fn lemma_values_view(s: Seq<Value>)
    ensures
        values_view(s).len() == s.len(),
        forall|i: int| 0 <= i < s.len() ==> #[trigger] values_view(s)[i] == value_view(s[i]),
    decreases s.len(),
{
    if s.len() > 0 {
        lemma_values_view(s.subrange(1, s.len() as int));
        assert forall|i: int| 0 <= i < s.len() implies #[trigger] values_view(s)[i] == value_view(s[i]) by {
            if i > 0 {
                assert(s.subrange(1, s.len() as int)[i - 1] == s[i]);
            }
        }
    }
}

/// A list of values whose views agree elementwise has the expected view.
pub proof fn lemma_values_view_ext(s: Seq<Value>, t: Seq<SpecValue>)
    requires
        s.len() == t.len(),
        forall|i: int| 0 <= i < s.len() ==> value_view(#[trigger] s[i]) == t[i],
    ensures
        values_view(s) == t,
{
    lemma_values_view(s);
    assert(values_view(s) =~= t);
}

/// A piece of floating-point work that the host does for the library.
///
/// The host answers with `Some` value, except that it refuses (answers
/// `None`) to parse a text that is not a float, and to divide or take a
/// remainder by a divisor that it counts as zero.
#[derive(Debug)]
pub enum FloatRequest {
    /// The float that a float literal's text denotes.
    Literal(String),
    /// The float nearest to an integer.
    FromInt(i64),
    /// The float that a text denotes, if it is one.
    Parse(String),
    /// The negation of a float.
    Neg(u64),
    /// A float converted to an integer.
    ToInt(u64),
    /// A float as the text that displays it.
    ToText(u64),
    /// A float as the text that `{:?}` shows.
    DebugText(u64),
    /// A binary operator applied to two floats: a float for arithmetic, a
    /// boolean for a comparison.
    Binary(BinaryOperators, u64, u64),
}

/// The model of a float request.
pub enum SpecFloatRequest {
    Literal(Seq<char>),
    FromInt(i64),
    Parse(Seq<char>),
    Neg(u64),
    ToInt(u64),
    ToText(u64),
    DebugText(u64),
    Binary(BinaryOperators, u64, u64),
}

impl View for FloatRequest {
    type V = SpecFloatRequest;

    open spec fn view(&self) -> SpecFloatRequest {
        match self {
            FloatRequest::Literal(t) => SpecFloatRequest::Literal(t@),
            FloatRequest::FromInt(n) => SpecFloatRequest::FromInt(*n),
            FloatRequest::Parse(t) => SpecFloatRequest::Parse(t@),
            FloatRequest::Neg(b) => SpecFloatRequest::Neg(*b),
            FloatRequest::ToInt(b) => SpecFloatRequest::ToInt(*b),
            FloatRequest::ToText(b) => SpecFloatRequest::ToText(*b),
            FloatRequest::DebugText(b) => SpecFloatRequest::DebugText(*b),
            FloatRequest::Binary(op, a, b) => SpecFloatRequest::Binary(*op, *a, *b),
        }
    }
}

/// The host's answers so far: each request with its answer.
pub open spec fn answers_view(memo: Seq<(FloatRequest, Option<Value>)>) -> Seq<(SpecFloatRequest, Option<SpecValue>)> {
    Seq::new(memo.len(), |i: int| (memo[i].0@, match memo[i].1 {
        Some(v) => Some(v@),
        None => None,
    }))
}

/// The answer to a request: that of its first occurrence, if it was asked.
pub open spec fn lookup_answer(memo: Seq<(SpecFloatRequest, Option<SpecValue>)>, req: SpecFloatRequest) -> Option<Option<SpecValue>>
    decreases memo.len(),
{
    if memo.len() == 0 {
        None
    } else if memo[0].0 == req {
        Some(memo[0].1)
    } else {
        lookup_answer(memo.subrange(1, memo.len() as int), req)
    }
}

/// Copies a value.
pub fn clone_value(v: &Value) -> (r: Value)
    ensures
        r@ == v@,
    decreases v,
{
    match v {
        Value::Int(n) => Value::Int(*n),
        Value::Float(b) => Value::Float(*b),
        Value::Boolean(b) => Value::Boolean(*b),
        Value::String(s) => Value::String(s.clone()),
        Value::Array(a) => {
            let mut out: Vec<Value> = Vec::new();
            let mut i: usize = 0;
            while i < a.len()
                invariant
                    *v == Value::Array(*a),
                    i <= a@.len(),
                    out@.len() == i,
                    forall|j: int| 0 <= j < i ==> value_view(#[trigger] out@[j]) == value_view(a@[j]),
                decreases a@.len() - i,
            {
                proof {
                    assert(decreases_to!(*v => (*v)->Array_0));
                    assert(decreases_to!((*v)->Array_0 => a@));
                    assert(decreases_to!(a@ => a@[i as int]));
                }
                let c = clone_value(&a[i]);
                out.push(c);
                i = i + 1;
            }
            proof {
                lemma_values_view(a@);
                lemma_values_view_ext(out@, values_view(a@));
            }
            Value::Array(out)
        },
    }
}

/// Copies a float request.
pub fn clone_request(r: &FloatRequest) -> (c: FloatRequest)
    ensures
        c@ == r@,
{
    match r {
        FloatRequest::Literal(t) => FloatRequest::Literal(t.clone()),
        FloatRequest::FromInt(n) => FloatRequest::FromInt(*n),
        FloatRequest::Parse(t) => FloatRequest::Parse(t.clone()),
        FloatRequest::Neg(b) => FloatRequest::Neg(*b),
        FloatRequest::ToInt(b) => FloatRequest::ToInt(*b),
        FloatRequest::ToText(b) => FloatRequest::ToText(*b),
        FloatRequest::DebugText(b) => FloatRequest::DebugText(*b),
        FloatRequest::Binary(op, a, b) => FloatRequest::Binary(*op, *a, *b),
    }
}

/// Whether two float requests are equal.
pub fn same_request(a: &FloatRequest, b: &FloatRequest) -> (r: bool)
    ensures
        r == (a@ == b@),
{
    match (a, b) {
        (FloatRequest::Literal(x), FloatRequest::Literal(y)) => *x == *y,
        (FloatRequest::FromInt(x), FloatRequest::FromInt(y)) => *x == *y,
        (FloatRequest::Parse(x), FloatRequest::Parse(y)) => *x == *y,
        (FloatRequest::Neg(x), FloatRequest::Neg(y)) => *x == *y,
        (FloatRequest::ToInt(x), FloatRequest::ToInt(y)) => *x == *y,
        (FloatRequest::ToText(x), FloatRequest::ToText(y)) => *x == *y,
        (FloatRequest::DebugText(x), FloatRequest::DebugText(y)) => *x == *y,
        (FloatRequest::Binary(o1, x1, y1), FloatRequest::Binary(o2, x2, y2)) => *o1 == *o2 && *x1 == *x2 && *y1 == *y2,
        _ => false,
    }
}

/// The host's answer to a request, if it was asked.
pub fn find_answer(memo: &[(FloatRequest, Option<Value>)], req: &FloatRequest) -> (r: Option<Option<Value>>)
    ensures
        match lookup_answer(answers_view(memo@), req@) {
            None => r is None,
            Some(None) => r matches Some(a) && a is None,
            Some(Some(v)) => r matches Some(a) && a matches Some(x) && x@ == v,
        },
{
    let ghost m = answers_view(memo@);
    let mut i: usize = 0;
    assert(m.subrange(0, m.len() as int) == m);
    while i < memo.len()
        invariant
            i <= memo@.len(),
            m == answers_view(memo@),
            lookup_answer(m, req@) == lookup_answer(m.subrange(i as int, m.len() as int), req@),
        decreases memo@.len() - i,
    {
        let ghost rest = m.subrange(i as int, m.len() as int);
        assert(rest[0] == m[i as int]);
        assert(rest.subrange(1, rest.len() as int) == m.subrange(i + 1, m.len() as int));
        if same_request(&memo[i].0, req) {
            return match &memo[i].1 {
                Some(v) => Some(Some(clone_value(v))),
                None => Some(None),
            };
        }
        i = i + 1;
    }
    None
}

} // verus!
