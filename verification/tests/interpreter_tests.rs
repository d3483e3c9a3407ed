use crease::ast::BinaryOperators;
use crease::error::RuntimeErrorKind;
use crease::interpreter::{output_line, Flow, Interpreter};
use crease::parser::parse_source;
use crease::value::{FloatRequest, Value};

const EPSILON: f64 = 1e-10;

fn float(b: u64) -> f64 {
    f64::from_bits(b)
}

fn fl(x: f64) -> Value {
    Value::Float(x.to_bits())
}

/// Does the floating-point work that the library asks for.
fn answer(req: &FloatRequest) -> Option<Value> {
    match req {
        FloatRequest::Literal(t) => t.parse::<f64>().ok().map(fl),
        FloatRequest::FromInt(n) => Some(fl(*n as f64)),
        FloatRequest::Parse(t) => t.parse::<f64>().ok().map(fl),
        FloatRequest::Neg(b) => Some(fl(-float(*b))),
        FloatRequest::ToInt(b) => Some(Value::Int(float(*b) as i64)),
        FloatRequest::ToText(b) => Some(Value::String(float(*b).to_string())),
        FloatRequest::DebugText(b) => Some(Value::String(format!("{:?}", float(*b)))),
        FloatRequest::Binary(op, a, b) => {
            let (l, r) = (float(*a), float(*b));
            match op {
                BinaryOperators::Add => Some(fl(l + r)),
                BinaryOperators::Sub => Some(fl(l - r)),
                BinaryOperators::Mul => Some(fl(l * r)),
                BinaryOperators::Div => {
                    if r.abs() <= EPSILON {
                        None
                    } else {
                        Some(fl(l / r))
                    }
                }
                BinaryOperators::Mod => {
                    if r.abs() <= EPSILON {
                        None
                    } else {
                        Some(fl(l % r))
                    }
                }
                BinaryOperators::LThan => Some(Value::Boolean(l < r)),
                BinaryOperators::GThan => Some(Value::Boolean(l > r)),
                BinaryOperators::LThanEquals => Some(Value::Boolean(l <= r)),
                BinaryOperators::GThanEquals => Some(Value::Boolean(l >= r)),
                BinaryOperators::Equals => Some(Value::Boolean((l - r).abs() < EPSILON)),
                BinaryOperators::NotEquals => Some(Value::Boolean((l - r).abs() > EPSILON)),
                _ => None,
            }
        }
    }
}

/// The text that `out` writes for a value, without its line break.
fn show(v: &Value, answers: &mut Vec<(FloatRequest, Option<Value>)>) -> String {
    loop {
        match output_line(answers, v) {
            Ok(line) => {
                assert!(line.ends_with('\n'));
                return line[..line.len() - 1].to_string();
            }
            Err(req) => {
                let a = answer(&req);
                answers.push((req, a));
            }
        }
    }
}

struct Outcome {
    printed: Vec<String>,
    error: Option<(RuntimeErrorKind, String)>,
    runs: usize,
}

/// Runs a program as a host does: from the start again after each answer.
fn run(src: &str, lines: &[&str]) -> Outcome {
    let program = parse_source(src).expect("parses");
    let mut inputs: Vec<String> = Vec::new();
    let mut answers: Vec<(FloatRequest, Option<Value>)> = Vec::new();
    let mut fuel: u64 = 4;
    let mut printed: Vec<String> = Vec::new();
    let mut runs = 0;
    loop {
        runs += 1;
        let mut interp = Interpreter::new();
        let flow = interp.interpret(&program, &inputs, &answers, fuel);
        let out = interp.output();
        for v in &out[printed.len()..] {
            printed.push(show(v, &mut answers));
        }
        match flow {
            Flow::Normal => return Outcome { printed, error: None, runs },
            Flow::Failed(e) => return Outcome { printed, error: Some((e.kind, e.msg)), runs },
            Flow::NeedsFloat(req) => {
                let a = answer(&req);
                answers.push((req, a));
            }
            Flow::NeedsInput => inputs.push(lines[inputs.len()].to_string()),
            Flow::OutOfFuel => fuel *= 2,
        }
    }
}

fn printed(src: &str) -> Vec<String> {
    let o = run(src, &[]);
    assert!(o.error.is_none(), "error: {:?}", o.error);
    o.printed
}

fn error(src: &str) -> (RuntimeErrorKind, String) {
    run(src, &[]).error.expect("an error")
}

#[test]
fn readme_example_branches_on_input() {
    let src = "\nin x\n\nif x == \"abc\":\n    out 0\nelse:\n    out 1\nendif\n";
    assert_eq!(run(src, &["abc\n"]).printed, vec!["0"]);
    assert_eq!(run(src, &["  other  \n"]).printed, vec!["1"]);
}

#[test]
fn integer_arithmetic() {
    assert_eq!(printed("out 1 + 2 * 3\nout (1 + 2) * 3\nout 7 / 2\nout -7 / 2\nout 7 % 3\nout -7 % 3"), vec!["7", "9", "3", "-3", "1", "-1"]);
}

#[test]
fn integer_arithmetic_wraps() {
    assert_eq!(printed("out 9223372036854775807 + 1"), vec!["-9223372036854775808"]);
    assert_eq!(printed("set m = -9223372036854775807 - 1\nout m / -1\nout m % -1"), vec!["-9223372036854775808", "0"]);
}

#[test]
fn comparisons_and_logic() {
    assert_eq!(printed("out 1 < 2\nout 2 <= 1\nout 3 == 3 && 1 != 2\nout false || true\nout !true"), vec!["true", "false", "true", "true", "false"]);
}

#[test]
fn short_circuit_skips_the_right_operand() {
    assert_eq!(printed("out false && undefined_name\nout true || 1 / 0"), vec!["false", "true"]);
}

#[test]
fn strings() {
    assert_eq!(printed("set s = \"ab\" + \"cd\"\nout s\nout s == \"abcd\"\nout s != \"abcd\""), vec!["abcd", "true", "false"]);
}

#[test]
fn casts() {
    assert_eq!(printed("out int \"-42\" + 1\nout str 12 + \"!\"\nout bool \"true\"\nout str false"), vec!["-41", "12!", "true", "false"]);
}

#[test]
fn int_text_roundtrip_scenario() {
    assert_eq!(printed("out int str -9223372036854775807\nout bool str true"), vec!["-9223372036854775807", "true"]);
}

#[test]
fn failed_casts() {
    assert_eq!(error("out int \"12a\""), (RuntimeErrorKind::TypeMismatch, "failed to cast `12a` to int".to_string()));
    assert_eq!(error("out bool \"yes\""), (RuntimeErrorKind::TypeMismatch, "failed to cast `yes` to boolean".to_string()));
    assert_eq!(error("out float \"pi\""), (RuntimeErrorKind::TypeMismatch, "failed to cast `pi` to float".to_string()));
    assert_eq!(error("out int true"), (RuntimeErrorKind::TypeMismatch, "cannot cast type `Boolean(true)` to int".to_string()));
    assert_eq!(error("out str [1]"), (RuntimeErrorKind::TypeMismatch, "cannot cast type `Array([Int(1)])` to string".to_string()));
}

#[test]
fn floats_are_computed_by_the_host() {
    assert_eq!(printed("out 1.5 + 2.25\nout 3.0 * 2.0\nout 1.0 / 4.0\nout -2.5\nout float 3\nout int 3.9\nout str 2.5"), vec!["3.75", "6", "0.25", "-2.5", "3", "3", "2.5"]);
    assert_eq!(printed("out 0.1 + 0.2 == 0.3\nout 1.5 < 2.5"), vec!["true", "true"]);
}

#[test]
fn float_division_by_zero() {
    assert_eq!(error("out 1.0 / 0.0"), (RuntimeErrorKind::DivisionByZero, "division by zero".to_string()));
}

#[test]
fn integer_division_by_zero() {
    assert_eq!(error("out 1 / 0"), (RuntimeErrorKind::DivisionByZero, "division by zero".to_string()));
    assert_eq!(error("out 1 % 0"), (RuntimeErrorKind::DivisionByZero, "division by zero".to_string()));
}

#[test]
fn variables_declare_assign_delete() {
    assert_eq!(printed("set x = 1\nx = x + 1\nout x\nset x = \"s\"\nout x"), vec!["2", "s"]);
    assert_eq!(error("set x = 1\ndel x\nout x"), (RuntimeErrorKind::UndefinedVariable, "undefined variable `x`".to_string()));
    assert_eq!(error("y = 1"), (RuntimeErrorKind::UndefinedVariable, "undeclared variable assignment `y`".to_string()));
}

#[test]
fn delete_keeps_other_variables() {
    assert_eq!(printed("set x = 1\nset y = 2\ndel x\nout y\ndel nothing"), vec!["2"]);
}

#[test]
fn arrays() {
    assert_eq!(printed("set a = [1, \"two\", true, 1.5]\nout a\nout a[1]\na[0] = 10\nout a[0]\nout []"), vec!["[Int(1), String(\"two\"), Boolean(true), Float(1.5)]", "two", "10", "[]"]);
}

#[test]
fn array_index_errors() {
    assert_eq!(error("set a = [1]\nout a[1]"), (RuntimeErrorKind::InvalidIndex, "array index out of bounds".to_string()));
    assert_eq!(error("set a = [1]\nout a[-1]"), (RuntimeErrorKind::InvalidIndex, "array index cannot be negative".to_string()));
    assert_eq!(error("set a = [1]\na[true] = 1"), (RuntimeErrorKind::InvalidIndex, "array index must be an integer".to_string()));
    assert_eq!(error("set a = [1]\na[5] = 1"), (RuntimeErrorKind::InvalidIndex, "array index out of bounds".to_string()));
    assert_eq!(error("set a = 2.5\na[0] = 1"), (RuntimeErrorKind::TypeMismatch, "cannot index value of type `Float(2.5)`".to_string()));
    assert_eq!(error("set s = \"x\"\nout s[0]"), (RuntimeErrorKind::TypeMismatch, "cannot index value of type `String(\"x\")`".to_string()));
}

#[test]
fn index_assignment_to_unknown_name_does_nothing() {
    assert_eq!(printed("nothing[0] = 1\nout 1"), vec!["1"]);
}

#[test]
fn type_errors() {
    assert_eq!(error("out 1 + \"a\""), (RuntimeErrorKind::TypeMismatch, "incompatible operands `Int(1)` and `String(\"a\")`".to_string()));
    assert_eq!(error("out true + false"), (RuntimeErrorKind::TypeMismatch, "invalid operator `Add` for booleans".to_string()));
    assert_eq!(error("out \"a\" < \"b\""), (RuntimeErrorKind::TypeMismatch, "invalid operator `LThan` for strings".to_string()));
    assert_eq!(error("out 1 && true"), (RuntimeErrorKind::TypeMismatch, "invalid operator `And` for booleans".to_string()));
    assert_eq!(error("out false || 1"), (RuntimeErrorKind::TypeMismatch, "incompatible operands `Boolean(false)` and `Int(1)`".to_string()));
    assert_eq!(error("out !1"), (RuntimeErrorKind::TypeMismatch, "expected `boolean` for unary `!`, found Int(1)".to_string()));
    assert_eq!(error("out -\"a\""), (RuntimeErrorKind::TypeMismatch, "expected either `int` or `float` for unary `-`".to_string()));
    assert_eq!(error("out +true"), (RuntimeErrorKind::TypeMismatch, "expected either `int` or `float` for unary `+`".to_string()));
    assert_eq!(error("out 1.5 + 1"), (RuntimeErrorKind::TypeMismatch, "incompatible operands `Float(1.5)` and `Int(1)`".to_string()));
}

#[test]
fn conditions_must_be_booleans() {
    assert_eq!(error("if 1:\nendif"), (RuntimeErrorKind::TypeMismatch, "expected boolean in `if` condition".to_string()));
    assert_eq!(error("while \"x\":\nendwhile"), (RuntimeErrorKind::TypeMismatch, "expected boolean in `while` condition".to_string()));
}

#[test]
fn while_loop_counts() {
    let src = "set i = 0\nset total = 0\nwhile i < 100:\n    total = total + i\n    i = i + 1\nendwhile\nout total";
    assert_eq!(printed(src), vec!["4950"]);
}

#[test]
fn nested_if_in_loop() {
    let src = "set i = 0\nwhile i < 5:\n    if i % 2 == 0:\n        out i\n    endif\n    i = i + 1\nendwhile";
    assert_eq!(printed(src), vec!["0", "2", "4"]);
}

#[test]
fn output_before_an_error_is_kept() {
    let o = run("out 1\nout 2\nout nope\nout 3", &[]);
    assert_eq!(o.printed, vec!["1", "2"]);
    assert_eq!(o.error, Some((RuntimeErrorKind::UndefinedVariable, "undefined variable `nope`".to_string())));
}

#[test]
fn input_lines_are_read_in_order() {
    let o = run("in a\nin b\nout b + a", &["x\n", "y\n"]);
    assert_eq!(o.printed, vec!["yx"]);
    assert_eq!(o.runs, 3);
}

#[test]
fn a_suspended_run_reports_what_it_needs() {
    let program = parse_source("out 1\nin x\nout x").unwrap();
    let mut interp = Interpreter::new();
    let flow = interp.interpret(&program, &[], &[], 10);
    assert!(matches!(flow, Flow::NeedsInput));
    assert_eq!(interp.output().len(), 1);
    let mut interp = Interpreter::new();
    let flow = interp.interpret(&parse_source("out 2.0").unwrap(), &[], &[], 10);
    assert!(matches!(flow, Flow::NeedsFloat(FloatRequest::Literal(ref t)) if t == "2.0"));
    let mut interp = Interpreter::new();
    let flow = interp.interpret(&parse_source("while true:\nendwhile").unwrap(), &[], &[], 10);
    assert!(matches!(flow, Flow::OutOfFuel));
}

#[test]
fn more_fuel_gives_the_same_finished_run() {
    let program = parse_source("set i = 0\nwhile i < 3:\n out i\n i = i + 1\nendwhile").unwrap();
    let mut a = Interpreter::new();
    assert!(matches!(a.interpret(&program, &[], &[], 4), Flow::Normal));
    let mut b = Interpreter::new();
    assert!(matches!(b.interpret(&program, &[], &[], 1000), Flow::Normal));
    assert_eq!(a.output().len(), 3);
    assert_eq!(b.output().len(), 3);
    let mut c = Interpreter::new();
    assert!(matches!(c.interpret(&program, &[], &[], 2), Flow::OutOfFuel));
    assert_eq!(c.output().len(), 2);
}

#[test]
fn declared_value_can_be_read_back() {
    let program = parse_source("set x = 6 * 7").unwrap();
    let mut interp = Interpreter::new();
    assert!(matches!(interp.interpret(&program, &[], &[], 1), Flow::Normal));
    assert!(matches!(interp.lookup(&"x".to_string()), Some(Value::Int(42))));
    assert!(interp.lookup(&"y".to_string()).is_none());
}

#[test]
fn input_lines_are_trimmed() {
    let o = run("in a\nout a + \"|\"", &["  padded value \t\r\n"]);
    assert_eq!(o.printed, vec!["padded value|"]);
    let o = run("in a\nout a == \"42\"", &["42\n"]);
    assert_eq!(o.printed, vec!["true"]);
}

#[test]
fn output_lines_of_each_kind() {
    let mut answers: Vec<(FloatRequest, Option<Value>)> = Vec::new();
    assert_eq!(output_line(&answers, &Value::Int(-42)).unwrap(), "-42\n");
    assert_eq!(output_line(&answers, &Value::Boolean(false)).unwrap(), "false\n");
    assert_eq!(output_line(&answers, &Value::String("a \"b\"".to_string())).unwrap(), "a \"b\"\n");
    let arr = Value::Array(vec![Value::Int(1), Value::String("x".to_string())]);
    assert_eq!(output_line(&answers, &arr).unwrap(), "[Int(1), String(\"x\")]\n");
    assert_eq!(output_line(&answers, &Value::Array(vec![])).unwrap(), "[]\n");
    let f = fl(2.5);
    let req = match output_line(&answers, &f) {
        Err(q) => q,
        Ok(_) => panic!("a float needs the host"),
    };
    assert!(matches!(req, FloatRequest::ToText(b) if b == 2.5f64.to_bits()));
    answers.push((req, Some(Value::String("2.5".to_string()))));
    assert_eq!(output_line(&answers, &f).unwrap(), "2.5\n");
    let fa = Value::Array(vec![fl(1.0)]);
    let req = output_line(&answers, &fa).unwrap_err();
    assert!(matches!(req, FloatRequest::DebugText(_)));
    answers.push((req, Some(Value::String("1.0".to_string()))));
    assert_eq!(output_line(&answers, &fa).unwrap(), "[Float(1.0)]\n");
}

#[test]
fn if_and_while_laws_on_values() {
    assert_eq!(run("set x = 0\nif x == 0:\nx = 1\nelse:\nx = 2\nendif\nout x", &[]).printed, vec!["1"]);
    assert_eq!(run("set x = 5\nif x == 0:\nx = 1\nelse:\nx = 2\nendif\nout x", &[]).printed, vec!["2"]);
    let o = run("set i = 0\nwhile i < 3:\ni = i + 1\nendwhile\nout i < 3", &[]);
    assert_eq!(o.printed, vec!["false"]);
    assert!(o.error.is_none());
}

#[test]
fn declare_then_assign_seen_through_lookup() {
    let program = parse_source("set x = 1\nx = x + 1").unwrap();
    let mut interp = Interpreter::new();
    let flow = interp.interpret(&program, &[], &[], 10);
    assert!(matches!(flow, Flow::Normal));
    assert!(matches!(interp.lookup(&"x".to_string()), Some(Value::Int(2))));
    assert!(interp.lookup(&"y".to_string()).is_none());
}

#[test]
fn statement_runs_an_if_on_its_own() {
    let program = parse_source("set x = 3\nif x > 2:\nx = 10\nelse:\nx = 20\nendif\nif 1:\nx = 0\nendif").unwrap();
    let mut interp = Interpreter::new();
    assert!(matches!(interp.statement(&program[0], &[], &[], 10), Flow::Normal));
    assert!(matches!(interp.statement(&program[1], &[], &[], 10), Flow::Normal));
    assert!(matches!(interp.lookup(&"x".to_string()), Some(Value::Int(10))));
    match interp.statement(&program[2], &[], &[], 10) {
        Flow::Failed(e) => {
            assert!(matches!(e.kind, RuntimeErrorKind::TypeMismatch));
            assert_eq!(e.msg, "expected boolean in `if` condition");
        }
        _ => panic!("a non-boolean condition is an error"),
    }
    assert!(matches!(interp.lookup(&"x".to_string()), Some(Value::Int(10))));
}
