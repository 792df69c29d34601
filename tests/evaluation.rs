use lisp::{eval, eval_with_depth, hash_string, parse_expr, parse_exprs, Ast, EvalError, Host, Value};
use std::collections::HashMap;

struct TestHost {
    mismatches: Vec<(usize, usize)>,
}

impl TestHost {
    fn new() -> TestHost {
        TestHost { mismatches: Vec::new() }
    }
}

impl Host for TestHost {
    fn call_native(&mut self, key: u64, args: &Vec<Value>) -> Value {
        if key == hash_string("add") {
            let mut out = 0u64;
            for v in args {
                if let Value::Int(i) = v {
                    out += *i;
                }
            }
            Value::Int(out)
        } else if key == hash_string("eq") {
            match args.first() {
                Some(first) => {
                    if args.iter().all(|v| v == first) {
                        Value::Void
                    } else {
                        Value::False
                    }
                }
                None => Value::Void,
            }
        } else {
            Value::Void
        }
    }

    fn arity_mismatch(&mut self, expected: usize, got: usize) {
        self.mismatches.push((expected, got));
    }
}

fn with_natives() -> HashMap<u64, Value> {
    let mut env = HashMap::new();
    for name in ["add", "eq"] {
        env.insert(hash_string(name), Value::InbuiltFunc(hash_string(name)));
    }
    env
}

fn run(src: &str, env: &mut HashMap<u64, Value>, host: &mut TestHost) -> Result<Value, EvalError> {
    let (program, _) = parse_expr(src).unwrap();
    eval(&program, env, host)
}

fn int_of(r: Result<Value, EvalError>) -> u64 {
    match r {
        Ok(Value::Int(i)) => i,
        other => panic!("expected an integer, got {:?}", other),
    }
}

#[test]
fn identity_function_applied_to_seven() {
    let mut env = HashMap::new();
    let mut host = TestHost::new();
    assert_eq!(int_of(run(r"((\(x) x) 7)", &mut env, &mut host)), 7);
}

#[test]
fn define_then_read_in_shared_scope() {
    let mut env = HashMap::new();
    let mut host = TestHost::new();
    assert!(matches!(run("(= x 5)", &mut env, &mut host), Ok(Value::Void)));
    assert_eq!(int_of(run("x", &mut env, &mut host)), 5);
}

#[test]
fn arity_mismatch_binds_the_shorter_side() {
    let (lambda, _) = parse_expr(r"(\(a b) a)").unwrap();
    let call = Ast::Call(Box::new(lambda), vec![Ast::Lit(Value::Int(4))]);
    let mut env = HashMap::new();
    let mut host = TestHost::new();
    assert_eq!(int_of(eval(&call, &mut env, &mut host)), 4);
    assert_eq!(host.mismatches, vec![(2, 1)]);
}

#[test]
fn missing_parameter_stays_unbound() {
    let mut env = HashMap::new();
    let mut host = TestHost::new();
    let r = run(r"((\(a b) b) 4)", &mut env, &mut host);
    assert_eq!(r.unwrap_err(), EvalError::UndefinedVariable(hash_string("b")));
}

#[test]
fn extra_arguments_are_not_evaluated() {
    let mut env = HashMap::new();
    let mut host = TestHost::new();
    assert_eq!(int_of(run(r"((\(a) a) 1 undefined)", &mut env, &mut host)), 1);
    assert_eq!(host.mismatches, vec![(1, 2)]);
}

#[test]
fn body_statements_see_earlier_defines() {
    let mut env = with_natives();
    let mut host = TestHost::new();
    assert_eq!(int_of(run(r"((\(a) (= b a) (add b a)) 3)", &mut env, &mut host)), 6);
}

#[test]
fn free_name_resolves_at_each_call_site() {
    let mut env = HashMap::new();
    let mut host = TestHost::new();
    run(r"(= f (\() y))", &mut env, &mut host).unwrap();
    run("(= y 1)", &mut env, &mut host).unwrap();
    assert_eq!(int_of(run("(f)", &mut env, &mut host)), 1);
    run("(= y 2)", &mut env, &mut host).unwrap();
    assert_eq!(int_of(run("(f)", &mut env, &mut host)), 2);
    assert_eq!(int_of(run(r"((\(y) (f)) 10)", &mut env, &mut host)), 10);
}

#[test]
fn defines_in_a_body_do_not_leak() {
    let mut env = HashMap::new();
    let mut host = TestHost::new();
    assert_eq!(int_of(run(r"((\() (= z 1) z))", &mut env, &mut host)), 1);
    assert!(!env.contains_key(&hash_string("z")));
    assert!(env.is_empty());
}

#[test]
fn define_in_an_argument_reaches_the_caller() {
    let mut env = HashMap::new();
    let mut host = TestHost::new();
    assert!(matches!(run(r"((\(a) a) (= q 3))", &mut env, &mut host), Ok(Value::Void)));
    assert_eq!(int_of(run("q", &mut env, &mut host)), 3);
}

#[test]
fn repeated_parameter_takes_the_later_argument() {
    let mut env = HashMap::new();
    let mut host = TestHost::new();
    assert_eq!(int_of(run(r"((\(a a) a) 1 2)", &mut env, &mut host)), 2);
}

#[test]
fn empty_body_gives_void() {
    let mut env = HashMap::new();
    let mut host = TestHost::new();
    assert!(matches!(run(r"((\()))", &mut env, &mut host), Ok(Value::Void)));
}

#[test]
fn native_gets_every_argument() {
    let mut env = with_natives();
    let mut host = TestHost::new();
    assert_eq!(int_of(run("(add 1 2 3)", &mut env, &mut host)), 6);
    assert!(matches!(run("(eq 3 3)", &mut env, &mut host), Ok(Value::Void)));
    assert!(matches!(run("(eq 3 4)", &mut env, &mut host), Ok(Value::False)));
}

#[test]
fn same_program_same_bindings_same_result() {
    let (program, _) = parse_expr(r"((\(a) (= b a) (add b a b)) 7)").unwrap();
    let mut env1 = with_natives();
    let mut env2 = with_natives();
    let mut host = TestHost::new();
    let r1 = int_of(eval(&program, &mut env1, &mut host));
    let r2 = int_of(eval(&program, &mut env2, &mut host));
    let r3 = int_of(eval(&program, &mut env1, &mut host));
    assert_eq!(r1, 21);
    assert_eq!(r1, r2);
    assert_eq!(r1, r3);
}

#[test]
fn functions_are_never_equal() {
    let mut env = HashMap::new();
    let mut host = TestHost::new();
    let f = run(r"(\(x) x)", &mut env, &mut host).unwrap();
    let g = run(r"(\(x) x)", &mut env, &mut host).unwrap();
    assert!(f != g);
    assert!(f != f.clone());
    assert!(!(f == f));
    assert!(Value::InbuiltFunc(1) != Value::InbuiltFunc(1));
    assert!(Value::Int(3) == Value::Int(3));
    assert!(Value::Int(3) != Value::Int(4));
    assert!(Value::Void == Value::Void);
    assert!(Value::False == Value::False);
    assert!(Value::Void != Value::False);
}

#[test]
fn undefined_variable_is_an_error() {
    let mut env = HashMap::new();
    let mut host = TestHost::new();
    let r = run("nope", &mut env, &mut host);
    assert_eq!(r.unwrap_err(), EvalError::UndefinedVariable(hash_string("nope")));
}

#[test]
fn calling_a_non_function_is_an_error() {
    let mut env = HashMap::new();
    let mut host = TestHost::new();
    assert_eq!(run("(5)", &mut env, &mut host).unwrap_err(), EvalError::NotAFunction);
    assert_eq!(run("(#f 1)", &mut env, &mut host).unwrap_err(), EvalError::NotAFunction);
}

#[test]
fn depth_bound_stops_nested_calls() {
    let (program, _) = parse_expr(r"((\() ((\() 1))))").unwrap();
    let mut env = HashMap::new();
    let mut host = TestHost::new();
    assert_eq!(
        eval_with_depth(&program, &mut env, &mut host, 1).unwrap_err(),
        EvalError::TooDeep
    );
    assert_eq!(int_of(eval_with_depth(&program, &mut env, &mut host, 2)), 1);
}

#[test]
fn program_of_many_top_level_expressions() {
    let src = r"
(= increment (\(a)
  (add a 1)))
(= someval (increment 2))
(= double (\ (someval)
  (add someval someval)))
(= second (\ (a a) a))
(double 5)
(second 1 2)
someval
";
    let (program, end) = parse_exprs(src).unwrap();
    assert_eq!(program.len(), 7);
    assert_eq!(end, src.chars().count());
    let mut env = with_natives();
    let mut host = TestHost::new();
    let mut results = Vec::new();
    for line in &program {
        results.push(eval(line, &mut env, &mut host).unwrap());
    }
    assert!(matches!(results[4], Value::Int(10)));
    assert!(matches!(results[5], Value::Int(2)));
    assert!(matches!(results[6], Value::Int(3)));
}

#[test]
fn define_binds_what_a_native_returned() {
    let mut env = with_natives();
    let mut host = TestHost::new();
    assert!(matches!(run("(= y (add 1 2))", &mut env, &mut host), Ok(Value::Void)));
    assert_eq!(int_of(run("y", &mut env, &mut host)), 3);
    assert_eq!(int_of(run(r"((\(a) (add a y)) 4)", &mut env, &mut host)), 7);
}
