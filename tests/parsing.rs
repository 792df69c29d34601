use lisp::{hash_string, parse_expr, parse_exprs, Ast, ParseError, Value};

#[test]
fn false_literal() {
    let (a, end) = parse_expr("#f").unwrap();
    assert!(matches!(a, Ast::Lit(Value::False)));
    assert_eq!(end, 2);
}

#[test]
fn integer_literal() {
    let (a, end) = parse_expr("  42  ").unwrap();
    assert!(matches!(a, Ast::Lit(Value::Int(42))));
    assert_eq!(end, 6);
}

#[test]
fn largest_integer_fits() {
    let (a, _) = parse_expr("18446744073709551615").unwrap();
    assert!(matches!(a, Ast::Lit(Value::Int(u64::MAX))));
}

#[test]
fn integer_past_u64_is_an_error() {
    assert_eq!(parse_expr(" 18446744073709551616").unwrap_err(), ParseError::IntegerOverflow(1));
    assert_eq!(
        parse_exprs(r"(\() 1 99999999999999999999)").unwrap_err(),
        ParseError::IntegerOverflow(7)
    );
}

#[test]
fn identifier_is_hashed() {
    let (a, end) = parse_expr("foo bar").unwrap();
    match a {
        Ast::Variable(id) => {
            assert_eq!(id, hash_string("foo"));
            assert_ne!(id, hash_string("bar"));
            assert_ne!(id, hash_string("fo"));
        }
        other => panic!("expected a variable, got {:?}", other),
    }
    assert_eq!(end, 4);
}

#[test]
fn function_literal() {
    let (a, end) = parse_expr(r"(\ (a b) a b)").unwrap();
    match a {
        Ast::Lit(Value::Function(params, body)) => {
            assert_eq!(*params, vec![hash_string("a"), hash_string("b")]);
            assert_eq!(body.len(), 2);
            assert!(matches!(body[1], Ast::Variable(id) if id == hash_string("b")));
        }
        other => panic!("expected a function, got {:?}", other),
    }
    assert_eq!(end, 13);
}

#[test]
fn definition() {
    let (a, _) = parse_expr("( = x 5 )").unwrap();
    match a {
        Ast::Define(id, e) => {
            assert_eq!(id, hash_string("x"));
            assert!(matches!(*e, Ast::Lit(Value::Int(5))));
        }
        other => panic!("expected a definition, got {:?}", other),
    }
}

#[test]
fn call_with_arguments() {
    let (a, _) = parse_expr("(f 1 #f g)").unwrap();
    match a {
        Ast::Call(f, args) => {
            assert!(matches!(*f, Ast::Variable(id) if id == hash_string("f")));
            assert_eq!(args.len(), 3);
            assert!(matches!(args[1], Ast::Lit(Value::False)));
        }
        other => panic!("expected a call, got {:?}", other),
    }
}

#[test]
fn nested_calls() {
    let (a, _) = parse_expr("(((test)))").unwrap();
    match a {
        Ast::Call(f, args) => {
            assert!(args.is_empty());
            assert!(matches!(*f, Ast::Call(_, _)));
        }
        other => panic!("expected a call, got {:?}", other),
    }
}

#[test]
fn unicode_whitespace_is_skipped() {
    let (a, end) = parse_expr("\u{3000}\t7\u{a0}").unwrap();
    assert!(matches!(a, Ast::Lit(Value::Int(7))));
    assert_eq!(end, 4);
}

#[test]
fn nothing_to_parse() {
    assert_eq!(parse_expr("").unwrap_err(), ParseError::NoExpression(0));
    assert_eq!(parse_expr("  )").unwrap_err(), ParseError::NoExpression(2));
    assert_eq!(parse_exprs(" ").unwrap_err(), ParseError::NoExpression(1));
}

#[test]
fn unmatched_parenthesis() {
    assert_eq!(parse_expr("(foo").unwrap_err(), ParseError::NoExpression(0));
    assert_eq!(parse_expr("(= x)").unwrap_err(), ParseError::NoExpression(0));
}

#[test]
fn many_expressions_stop_at_what_does_not_parse() {
    let (v, end) = parse_exprs("(= x 5) x )").unwrap();
    assert_eq!(v.len(), 2);
    assert_eq!(end, 10);
}
