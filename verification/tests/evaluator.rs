use nbe_core::eval::{apply, eval, evaluate, RECURSION_LIMIT};
use nbe_core::syntax::{copy_prefix, parse_var, term_len, token_eq, tokens_eq, Token};
use nbe_core::value::{clone_value, conv, Env, Error, Neutral, Value};

fn var(name: &str) -> Token {
    Token::Var(name.to_string())
}

fn stuck(name: &str) -> Value {
    Value::Neutral(Neutral::Var(name.to_string()))
}

#[test]
fn zero_evaluates_to_zero() {
    let env = Env::new();
    assert_eq!(evaluate(&[Token::Zero], &env), Ok(Value::Zero));
    assert_eq!(evaluate(&[Token::Zero], &env), Ok(Value::Zero));
}

#[test]
fn two_evaluates_to_equal_values() {
    let env = Env::new();
    let term = [Token::Succ, Token::Succ, Token::Zero];
    let first = evaluate(&term, &env).unwrap();
    let second = evaluate(&term, &env).unwrap();
    assert_eq!(first, Value::Succ(Box::new(Value::Succ(Box::new(Value::Zero)))));
    assert_eq!(first, second);
    assert!(conv(&first, &second));
}

#[test]
fn constants_evaluate_to_themselves() {
    let env = Env::new();
    assert_eq!(evaluate(&[Token::Bool], &env), Ok(Value::Bool));
    assert_eq!(evaluate(&[Token::Nat], &env), Ok(Value::Nat));
    assert_eq!(evaluate(&[Token::True], &env), Ok(Value::True));
    assert_eq!(evaluate(&[Token::False], &env), Ok(Value::False));
    assert_eq!(evaluate(&[Token::U(7)], &env), Ok(Value::U(7)));
}

#[test]
fn binary_forms_evaluate_left_to_right() {
    let env = Env::new();
    let pair = [Token::Pair, Token::Succ, Token::Zero, Token::True];
    assert_eq!(
        evaluate(&pair, &env),
        Ok(Value::Pair(
            Box::new(Value::Succ(Box::new(Value::Zero))),
            Box::new(Value::True)
        ))
    );
    let fun = [Token::Fun, Token::Bool, Token::Prod, Token::Nat, Token::U(1)];
    assert_eq!(
        evaluate(&fun, &env),
        Ok(Value::Fun(
            Box::new(Value::Bool),
            Box::new(Value::Prod(Box::new(Value::Nat), Box::new(Value::U(1))))
        ))
    );
}

#[test]
fn identity_applied_to_true_is_true() {
    let env = Env::new();
    let term = [Token::App, Token::Lam, var("x"), var("x"), Token::True];
    assert_eq!(evaluate(&term, &env), Ok(Value::True));
}

#[test]
fn stuck_application_stays_neutral() {
    let env = Env::new();
    let term = [Token::App, var("f"), Token::Zero];
    assert_eq!(
        evaluate(&term, &env),
        Ok(Value::Neutral(Neutral::App(
            Box::new(Neutral::Var("f".to_string())),
            Box::new(Value::Zero)
        )))
    );
}

#[test]
fn eval_returns_the_untouched_suffix() {
    let env = Env::new();
    let stream = [Token::Succ, Token::Zero, Token::True, var("y")];
    let (v, rest) = eval(&stream, &env, 10).unwrap();
    assert_eq!(v, Value::Succ(Box::new(Value::Zero)));
    assert_eq!(rest, &[Token::True, var("y")][..]);
    let app = [Token::App, Token::Lam, var("x"), var("x"), Token::True, Token::Nat];
    let (v, rest) = eval(&app, &env, 10).unwrap();
    assert_eq!(v, Value::True);
    assert_eq!(rest, &[Token::Nat][..]);
}

#[test]
fn bound_variable_is_looked_up() {
    let env = Env::new().bind(&"x".to_string(), &Value::True);
    assert_eq!(evaluate(&[var("x")], &env), Ok(Value::True));
    assert_eq!(evaluate(&[var("y")], &env), Ok(stuck("y")));
}

#[test]
fn binding_leaves_the_base_environment_alone() {
    let base = Env::new().bind(&"x".to_string(), &Value::Zero);
    let left = base.bind(&"x".to_string(), &Value::True);
    let right = base.bind(&"y".to_string(), &Value::False);
    assert_eq!(base.lookup(&"x".to_string()), Some(Value::Zero));
    assert_eq!(base.lookup(&"y".to_string()), None);
    assert_eq!(left.lookup(&"x".to_string()), Some(Value::True));
    assert_eq!(left.lookup(&"y".to_string()), None);
    assert_eq!(right.lookup(&"x".to_string()), Some(Value::Zero));
    assert_eq!(right.lookup(&"y".to_string()), Some(Value::False));
    assert_eq!(Env::new().lookup(&"x".to_string()), None);
}

#[test]
fn lambda_becomes_a_closure_over_its_environment() {
    let env = Env::new().bind(&"z".to_string(), &Value::Zero);
    let stream = [Token::Lam, var("x"), Token::Pair, var("x"), var("z"), Token::Nat];
    let (v, rest) = eval(&stream, &env, 10).unwrap();
    assert_eq!(
        v,
        Value::Lam(
            "x".to_string(),
            vec![Token::Pair, var("x"), var("z")],
            env.clone()
        )
    );
    assert_eq!(rest, &[Token::Nat][..]);
    assert_eq!(
        apply(v, Value::True, 10),
        Ok(Value::Pair(Box::new(Value::True), Box::new(Value::Zero)))
    );
}

#[test]
fn closure_keeps_its_captured_binding() {
    let env = Env::new();
    // ((\x. \y. x) true) false
    let term = [
        Token::App,
        Token::App,
        Token::Lam,
        var("x"),
        Token::Lam,
        var("y"),
        var("x"),
        Token::True,
        Token::False,
    ];
    assert_eq!(evaluate(&term, &env), Ok(Value::True));
    // (\x. (\x. x) zero) true
    let shadow = [
        Token::App,
        Token::Lam,
        var("x"),
        Token::App,
        Token::Lam,
        var("x"),
        var("x"),
        Token::Zero,
        Token::True,
    ];
    assert_eq!(evaluate(&shadow, &env), Ok(Value::Zero));
}

#[test]
fn applying_a_non_function_is_illegal() {
    let env = Env::new();
    assert_eq!(
        evaluate(&[Token::App, Token::True, Token::Zero], &env),
        Err(Error::IllegalApplication)
    );
    assert_eq!(apply(Value::Zero, Value::Zero, 5), Err(Error::IllegalApplication));
    assert_eq!(
        apply(stuck("f"), Value::Zero, 0),
        Ok(Value::Neutral(Neutral::App(
            Box::new(Neutral::Var("f".to_string())),
            Box::new(Value::Zero)
        )))
    );
}

#[test]
fn truncated_streams_are_rejected() {
    let env = Env::new();
    assert_eq!(evaluate(&[], &env), Err(Error::UnexpectedEndOfInput));
    assert_eq!(evaluate(&[Token::Succ], &env), Err(Error::UnexpectedEndOfInput));
    assert_eq!(
        evaluate(&[Token::Pair, Token::Zero], &env),
        Err(Error::UnexpectedEndOfInput)
    );
    assert_eq!(evaluate(&[Token::Lam], &env), Err(Error::UnexpectedEndOfInput));
    assert_eq!(
        evaluate(&[Token::Lam, var("x")], &env),
        Err(Error::UnexpectedEndOfInput)
    );
}

#[test]
fn malformed_streams_are_rejected() {
    let env = Env::new();
    assert_eq!(
        evaluate(&[Token::Zero, Token::Zero], &env),
        Err(Error::MalformedTerm)
    );
    assert_eq!(
        evaluate(&[Token::Lam, Token::Zero, Token::Zero], &env),
        Err(Error::MalformedTerm)
    );
}

#[test]
fn deep_nesting_is_reported() {
    let env = Env::new();
    assert_eq!(eval(&[Token::Zero], &env, 0), Err(Error::TooDeeplyNested));
    assert_eq!(
        eval(&[Token::Succ, Token::Zero], &env, 1),
        Err(Error::TooDeeplyNested)
    );
    assert!(eval(&[Token::Succ, Token::Zero], &env, 2).is_ok());
    let mut deep: Vec<Token> = Vec::new();
    for _ in 0..RECURSION_LIMIT {
        deep.push(Token::Succ);
    }
    deep.push(Token::Zero);
    assert_eq!(evaluate(&deep, &env), Err(Error::TooDeeplyNested));
    let shallow = &deep[1..];
    assert!(evaluate(shallow, &env).is_ok());
    // a term that reproduces itself is cut off as well
    let omega = [
        Token::App,
        Token::Lam,
        var("x"),
        Token::App,
        var("x"),
        var("x"),
        Token::Lam,
        var("x"),
        Token::App,
        var("x"),
        var("x"),
    ];
    assert_eq!(evaluate(&omega, &env), Err(Error::TooDeeplyNested));
}

#[test]
fn term_len_counts_the_tokens_of_one_term() {
    assert_eq!(term_len(&[Token::Zero, Token::Zero], 5), Ok(1));
    assert_eq!(term_len(&[Token::Succ, Token::Succ, Token::Zero], 5), Ok(3));
    assert_eq!(
        term_len(&[Token::Lam, var("x"), Token::Pair, var("x"), Token::U(0), Token::Nat], 5),
        Ok(5)
    );
    assert_eq!(
        term_len(&[Token::App, Token::Fun, Token::Bool, Token::Nat, Token::True], 5),
        Ok(5)
    );
    assert_eq!(term_len(&[], 5), Err(Error::UnexpectedEndOfInput));
    assert_eq!(term_len(&[Token::Prod, Token::Nat], 5), Err(Error::UnexpectedEndOfInput));
    assert_eq!(term_len(&[Token::Lam, Token::Nat, Token::Nat], 5), Err(Error::MalformedTerm));
    assert_eq!(term_len(&[Token::Succ, Token::Zero], 1), Err(Error::TooDeeplyNested));
}

#[test]
fn parse_var_reads_one_name() {
    let stream = [var("x"), Token::Zero];
    let (x, rest) = parse_var(&stream).unwrap();
    assert_eq!(x, "x");
    assert_eq!(rest, &[Token::Zero][..]);
    assert_eq!(parse_var(&[]), Err(Error::UnexpectedEndOfInput));
    assert_eq!(parse_var(&[Token::Zero]), Err(Error::MalformedTerm));
}

#[test]
fn token_helpers_compare_and_copy() {
    assert!(token_eq(&var("x"), &var("x")));
    assert!(!token_eq(&var("x"), &var("y")));
    assert!(!token_eq(&Token::U(1), &Token::U(2)));
    assert!(token_eq(&Token::U(2), &Token::U(2)));
    assert!(!token_eq(&Token::True, &Token::False));
    let a = [Token::Pair, var("x"), Token::Zero];
    assert!(tokens_eq(&a, &[Token::Pair, var("x"), Token::Zero]));
    assert!(!tokens_eq(&a, &[Token::Pair, var("x")]));
    assert!(!tokens_eq(&a, &[Token::Pair, var("y"), Token::Zero]));
    assert_eq!(copy_prefix(&a, 2), vec![Token::Pair, var("x")]);
    assert_eq!(copy_prefix(&a, 0), Vec::<Token>::new());
}

#[test]
fn conversion_is_structural() {
    let f = Value::Fun(Box::new(Value::Bool), Box::new(Value::Nat));
    let g = Value::Fun(Box::new(Value::Bool), Box::new(Value::Nat));
    let h = Value::Fun(Box::new(Value::Nat), Box::new(Value::Nat));
    assert!(conv(&f, &g));
    assert!(!conv(&f, &h));
    assert!(!conv(&Value::U(0), &Value::U(1)));
    assert!(conv(&stuck("x"), &stuck("x")));
    assert!(!conv(&stuck("x"), &stuck("y")));
    let spine = |head: &str, arg: Value| {
        Value::Neutral(Neutral::App(
            Box::new(Neutral::Var(head.to_string())),
            Box::new(arg),
        ))
    };
    assert!(conv(&spine("f", Value::Zero), &spine("f", Value::Zero)));
    assert!(!conv(&spine("f", Value::Zero), &spine("f", Value::True)));
    assert!(!conv(&spine("f", Value::Zero), &spine("g", Value::Zero)));
    let env = Env::new();
    let other = env.bind(&"z".to_string(), &Value::Zero);
    let lam = |e: &Env| Value::Lam("x".to_string(), vec![var("x")], e.clone());
    assert!(conv(&lam(&env), &lam(&env)));
    assert!(!conv(&lam(&env), &lam(&other)));
    assert!(!conv(
        &lam(&env),
        &Value::Lam("y".to_string(), vec![var("x")], env.clone())
    ));
}

#[test]
fn clone_value_copies_deeply() {
    let env = Env::new().bind(&"z".to_string(), &Value::U(2));
    let v = Value::Pair(
        Box::new(Value::Lam("x".to_string(), vec![var("x"), Token::Zero], env)),
        Box::new(Value::Neutral(Neutral::App(
            Box::new(Neutral::Var("f".to_string())),
            Box::new(Value::Succ(Box::new(Value::Zero))),
        ))),
    );
    let copy = clone_value(&v);
    assert_eq!(copy, v);
    assert_ne!(clone_value(&Value::True), Value::False);
}

#[test]
fn evaluation_consumes_what_term_len_measures() {
    let env = Env::new();
    let stream = [
        Token::Pair,
        Token::Lam,
        var("x"),
        Token::Succ,
        var("x"),
        Token::App,
        var("f"),
        Token::U(1),
        Token::False,
        Token::Zero,
    ];
    let n = term_len(&stream, 10).unwrap();
    assert_eq!(n, 8);
    let (_, rest) = eval(&stream, &env, 10).unwrap();
    assert_eq!(rest, &stream[n..]);
    let alone = evaluate(&stream[..n], &env).unwrap();
    let (followed, _) = eval(&stream, &env, RECURSION_LIMIT).unwrap();
    assert_eq!(alone, followed);
}
