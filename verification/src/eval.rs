//! Normalization by evaluation: from a token stream and an environment to a
//! value and the unconsumed rest of the stream.

use vstd::prelude::*;
use crate::syntax::{
    copy_prefix, is_rest_of, lemma_rest_of_rest, parse_var, spec_parse_var, spec_term_len, tail,
    term_len, view_tokens, Tok, Token,
};
use crate::value::{Env, Error, Failure, Neu, Neutral, Val, Value};

verus! {

broadcast use lemma_rest_of_rest;

/// How deep a term may nest, and how many nested calls one evaluation or
/// check may make, before it is given up as too deeply nested.
pub const RECURSION_LIMIT: usize = 200;

/// What a name stands for: its binding, or itself as a stuck variable.
pub open spec fn spec_lookup(env: Map<Seq<char>, Val>, x: Seq<char>) -> Val {
    if env.contains_key(x) {
        env[x]
    } else {
        Val::Neutral(Neu::Var(x))
    }
}

/// The value of the first term of `s` under `env`, and the stream behind
/// that term. `depth` bounds the nesting of calls.
pub open spec fn spec_eval(s: Seq<Tok>, env: Map<Seq<char>, Val>, depth: nat) -> Result<
    (Val, Seq<Tok>),
    Failure,
>
    decreases depth, 0nat,
{
    if depth == 0 {
        Err(Failure::TooDeeplyNested)
    } else if s.len() == 0 {
        Err(Failure::UnexpectedEndOfInput)
    } else {
        let rest = s.skip(1);
        let d = (depth - 1) as nat;
        match s[0] {
            Tok::Bool => Ok((Val::Bool, rest)),
            Tok::False => Ok((Val::False, rest)),
            Tok::Nat => Ok((Val::Nat, rest)),
            Tok::True => Ok((Val::True, rest)),
            Tok::Zero => Ok((Val::Zero, rest)),
            Tok::U(i) => Ok((Val::U(i), rest)),
            Tok::Var(x) => Ok((spec_lookup(env, x), rest)),
            Tok::Succ => match spec_eval(rest, env, d) {
                Ok((v, r)) => Ok((Val::Succ(Box::new(v)), r)),
                Err(e) => Err(e),
            },
            Tok::Fun => match spec_eval_two(rest, env, d) {
                Ok((a, b, r)) => Ok((Val::Fun(Box::new(a), Box::new(b)), r)),
                Err(e) => Err(e),
            },
            Tok::Pair => match spec_eval_two(rest, env, d) {
                Ok((a, b, r)) => Ok((Val::Pair(Box::new(a), Box::new(b)), r)),
                Err(e) => Err(e),
            },
            Tok::Prod => match spec_eval_two(rest, env, d) {
                Ok((a, b, r)) => Ok((Val::Prod(Box::new(a), Box::new(b)), r)),
                Err(e) => Err(e),
            },
            Tok::Lam => match spec_parse_var(rest) {
                Ok((x, body)) => match spec_term_len(body, d) {
                    Ok(n) => Ok((Val::Lam(x, body.take(n as int), env), body.skip(n as int))),
                    Err(e) => Err(e),
                },
                Err(e) => Err(e),
            },
            Tok::App => match spec_eval_two(rest, env, d) {
                Ok((f, a, r)) => match spec_apply(f, a, d) {
                    Ok(v) => Ok((v, r)),
                    Err(e) => Err(e),
                },
                Err(e) => Err(e),
            },
        }
    }
}

/// Two terms in a row, left to right: the rest of the first feeds the second.
pub open spec fn spec_eval_two(s: Seq<Tok>, env: Map<Seq<char>, Val>, depth: nat) -> Result<
    (Val, Val, Seq<Tok>),
    Failure,
>
    decreases depth, 1nat,
{
    match spec_eval(s, env, depth) {
        Ok((a, r)) => match spec_eval(r, env, depth) {
            Ok((b, rest)) => Ok((a, b, rest)),
            Err(e) => Err(e),
        },
        Err(e) => Err(e),
    }
}

/// Application of values. A closure runs its body under its own bindings
/// extended by the argument; a stuck function stays stuck; anything else is
/// no function.
pub open spec fn spec_apply(f: Val, a: Val, depth: nat) -> Result<Val, Failure>
    decreases depth, 1nat,
{
    match f {
        Val::Lam(x, body, env) => match spec_eval(body, env.insert(x, a), depth) {
            Ok((v, _)) => Ok(v),
            Err(e) => Err(e),
        },
        Val::Neutral(n) => Ok(Val::Neutral(Neu::App(Box::new(n), Box::new(a)))),
        _ => Err(Failure::IllegalApplication),
    }
}

/// The value of a stream that holds exactly one term.
pub open spec fn spec_evaluate(s: Seq<Tok>, env: Map<Seq<char>, Val>) -> Result<Val, Failure> {
    match spec_eval(s, env, RECURSION_LIMIT as nat) {
        Ok((v, rest)) => if rest.len() == 0 {
            Ok(v)
        } else {
            Err(Failure::MalformedTerm)
        },
        Err(e) => Err(e),
    }
}

/// The view of what `eval` returns.
pub open spec fn eval_outcome(r: Result<(Value, &[Token]), Error>) -> Result<
    (Val, Seq<Tok>),
    Failure,
> {
    match r {
        Ok((v, rest)) => Ok((v@, view_tokens(rest@))),
        Err(e) => Err(e@),
    }
}

/// The view of what `eval_two` returns.
pub open spec fn eval_two_outcome(r: Result<(Value, Value, &[Token]), Error>) -> Result<
    (Val, Val, Seq<Tok>),
    Failure,
> {
    match r {
        Ok((a, b, rest)) => Ok((a@, b@, view_tokens(rest@))),
        Err(e) => Err(e@),
    }
}

/// The view of a value or an error.
pub open spec fn value_outcome(r: Result<Value, Error>) -> Result<Val, Failure> {
    match r {
        Ok(v) => Ok(v@),
        Err(e) => Err(e@),
    }
}

/// Evaluates the first term of `input` under `env` and returns its value
/// with the rest of the stream.
pub fn eval<'a>(input: &'a [Token], env: &Env, depth: usize) -> (r: Result<
    (Value, &'a [Token]),
    Error,
>)
    ensures
        eval_outcome(r) == spec_eval(view_tokens(input@), env@, depth as nat),
        r matches Ok((_, rest)) ==> is_rest_of(rest@, input@),
    decreases depth, 0nat,
{
    if depth == 0 {
        return Err(Error::TooDeeplyNested);
    }
    if input.len() == 0 {
        return Err(Error::UnexpectedEndOfInput);
    }
    let rest = tail(input, 1);
    let d = depth - 1;
    match &input[0] {
        Token::Bool => Ok((Value::Bool, rest)),
        Token::False => Ok((Value::False, rest)),
        Token::Nat => Ok((Value::Nat, rest)),
        Token::True => Ok((Value::True, rest)),
        Token::Zero => Ok((Value::Zero, rest)),
        Token::U(i) => Ok((Value::U(*i), rest)),
        Token::Var(x) => match env.lookup(x) {
            Some(v) => Ok((v, rest)),
            None => {
                let free = Neutral::Var(x.clone());
                assert(free@ == Neu::Var(x@));
                Ok((Value::Neutral(free), rest))
            },
        },
        Token::Succ => match eval(rest, env, d) {
            Ok((v, r)) => Ok((Value::Succ(Box::new(v)), r)),
            Err(e) => Err(e),
        },
        Token::Fun => match eval_two(rest, env, d) {
            Ok((a, b, r)) => Ok((Value::Fun(Box::new(a), Box::new(b)), r)),
            Err(e) => Err(e),
        },
        Token::Pair => match eval_two(rest, env, d) {
            Ok((a, b, r)) => Ok((Value::Pair(Box::new(a), Box::new(b)), r)),
            Err(e) => Err(e),
        },
        Token::Prod => match eval_two(rest, env, d) {
            Ok((a, b, r)) => Ok((Value::Prod(Box::new(a), Box::new(b)), r)),
            Err(e) => Err(e),
        },
        Token::Lam => match parse_var(rest) {
            Ok((x, body)) => match term_len(body, d) {
                Ok(n) => {
                    let code = copy_prefix(body, n);
                    let r = tail(body, n);
                    Ok((Value::Lam(x.clone(), code, env.clone()), r))
                },
                Err(e) => Err(e),
            },
            Err(e) => Err(e),
        },
        Token::App => match eval_two(rest, env, d) {
            Ok((f, a, r)) => match apply(f, a, d) {
                Ok(v) => Ok((v, r)),
                Err(e) => Err(e),
            },
            Err(e) => Err(e),
        },
    }
}

/// Evaluates two terms in a row.
pub fn eval_two<'a>(input: &'a [Token], env: &Env, depth: usize) -> (r: Result<
    (Value, Value, &'a [Token]),
    Error,
>)
    ensures
        eval_two_outcome(r) == spec_eval_two(view_tokens(input@), env@, depth as nat),
        r matches Ok((_, _, rest)) ==> is_rest_of(rest@, input@),
    decreases depth, 1nat,
{
    match eval(input, env, depth) {
        Ok((a, r)) => match eval(r, env, depth) {
            Ok((b, rest)) => Ok((a, b, rest)),
            Err(e) => Err(e),
        },
        Err(e) => Err(e),
    }
}

/// Applies the value `f` to the value `a`.
pub fn apply(f: Value, a: Value, depth: usize) -> (r: Result<Value, Error>)
    ensures
        value_outcome(r) == spec_apply(f@, a@, depth as nat),
    decreases depth, 1nat,
{
    match f {
        Value::Lam(x, body, env) => {
            let extended = env.bind(&x, &a);
            match eval(body.as_slice(), &extended, depth) {
                Ok((v, _)) => Ok(v),
                Err(e) => Err(e),
            }
        },
        Value::Neutral(n) => {
            let stuck = Neutral::App(Box::new(n), Box::new(a));
            assert(stuck@ == Neu::App(Box::new(n@), Box::new(a@)));
            Ok(Value::Neutral(stuck))
        },
        _ => Err(Error::IllegalApplication),
    }
}

/// Evaluates a stream that must hold exactly one term.
pub fn evaluate(input: &[Token], env: &Env) -> (r: Result<Value, Error>)
    ensures
        value_outcome(r) == spec_evaluate(view_tokens(input@), env@),
{
    match eval(input, env, RECURSION_LIMIT) {
        Ok((v, rest)) => if rest.len() == 0 {
            Ok(v)
        } else {
            Err(Error::MalformedTerm)
        },
        Err(e) => Err(e),
    }
}

} // verus!
