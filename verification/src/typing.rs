//! The bidirectional checker: `infer` synthesizes the type of an elimination
//! form, `check` holds an introduction form against an expected type and
//! falls back on inference and conversion.

use vstd::prelude::*;
use crate::eval::{value_outcome, RECURSION_LIMIT};
use crate::syntax::{
    is_rest_of, lemma_rest_of_rest, parse_var, spec_parse_var, tail, view_tokens, Tok, Token,
};
use crate::value::{clone_value, conv, Env, Error, Failure, Type, Val, Value};

verus! {

broadcast use lemma_rest_of_rest;

/// The type expression at the head of `s`, built from the two base types,
/// function types and product types, and the stream behind it.
pub open spec fn spec_parse_type(s: Seq<Tok>, depth: nat) -> Result<(Val, Seq<Tok>), Failure>
    decreases depth,
{
    if depth == 0 {
        Err(Failure::TooDeeplyNested)
    } else if s.len() == 0 {
        Err(Failure::UnexpectedEndOfInput)
    } else {
        let d = (depth - 1) as nat;
        match s[0] {
            Tok::Bool => Ok((Val::Bool, s.skip(1))),
            Tok::Nat => Ok((Val::Nat, s.skip(1))),
            Tok::Fun => match spec_parse_type(s.skip(1), d) {
                Ok((a, r)) => match spec_parse_type(r, d) {
                    Ok((b, rest)) => Ok((Val::Fun(Box::new(a), Box::new(b)), rest)),
                    Err(e) => Err(e),
                },
                Err(e) => Err(e),
            },
            Tok::Prod => match spec_parse_type(s.skip(1), d) {
                Ok((a, r)) => match spec_parse_type(r, d) {
                    Ok((b, rest)) => Ok((Val::Prod(Box::new(a), Box::new(b)), rest)),
                    Err(e) => Err(e),
                },
                Err(e) => Err(e),
            },
            _ => Err(Failure::MalformedTerm),
        }
    }
}

/// The type synthesized for the first term of `s` under the typing context
/// `ctx`, and the stream behind that term.
pub open spec fn spec_infer(s: Seq<Tok>, ctx: Map<Seq<char>, Val>, depth: nat) -> Result<
    (Val, Seq<Tok>),
    Failure,
>
    decreases depth, 0nat,
{
    if depth == 0 {
        Err(Failure::TooDeeplyNested)
    } else if s.len() == 0 {
        Err(Failure::UnexpectedEndOfInput)
    } else {
        let d = (depth - 1) as nat;
        match s[0] {
            Tok::App => match spec_infer(s.skip(1), ctx, d) {
                Ok((Val::Fun(a, b), r)) => match spec_check(*a, r, ctx, d) {
                    Ok(rest) => Ok((*b, rest)),
                    Err(e) => Err(e),
                },
                Ok(_) => Err(Failure::IllegalApplication),
                Err(e) => Err(e),
            },
            Tok::Var(x) => if ctx.contains_key(x) {
                Ok((ctx[x], s.skip(1)))
            } else {
                Err(Failure::UnboundVariable(x))
            },
            _ => Err(Failure::CannotInferType),
        }
    }
}

/// Whether the first term of `s` has the type `expected` under `ctx`: the
/// stream behind the term, or the failure.
pub open spec fn spec_check(expected: Val, s: Seq<Tok>, ctx: Map<Seq<char>, Val>, depth: nat)
    -> Result<Seq<Tok>, Failure>
    decreases depth, 2nat,
{
    if depth == 0 {
        Err(Failure::TooDeeplyNested)
    } else if s.len() == 0 {
        Err(Failure::UnexpectedEndOfInput)
    } else {
        let rest = s.skip(1);
        let d = (depth - 1) as nat;
        match (expected, s[0]) {
            (Val::Bool, Tok::True) => Ok(rest),
            (Val::Bool, Tok::False) => Ok(rest),
            (Val::Nat, Tok::Zero) => Ok(rest),
            (Val::Nat, Tok::Succ) => spec_check(expected, rest, ctx, d),
            (Val::Fun(a, b), Tok::Lam) => match spec_parse_var(rest) {
                Ok((x, body)) => spec_check(*b, body, ctx.insert(x, *a), d),
                Err(e) => Err(e),
            },
            (Val::Prod(a, b), Tok::Pair) => match spec_check(*a, rest, ctx, d) {
                Ok(r) => spec_check(*b, r, ctx, d),
                Err(e) => Err(e),
            },
            (Val::U(_), Tok::Bool) => Ok(rest),
            (Val::U(_), Tok::Nat) => Ok(rest),
            (Val::U(_), Tok::Fun) => match spec_check(expected, rest, ctx, d) {
                Ok(r) => spec_check(expected, r, ctx, d),
                Err(e) => Err(e),
            },
            (Val::U(_), Tok::Prod) => match spec_check(expected, rest, ctx, d) {
                Ok(r) => spec_check(expected, r, ctx, d),
                Err(e) => Err(e),
            },
            (Val::U(j), Tok::U(i)) => if i < j {
                Ok(rest)
            } else {
                Err(Failure::UniverseLevelError)
            },
            _ => spec_check_by_inference(expected, s, ctx, depth),
        }
    }
}

/// The fallback of `spec_check`: synthesize the term's type and compare it
/// with the expected one.
pub open spec fn spec_check_by_inference(
    expected: Val,
    s: Seq<Tok>,
    ctx: Map<Seq<char>, Val>,
    depth: nat,
) -> Result<Seq<Tok>, Failure>
    decreases depth, 1nat,
{
    match spec_infer(s, ctx, depth) {
        Ok((found, rest)) => if found == expected {
            Ok(rest)
        } else {
            Err(Failure::TypeMismatch(expected, found))
        },
        Err(e) => Err(e),
    }
}

/// The type of a stream that holds exactly one term.
pub open spec fn spec_infer_type(s: Seq<Tok>, ctx: Map<Seq<char>, Val>) -> Result<Val, Failure> {
    match spec_infer(s, ctx, RECURSION_LIMIT as nat) {
        Ok((t, rest)) => if rest.len() == 0 {
            Ok(t)
        } else {
            Err(Failure::MalformedTerm)
        },
        Err(e) => Err(e),
    }
}

/// Whether a stream that holds exactly one term has the expected type.
pub open spec fn spec_check_type(s: Seq<Tok>, expected: Val, ctx: Map<Seq<char>, Val>) -> Result<
    (),
    Failure,
> {
    match spec_check(expected, s, ctx, RECURSION_LIMIT as nat) {
        Ok(rest) => if rest.len() == 0 {
            Ok(())
        } else {
            Err(Failure::MalformedTerm)
        },
        Err(e) => Err(e),
    }
}

/// The view of a type with the rest of a stream, or of an error.
pub open spec fn typed_outcome(r: Result<(Type, &[Token]), Error>) -> Result<
    (Val, Seq<Tok>),
    Failure,
> {
    match r {
        Ok((t, rest)) => Ok((t@, view_tokens(rest@))),
        Err(e) => Err(e@),
    }
}

/// The view of the rest of a stream, or of an error.
pub open spec fn rest_outcome(r: Result<&[Token], Error>) -> Result<Seq<Tok>, Failure> {
    match r {
        Ok(rest) => Ok(view_tokens(rest@)),
        Err(e) => Err(e@),
    }
}

/// The view of a verdict.
pub open spec fn unit_outcome(r: Result<(), Error>) -> Result<(), Failure> {
    match r {
        Ok(_) => Ok(()),
        Err(e) => Err(e@),
    }
}

/// Reads a type expression made of `Bool`, `Nat`, `Fun` and `Prod`.
pub fn parse_type<'a>(input: &'a [Token], depth: usize) -> (r: Result<(Type, &'a [Token]), Error>)
    ensures
        typed_outcome(r) == spec_parse_type(view_tokens(input@), depth as nat),
        r matches Ok((_, rest)) ==> is_rest_of(rest@, input@),
    decreases depth,
{
    if depth == 0 {
        return Err(Error::TooDeeplyNested);
    }
    if input.len() == 0 {
        return Err(Error::UnexpectedEndOfInput);
    }
    let rest = tail(input, 1);
    let d = depth - 1;
    match &input[0] {
        Token::Bool => Ok((Value::Bool, rest)),
        Token::Nat => Ok((Value::Nat, rest)),
        Token::Fun => match parse_type(rest, d) {
            Ok((a, r)) => match parse_type(r, d) {
                Ok((b, after)) => Ok((Value::Fun(Box::new(a), Box::new(b)), after)),
                Err(e) => Err(e),
            },
            Err(e) => Err(e),
        },
        Token::Prod => match parse_type(rest, d) {
            Ok((a, r)) => match parse_type(r, d) {
                Ok((b, after)) => Ok((Value::Prod(Box::new(a), Box::new(b)), after)),
                Err(e) => Err(e),
            },
            Err(e) => Err(e),
        },
        _ => Err(Error::MalformedTerm),
    }
}

/// Synthesizes the type of the first term of `input`.
pub fn infer<'a>(input: &'a [Token], ctx: &Env, depth: usize) -> (r: Result<
    (Type, &'a [Token]),
    Error,
>)
    ensures
        typed_outcome(r) == spec_infer(view_tokens(input@), ctx@, depth as nat),
        r matches Ok((_, rest)) ==> is_rest_of(rest@, input@),
    decreases depth, 0nat,
{
    if depth == 0 {
        return Err(Error::TooDeeplyNested);
    }
    if input.len() == 0 {
        return Err(Error::UnexpectedEndOfInput);
    }
    let rest = tail(input, 1);
    let d = depth - 1;
    match &input[0] {
        Token::App => match infer(rest, ctx, d) {
            Ok((Value::Fun(a, b), r)) => match check(&*a, r, ctx, d) {
                Ok(after) => Ok((*b, after)),
                Err(e) => Err(e),
            },
            Ok(_) => Err(Error::IllegalApplication),
            Err(e) => Err(e),
        },
        Token::Var(x) => match ctx.lookup(x) {
            Some(t) => Ok((t, rest)),
            None => Err(Error::UnboundVariable(x.clone())),
        },
        _ => Err(Error::CannotInferType),
    }
}

/// Checks the first term of `input` against `expected` and returns the rest
/// of the stream.
pub fn check<'a>(expected: &Type, input: &'a [Token], ctx: &Env, depth: usize) -> (r: Result<
    &'a [Token],
    Error,
>)
    ensures
        rest_outcome(r) == spec_check(expected@, view_tokens(input@), ctx@, depth as nat),
        r matches Ok(rest) ==> is_rest_of(rest@, input@),
    decreases depth, 2nat,
{
    if depth == 0 {
        return Err(Error::TooDeeplyNested);
    }
    if input.len() == 0 {
        return Err(Error::UnexpectedEndOfInput);
    }
    let rest = tail(input, 1);
    let d = depth - 1;
    match (expected, &input[0]) {
        (Value::Bool, Token::True) => Ok(rest),
        (Value::Bool, Token::False) => Ok(rest),
        (Value::Nat, Token::Zero) => Ok(rest),
        (Value::Nat, Token::Succ) => check(expected, rest, ctx, d),
        (Value::Fun(a, b), Token::Lam) => match parse_var(rest) {
            Ok((x, body)) => {
                let inner = ctx.bind(x, &**a);
                check(&**b, body, &inner, d)
            },
            Err(e) => Err(e),
        },
        (Value::Prod(a, b), Token::Pair) => match check(&**a, rest, ctx, d) {
            Ok(r) => check(&**b, r, ctx, d),
            Err(e) => Err(e),
        },
        (Value::U(_), Token::Bool) => Ok(rest),
        (Value::U(_), Token::Nat) => Ok(rest),
        (Value::U(_), Token::Fun) => match check(expected, rest, ctx, d) {
            Ok(r) => check(expected, r, ctx, d),
            Err(e) => Err(e),
        },
        (Value::U(_), Token::Prod) => match check(expected, rest, ctx, d) {
            Ok(r) => check(expected, r, ctx, d),
            Err(e) => Err(e),
        },
        (Value::U(j), Token::U(i)) => if *i < *j {
            Ok(rest)
        } else {
            Err(Error::UniverseLevelError)
        },
        _ => check_by_inference(expected, input, ctx, depth),
    }
}

/// Synthesizes the type of the first term of `input` and compares it with
/// `expected` by conversion.
pub fn check_by_inference<'a>(expected: &Type, input: &'a [Token], ctx: &Env, depth: usize) -> (r:
    Result<&'a [Token], Error>)
    ensures
        rest_outcome(r) == spec_check_by_inference(
            expected@,
            view_tokens(input@),
            ctx@,
            depth as nat,
        ),
        r matches Ok(rest) ==> is_rest_of(rest@, input@),
    decreases depth, 1nat,
{
    match infer(input, ctx, depth) {
        Ok((found, rest)) => if conv(&found, expected) {
            Ok(rest)
        } else {
            Err(Error::TypeMismatch(clone_value(expected), found))
        },
        Err(e) => Err(e),
    }
}

/// Synthesizes the type of a stream that must hold exactly one term.
pub fn infer_type(input: &[Token], ctx: &Env) -> (r: Result<Type, Error>)
    ensures
        value_outcome(r) == spec_infer_type(view_tokens(input@), ctx@),
{
    match infer(input, ctx, RECURSION_LIMIT) {
        Ok((t, rest)) => if rest.len() == 0 {
            Ok(t)
        } else {
            Err(Error::MalformedTerm)
        },
        Err(e) => Err(e),
    }
}

/// Checks a stream that must hold exactly one term against `expected`.
pub fn check_type(input: &[Token], expected: &Type, ctx: &Env) -> (r: Result<(), Error>)
    ensures
        unit_outcome(r) == spec_check_type(view_tokens(input@), expected@, ctx@),
{
    match check(expected, input, ctx, RECURSION_LIMIT) {
        Ok(rest) => if rest.len() == 0 {
            Ok(())
        } else {
            Err(Error::MalformedTerm)
        },
        Err(e) => Err(e),
    }
}

} // verus!
