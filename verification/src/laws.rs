//! What holds of the evaluator and the checker on every stream: a term's
//! result does not depend on what follows it, a successful call consumes
//! exactly the tokens of one term, and the universe rules.

use vstd::prelude::*;
use crate::eval::{spec_apply, spec_eval, spec_eval_two, spec_evaluate};
use crate::syntax::{lemma_term_len_bound, spec_parse_var, spec_term_len, Tok};
use crate::typing::{
    spec_check, spec_check_by_inference, spec_check_type, spec_infer, spec_infer_type,
};
use crate::value::{Failure, Neu, Val};

verus! {

/// A name at the head of a stream is read the same way whatever follows.
pub proof fn law_parse_var_suffix(s: Seq<Tok>, t: Seq<Tok>)
    requires
        spec_parse_var(s) is Ok,
    ensures
        spec_parse_var(s + t) == Ok::<_, Failure>(
            (spec_parse_var(s)->Ok_0.0, spec_parse_var(s)->Ok_0.1 + t),
        ),
{
    assert((s + t).skip(1) =~= s.skip(1) + t);
}

/// The extent of a term does not depend on what follows it.
pub proof fn law_term_len_suffix(s: Seq<Tok>, t: Seq<Tok>, depth: nat)
    requires
        spec_term_len(s, depth) is Ok,
    ensures
        spec_term_len(s + t, depth) == spec_term_len(s, depth),
    decreases depth,
{
    let d = (depth - 1) as nat;
    assert((s + t).skip(1) =~= s.skip(1) + t);
    match s[0] {
        Tok::Succ => {
            law_term_len_suffix(s.skip(1), t, d);
        },
        Tok::Lam => {
            law_parse_var_suffix(s.skip(1), t);
            law_term_len_suffix(spec_parse_var(s.skip(1))->Ok_0.1, t, d);
        },
        Tok::App | Tok::Fun | Tok::Pair | Tok::Prod => {
            law_term_len_suffix(s.skip(1), t, d);
            let n = spec_term_len(s.skip(1), d)->Ok_0;
            lemma_term_len_bound(s.skip(1), d);
            assert((s + t).skip(1 + n as int) =~= s.skip(1 + n as int) + t);
            law_term_len_suffix(s.skip(1 + n as int), t, d);
        },
        _ => {},
    }
}

/// Evaluation of a term yields the same value whatever follows the term,
/// and hands what follows back untouched.
pub proof fn law_eval_suffix(s: Seq<Tok>, t: Seq<Tok>, env: Map<Seq<char>, Val>, depth: nat)
    requires
        spec_eval(s, env, depth) is Ok,
    ensures
        spec_eval(s + t, env, depth) == Ok::<_, Failure>(
            (spec_eval(s, env, depth)->Ok_0.0, spec_eval(s, env, depth)->Ok_0.1 + t),
        ),
    decreases depth, 0nat,
{
    let d = (depth - 1) as nat;
    let rest = s.skip(1);
    assert((s + t).skip(1) =~= rest + t);
    match s[0] {
        Tok::Succ => {
            law_eval_suffix(rest, t, env, d);
        },
        Tok::Fun | Tok::Pair | Tok::Prod | Tok::App => {
            law_eval_two_suffix(rest, t, env, d);
        },
        Tok::Lam => {
            law_parse_var_suffix(rest, t);
            let body = spec_parse_var(rest)->Ok_0.1;
            law_term_len_suffix(body, t, d);
            lemma_term_len_bound(body, d);
            let n = spec_term_len(body, d)->Ok_0 as int;
            assert((body + t).take(n) =~= body.take(n));
            assert((body + t).skip(n) =~= body.skip(n) + t);
        },
        _ => {},
    }
}

/// Two terms in a row evaluate the same way whatever follows them.
pub proof fn law_eval_two_suffix(s: Seq<Tok>, t: Seq<Tok>, env: Map<Seq<char>, Val>, depth: nat)
    requires
        spec_eval_two(s, env, depth) is Ok,
    ensures
        spec_eval_two(s + t, env, depth) == Ok::<_, Failure>(
            (
                spec_eval_two(s, env, depth)->Ok_0.0,
                spec_eval_two(s, env, depth)->Ok_0.1,
                spec_eval_two(s, env, depth)->Ok_0.2 + t,
            ),
        ),
    decreases depth, 1nat,
{
    law_eval_suffix(s, t, env, depth);
    law_eval_suffix(spec_eval(s, env, depth)->Ok_0.1, t, env, depth);
}

/// A successful evaluation consumes exactly the tokens of one term.
pub proof fn law_eval_extent(s: Seq<Tok>, env: Map<Seq<char>, Val>, depth: nat)
    requires
        spec_eval(s, env, depth) is Ok,
    ensures
        spec_term_len(s, depth) is Ok,
        spec_term_len(s, depth)->Ok_0 <= s.len(),
        spec_eval(s, env, depth)->Ok_0.1 == s.skip(spec_term_len(s, depth)->Ok_0 as int),
    decreases depth, 0nat,
{
    let d = (depth - 1) as nat;
    let rest = s.skip(1);
    match s[0] {
        Tok::Succ => {
            law_eval_extent(rest, env, d);
            let n = spec_term_len(rest, d)->Ok_0 as int;
            assert(rest.skip(n) =~= s.skip(1 + n));
        },
        Tok::Fun | Tok::Pair | Tok::Prod | Tok::App => {
            law_eval_two_extent(rest, env, d);
            let n = spec_term_len(rest, d)->Ok_0 as int;
            let m = spec_term_len(rest.skip(n), d)->Ok_0 as int;
            assert(rest.skip(n) =~= s.skip(1 + n));
            assert(rest.skip(n + m) =~= s.skip(1 + n + m));
        },
        Tok::Lam => {
            let body = spec_parse_var(rest)->Ok_0.1;
            lemma_term_len_bound(body, d);
            let n = spec_term_len(body, d)->Ok_0 as int;
            assert(body.skip(n) =~= s.skip(2 + n));
        },
        _ => {},
    }
}

/// Two successful evaluations in a row consume exactly two terms.
pub proof fn law_eval_two_extent(s: Seq<Tok>, env: Map<Seq<char>, Val>, depth: nat)
    requires
        spec_eval_two(s, env, depth) is Ok,
    ensures
        spec_term_len(s, depth) matches Ok(n) && n <= s.len() && (spec_term_len(
            s.skip(n as int),
            depth,
        ) matches Ok(m) && n + m <= s.len() && spec_eval_two(s, env, depth)->Ok_0.2 == s.skip(
            (n + m) as int,
        )),
    decreases depth, 1nat,
{
    law_eval_extent(s, env, depth);
    let n = spec_term_len(s, depth)->Ok_0 as int;
    let second = s.skip(n);
    law_eval_extent(second, env, depth);
    let m = spec_term_len(second, depth)->Ok_0 as int;
    assert(second.skip(m) =~= s.skip(n + m));
}

/// Inference and checking agree on a term whatever follows it, and hand
/// what follows back untouched. This is the part for inference.
pub proof fn law_infer_suffix(s: Seq<Tok>, t: Seq<Tok>, ctx: Map<Seq<char>, Val>, depth: nat)
    requires
        spec_infer(s, ctx, depth) is Ok,
    ensures
        spec_infer(s + t, ctx, depth) == Ok::<_, Failure>(
            (spec_infer(s, ctx, depth)->Ok_0.0, spec_infer(s, ctx, depth)->Ok_0.1 + t),
        ),
    decreases depth, 0nat,
{
    let d = (depth - 1) as nat;
    let rest = s.skip(1);
    assert((s + t).skip(1) =~= rest + t);
    match s[0] {
        Tok::App => {
            law_infer_suffix(rest, t, ctx, d);
            match spec_infer(rest, ctx, d) {
                Ok((Val::Fun(a, b), r)) => {
                    law_check_suffix(*a, r, t, ctx, d);
                },
                _ => {},
            }
        },
        _ => {},
    }
}

/// A term checks against a type whatever follows it, and what follows is
/// handed back untouched.
pub proof fn law_check_suffix(
    expected: Val,
    s: Seq<Tok>,
    t: Seq<Tok>,
    ctx: Map<Seq<char>, Val>,
    depth: nat,
)
    requires
        spec_check(expected, s, ctx, depth) is Ok,
    ensures
        spec_check(expected, s + t, ctx, depth) == Ok::<_, Failure>(
            spec_check(expected, s, ctx, depth)->Ok_0 + t,
        ),
    decreases depth, 2nat,
{
    let d = (depth - 1) as nat;
    let rest = s.skip(1);
    assert((s + t).skip(1) =~= rest + t);
    match (expected, s[0]) {
        (Val::Bool, Tok::True) => {},
        (Val::Bool, Tok::False) => {},
        (Val::Nat, Tok::Zero) => {},
        (Val::Nat, Tok::Succ) => {
            law_check_suffix(expected, rest, t, ctx, d);
        },
        (Val::Fun(a, b), Tok::Lam) => {
            law_parse_var_suffix(rest, t);
            let (x, body) = spec_parse_var(rest)->Ok_0;
            law_check_suffix(*b, body, t, ctx.insert(x, *a), d);
        },
        (Val::Prod(a, b), Tok::Pair) => {
            law_check_suffix(*a, rest, t, ctx, d);
            law_check_suffix(*b, spec_check(*a, rest, ctx, d)->Ok_0, t, ctx, d);
        },
        (Val::U(_), Tok::Bool) => {},
        (Val::U(_), Tok::Nat) => {},
        (Val::U(_), Tok::Fun) => {
            law_check_suffix(expected, rest, t, ctx, d);
            law_check_suffix(expected, spec_check(expected, rest, ctx, d)->Ok_0, t, ctx, d);
        },
        (Val::U(_), Tok::Prod) => {
            law_check_suffix(expected, rest, t, ctx, d);
            law_check_suffix(expected, spec_check(expected, rest, ctx, d)->Ok_0, t, ctx, d);
        },
        (Val::U(_), Tok::U(_)) => {},
        _ => {
            law_check_by_inference_suffix(expected, s, t, ctx, depth);
        },
    }
}

/// The fallback of checking does not depend on what follows the term.
pub proof fn law_check_by_inference_suffix(
    expected: Val,
    s: Seq<Tok>,
    t: Seq<Tok>,
    ctx: Map<Seq<char>, Val>,
    depth: nat,
)
    requires
        spec_check_by_inference(expected, s, ctx, depth) is Ok,
    ensures
        spec_check_by_inference(expected, s + t, ctx, depth) == Ok::<_, Failure>(
            spec_check_by_inference(expected, s, ctx, depth)->Ok_0 + t,
        ),
    decreases depth, 1nat,
{
    law_infer_suffix(s, t, ctx, depth);
}

/// A successful inference consumes exactly the tokens of one term.
pub proof fn law_infer_extent(s: Seq<Tok>, ctx: Map<Seq<char>, Val>, depth: nat)
    requires
        spec_infer(s, ctx, depth) is Ok,
    ensures
        spec_term_len(s, depth) is Ok,
        spec_term_len(s, depth)->Ok_0 <= s.len(),
        spec_infer(s, ctx, depth)->Ok_0.1 == s.skip(spec_term_len(s, depth)->Ok_0 as int),
    decreases depth, 0nat,
{
    let d = (depth - 1) as nat;
    let rest = s.skip(1);
    match s[0] {
        Tok::App => {
            law_infer_extent(rest, ctx, d);
            let n = spec_term_len(rest, d)->Ok_0 as int;
            match spec_infer(rest, ctx, d) {
                Ok((Val::Fun(a, b), r)) => {
                    assert(r =~= s.skip(1 + n));
                    law_check_extent(*a, r, ctx, d);
                    let m = spec_term_len(r, d)->Ok_0 as int;
                    assert(r.skip(m) =~= s.skip(1 + n + m));
                },
                _ => {},
            }
        },
        _ => {},
    }
}

/// A successful check consumes exactly the tokens of one term.
pub proof fn law_check_extent(expected: Val, s: Seq<Tok>, ctx: Map<Seq<char>, Val>, depth: nat)
    requires
        spec_check(expected, s, ctx, depth) is Ok,
    ensures
        spec_term_len(s, depth) is Ok,
        spec_term_len(s, depth)->Ok_0 <= s.len(),
        spec_check(expected, s, ctx, depth)->Ok_0 == s.skip(spec_term_len(s, depth)->Ok_0 as int),
    decreases depth, 2nat,
{
    let d = (depth - 1) as nat;
    let rest = s.skip(1);
    match (expected, s[0]) {
        (Val::Bool, Tok::True) => {},
        (Val::Bool, Tok::False) => {},
        (Val::Nat, Tok::Zero) => {},
        (Val::Nat, Tok::Succ) => {
            law_check_extent(expected, rest, ctx, d);
            let n = spec_term_len(rest, d)->Ok_0 as int;
            assert(rest.skip(n) =~= s.skip(1 + n));
        },
        (Val::Fun(a, b), Tok::Lam) => {
            let (x, body) = spec_parse_var(rest)->Ok_0;
            law_check_extent(*b, body, ctx.insert(x, *a), d);
            let n = spec_term_len(body, d)->Ok_0 as int;
            assert(body.skip(n) =~= s.skip(2 + n));
        },
        (Val::Prod(a, b), Tok::Pair) => {
            law_check_extent(*a, rest, ctx, d);
            let n = spec_term_len(rest, d)->Ok_0 as int;
            let second = spec_check(*a, rest, ctx, d)->Ok_0;
            assert(second =~= s.skip(1 + n));
            law_check_extent(*b, second, ctx, d);
            let m = spec_term_len(second, d)->Ok_0 as int;
            assert(second.skip(m) =~= s.skip(1 + n + m));
        },
        (Val::U(_), Tok::Bool) => {},
        (Val::U(_), Tok::Nat) => {},
        (Val::U(_), Tok::Fun) | (Val::U(_), Tok::Prod) => {
            law_check_extent(expected, rest, ctx, d);
            let n = spec_term_len(rest, d)->Ok_0 as int;
            let second = spec_check(expected, rest, ctx, d)->Ok_0;
            assert(second =~= s.skip(1 + n));
            law_check_extent(expected, second, ctx, d);
            let m = spec_term_len(second, d)->Ok_0 as int;
            assert(second.skip(m) =~= s.skip(1 + n + m));
        },
        (Val::U(_), Tok::U(_)) => {},
        _ => {
            law_check_by_inference_extent(expected, s, ctx, depth);
        },
    }
}

/// A successful fallback consumes exactly the tokens of one term.
pub proof fn law_check_by_inference_extent(
    expected: Val,
    s: Seq<Tok>,
    ctx: Map<Seq<char>, Val>,
    depth: nat,
)
    requires
        spec_check_by_inference(expected, s, ctx, depth) is Ok,
    ensures
        spec_term_len(s, depth) is Ok,
        spec_term_len(s, depth)->Ok_0 <= s.len(),
        spec_check_by_inference(expected, s, ctx, depth)->Ok_0 == s.skip(
            spec_term_len(s, depth)->Ok_0 as int,
        ),
    decreases depth, 1nat,
{
    law_infer_extent(s, ctx, depth);
}

/// A stream that is exactly one term, followed by anything: where the term
/// evaluates, the whole stream evaluates to the same value and what follows
/// the term comes back unchanged.
pub proof fn law_eval_round_trip(
    term: Seq<Tok>,
    suffix: Seq<Tok>,
    env: Map<Seq<char>, Val>,
    depth: nat,
)
    requires
        spec_term_len(term, depth) == Ok::<nat, Failure>(term.len()),
        spec_eval(term, env, depth) is Ok,
    ensures
        spec_eval(term + suffix, env, depth) == Ok::<_, Failure>(
            (spec_eval(term, env, depth)->Ok_0.0, suffix),
        ),
{
    law_eval_extent(term, env, depth);
    law_eval_suffix(term, suffix, env, depth);
    assert(term.skip(term.len() as int) + suffix =~= suffix);
}

/// A stream that is exactly one term, followed by anything: where a type is
/// inferred for the term, the same type is inferred on the whole stream and
/// what follows the term comes back unchanged.
pub proof fn law_infer_round_trip(
    term: Seq<Tok>,
    suffix: Seq<Tok>,
    ctx: Map<Seq<char>, Val>,
    depth: nat,
)
    requires
        spec_term_len(term, depth) == Ok::<nat, Failure>(term.len()),
        spec_infer(term, ctx, depth) is Ok,
    ensures
        spec_infer(term + suffix, ctx, depth) == Ok::<_, Failure>(
            (spec_infer(term, ctx, depth)->Ok_0.0, suffix),
        ),
{
    law_infer_extent(term, ctx, depth);
    law_infer_suffix(term, suffix, ctx, depth);
    assert(term.skip(term.len() as int) + suffix =~= suffix);
}

/// A stream that is exactly one term, followed by anything: where the term
/// checks against a type, the whole stream does, and what follows the term
/// comes back unchanged.
pub proof fn law_check_round_trip(
    expected: Val,
    term: Seq<Tok>,
    suffix: Seq<Tok>,
    ctx: Map<Seq<char>, Val>,
    depth: nat,
)
    requires
        spec_term_len(term, depth) == Ok::<nat, Failure>(term.len()),
        spec_check(expected, term, ctx, depth) is Ok,
    ensures
        spec_check(expected, term + suffix, ctx, depth) == Ok::<_, Failure>(suffix),
{
    law_check_extent(expected, term, ctx, depth);
    law_check_suffix(expected, term, suffix, ctx, depth);
    assert(term.skip(term.len() as int) + suffix =~= suffix);
}

/// `Zero` evaluates to the same value under every environment.
pub proof fn law_zero_is_canonical(env: Map<Seq<char>, Val>)
    ensures
        spec_evaluate(seq![Tok::Zero], env) == Ok::<Val, Failure>(Val::Zero),
{
    let s = seq![Tok::Zero];
    assert(s.skip(1).len() == 0);
}

/// The identity function applied to `True` evaluates to `True`, whatever
/// its parameter is called and whatever the environment binds.
pub proof fn law_identity_reduces(x: Seq<char>, env: Map<Seq<char>, Val>)
    ensures
        spec_evaluate(seq![Tok::App, Tok::Lam, Tok::Var(x), Tok::Var(x), Tok::True], env) == Ok::<
            Val,
            Failure,
        >(Val::True),
{
    let s = seq![Tok::App, Tok::Lam, Tok::Var(x), Tok::Var(x), Tok::True];
    let fun = s.skip(1);
    let binder = fun.skip(1);
    let body = binder.skip(1);
    let arg = body.skip(1);
    let code = body.take(1);
    assert(fun[0] == Tok::Lam && binder[0] == Tok::Var(x) && body[0] == Tok::Var(x) && arg[0]
        == Tok::True);
    assert(arg.skip(1).len() == 0);
    assert(spec_term_len(body, 198) == Ok::<nat, Failure>(1));
    assert(spec_eval(fun, env, 199) == Ok::<_, Failure>((Val::Lam(x, code, env), arg)));
    assert(spec_eval(arg, env, 199) == Ok::<_, Failure>((Val::True, arg.skip(1))));
    assert(spec_eval_two(fun, env, 199) == Ok::<_, Failure>(
        (Val::Lam(x, code, env), Val::True, arg.skip(1)),
    ));
    let inner = env.insert(x, Val::True);
    assert(code[0] == Tok::Var(x));
    assert(spec_eval(code, inner, 199) == Ok::<_, Failure>((Val::True, code.skip(1))));
    assert(spec_apply(Val::Lam(x, code, env), Val::True, 199) == Ok::<Val, Failure>(Val::True));
    assert(spec_eval(s, env, 200) == Ok::<_, Failure>((Val::True, arg.skip(1))));
}

/// A free variable applied to `Zero` evaluates to a stuck application, not
/// to an error.
pub proof fn law_stuck_application(f: Seq<char>, env: Map<Seq<char>, Val>)
    requires
        !env.contains_key(f),
    ensures
        spec_evaluate(seq![Tok::App, Tok::Var(f), Tok::Zero], env) == Ok::<Val, Failure>(
            Val::Neutral(Neu::App(Box::new(Neu::Var(f)), Box::new(Val::Zero))),
        ),
{
    let s = seq![Tok::App, Tok::Var(f), Tok::Zero];
    let fun = s.skip(1);
    let arg = fun.skip(1);
    let head = Val::Neutral(Neu::Var(f));
    assert(fun[0] == Tok::Var(f) && arg[0] == Tok::Zero);
    assert(arg.skip(1).len() == 0);
    assert(spec_eval(fun, env, 199) == Ok::<_, Failure>((head, arg)));
    assert(spec_eval(arg, env, 199) == Ok::<_, Failure>((Val::Zero, arg.skip(1))));
    assert(spec_eval_two(fun, env, 199) == Ok::<_, Failure>((head, Val::Zero, arg.skip(1))));
    assert(spec_apply(head, Val::Zero, 199) == Ok::<Val, Failure>(
        Val::Neutral(Neu::App(Box::new(Neu::Var(f)), Box::new(Val::Zero))),
    ));
    assert(spec_eval(s, env, 200) == Ok::<_, Failure>(
        (Val::Neutral(Neu::App(Box::new(Neu::Var(f)), Box::new(Val::Zero))), arg.skip(1)),
    ));
}

/// No type is synthesized for `True`; it checks against `Bool`.
pub proof fn law_true_is_checked_not_inferred(ctx: Map<Seq<char>, Val>)
    ensures
        spec_infer_type(seq![Tok::True], ctx) == Err::<Val, Failure>(Failure::CannotInferType),
        spec_check_type(seq![Tok::True], Val::Bool, ctx) == Ok::<(), Failure>(()),
{
    let s = seq![Tok::True];
    assert(s.skip(1).len() == 0);
}

/// A universe is a code exactly of the universes strictly above it.
pub proof fn law_universes_are_predicative(i: u8, j: u8, ctx: Map<Seq<char>, Val>)
    ensures
        spec_check_type(seq![Tok::U(i)], Val::U(j), ctx) == if i < j {
            Ok::<(), Failure>(())
        } else {
            Err::<(), Failure>(Failure::UniverseLevelError)
        },
{
    let s = seq![Tok::U(i)];
    assert(s.skip(1).len() == 0);
}

/// The product of the two base types is a code in every universe.
pub proof fn law_base_product_in_every_universe(i: u8, ctx: Map<Seq<char>, Val>)
    ensures
        spec_check_type(seq![Tok::Prod, Tok::Bool, Tok::Nat], Val::U(i), ctx) == Ok::<
            (),
            Failure,
        >(()),
{
    let s = seq![Tok::Prod, Tok::Bool, Tok::Nat];
    let u = Val::U(i);
    let s1 = s.skip(1);
    let s2 = s1.skip(1);
    assert(s1[0] == Tok::Bool);
    assert(s2[0] == Tok::Nat);
    assert(s2.skip(1).len() == 0);
    assert(spec_check(u, s2, ctx, 198) == Ok::<Seq<Tok>, Failure>(s2.skip(1)));
    assert(spec_check(u, s1, ctx, 198) == Ok::<Seq<Tok>, Failure>(s2));
    assert(spec_check(u, s1, ctx, 199) == Ok::<Seq<Tok>, Failure>(s2));
    assert(spec_check(u, s2, ctx, 199) == Ok::<Seq<Tok>, Failure>(s2.skip(1)));
    assert(spec_check(u, s, ctx, 200) == Ok::<Seq<Tok>, Failure>(s2.skip(1)));
}

} // verus!
