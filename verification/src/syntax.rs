//! The token stream: tokens, their mathematical view, and the syntactic
//! extent of one term at the head of a stream.

use vstd::prelude::*;
use vstd::slice::slice_subrange;
use crate::value::{Error, Failure};

verus! {

/// Index of a universe in the hierarchy.
pub type Level = u8;

/// One marker of the prefix encoding. Every marker has a fixed arity, so a
/// stream needs no delimiters.
#[derive(Clone, Debug, PartialEq, Eq)]
pub enum Token {
    App,
    Bool,
    False,
    Fun,
    Lam,
    Nat,
    Pair,
    Prod,
    Succ,
    True,
    U(Level),
    Var(String),
    Zero,
}

/// The mathematical view of a token: names are character sequences.
pub enum Tok {
    App,
    Bool,
    False,
    Fun,
    Lam,
    Nat,
    Pair,
    Prod,
    Succ,
    True,
    U(Level),
    Var(Seq<char>),
    Zero,
}

impl View for Token {
    type V = Tok;

    open spec fn view(&self) -> Tok {
        match self {
            Token::App => Tok::App,
            Token::Bool => Tok::Bool,
            Token::False => Tok::False,
            Token::Fun => Tok::Fun,
            Token::Lam => Tok::Lam,
            Token::Nat => Tok::Nat,
            Token::Pair => Tok::Pair,
            Token::Prod => Tok::Prod,
            Token::Succ => Tok::Succ,
            Token::True => Tok::True,
            Token::U(i) => Tok::U(*i),
            Token::Var(x) => Tok::Var(x@),
            Token::Zero => Tok::Zero,
        }
    }
}

/// The view of a stream, token by token.
pub open spec fn view_tokens(s: Seq<Token>) -> Seq<Tok> {
    Seq::new(s.len(), |i: int| s[i]@)
}

/// Viewing commutes with taking a part of the stream.
pub proof fn lemma_view_subrange(s: Seq<Token>, from: int, to: int)
    requires
        0 <= from <= to <= s.len(),
    ensures
        view_tokens(s.subrange(from, to)) == view_tokens(s).subrange(from, to),
{
    assert(view_tokens(s.subrange(from, to)) =~= view_tokens(s).subrange(from, to));
}

/// A name followed by the rest of the stream, or why the stream does not
/// start with a name.
pub open spec fn spec_parse_var(s: Seq<Tok>) -> Result<(Seq<char>, Seq<Tok>), Failure> {
    if s.len() == 0 {
        Err(Failure::UnexpectedEndOfInput)
    } else {
        match s[0] {
            Tok::Var(x) => Ok((x, s.skip(1))),
            _ => Err(Failure::MalformedTerm),
        }
    }
}

/// The number of tokens that the first term of `s` occupies, where the term
/// nests less than `depth` deep.
pub open spec fn spec_term_len(s: Seq<Tok>, depth: nat) -> Result<nat, Failure>
    decreases depth,
{
    if depth == 0 {
        Err(Failure::TooDeeplyNested)
    } else if s.len() == 0 {
        Err(Failure::UnexpectedEndOfInput)
    } else {
        match s[0] {
            Tok::Succ => match spec_term_len(s.skip(1), (depth - 1) as nat) {
                Ok(n) => Ok(1 + n),
                Err(e) => Err(e),
            },
            Tok::Lam => match spec_parse_var(s.skip(1)) {
                Ok((_, body)) => match spec_term_len(body, (depth - 1) as nat) {
                    Ok(n) => Ok(2 + n),
                    Err(e) => Err(e),
                },
                Err(e) => Err(e),
            },
            Tok::App | Tok::Fun | Tok::Pair | Tok::Prod => match spec_term_len(
                s.skip(1),
                (depth - 1) as nat,
            ) {
                Ok(n) => match spec_term_len(s.skip(1 + n as int), (depth - 1) as nat) {
                    Ok(m) => Ok(1 + n + m),
                    Err(e) => Err(e),
                },
                Err(e) => Err(e),
            },
            _ => Ok(1),
        }
    }
}

/// A term never extends past the end of its stream.
pub proof fn lemma_term_len_bound(s: Seq<Tok>, depth: nat)
    ensures
        spec_term_len(s, depth) matches Ok(n) ==> 1 <= n <= s.len(),
    decreases depth,
{
    if depth > 0 && s.len() > 0 {
        let d = (depth - 1) as nat;
        match s[0] {
            Tok::Succ => {
                lemma_term_len_bound(s.skip(1), d);
            },
            Tok::Lam => {
                if let Ok((_, body)) = spec_parse_var(s.skip(1)) {
                    lemma_term_len_bound(body, d);
                }
            },
            Tok::App | Tok::Fun | Tok::Pair | Tok::Prod => {
                lemma_term_len_bound(s.skip(1), d);
                if let Ok(n) = spec_term_len(s.skip(1), d) {
                    lemma_term_len_bound(s.skip(1 + n as int), d);
                }
            },
            _ => {},
        }
    }
}

/// Whether `rest` is `input` without some of its first tokens.
pub open spec fn is_rest_of(rest: Seq<Token>, input: Seq<Token>) -> bool {
    rest.len() <= input.len() && rest == input.skip(input.len() - rest.len())
}

/// What is left of what is left of a stream is left of that stream.
pub broadcast proof fn lemma_rest_of_rest(c: Seq<Token>, b: Seq<Token>, a: Seq<Token>)
    requires
        #[trigger] is_rest_of(c, b),
        #[trigger] is_rest_of(b, a),
    ensures
        is_rest_of(c, a),
{
    assert(c =~= a.skip(a.len() - c.len()));
}

/// The stream without its first `n` tokens.
pub fn tail<'a>(input: &'a [Token], n: usize) -> (rest: &'a [Token])
    requires
        n <= input@.len(),
    ensures
        rest@ == input@.skip(n as int),
        is_rest_of(rest@, input@),
        view_tokens(rest@) == view_tokens(input@).skip(n as int),
{
    let rest = slice_subrange(input, n, input.len());
    proof {
        lemma_view_subrange(input@, n as int, input@.len() as int);
    }
    rest
}

/// Reads the name that a binder introduces.
pub fn parse_var<'a>(input: &'a [Token]) -> (r: Result<(&'a String, &'a [Token]), Error>)
    ensures
        match r {
            Ok((x, rest)) => spec_parse_var(view_tokens(input@)) == Ok::<_, Failure>(
                (x@, view_tokens(rest@)),
            ) && rest@ == input@.skip(1) && is_rest_of(rest@, input@),
            Err(e) => spec_parse_var(view_tokens(input@)) == Err::<(Seq<char>, Seq<Tok>), _>(e@),
        },
{
    if input.len() == 0 {
        return Err(Error::UnexpectedEndOfInput);
    }
    match &input[0] {
        Token::Var(x) => Ok((x, tail(input, 1))),
        _ => Err(Error::MalformedTerm),
    }
}

/// Measures the first term of `input` without evaluating it.
pub fn term_len(input: &[Token], depth: usize) -> (r: Result<usize, Error>)
    ensures
        match r {
            Ok(n) => spec_term_len(view_tokens(input@), depth as nat) == Ok::<nat, Failure>(
                n as nat,
            ) && 1 <= n <= input@.len(),
            Err(e) => spec_term_len(view_tokens(input@), depth as nat) == Err::<nat, _>(e@),
        },
    decreases depth,
{
    if depth == 0 {
        return Err(Error::TooDeeplyNested);
    }
    if input.len() == 0 {
        return Err(Error::UnexpectedEndOfInput);
    }
    let rest = tail(input, 1);
    match &input[0] {
        Token::Succ => match term_len(rest, depth - 1) {
            Ok(n) => Ok(1 + n),
            Err(e) => Err(e),
        },
        Token::Lam => match parse_var(rest) {
            Ok((_, body)) => match term_len(body, depth - 1) {
                Ok(n) => Ok(2 + n),
                Err(e) => Err(e),
            },
            Err(e) => Err(e),
        },
        Token::App | Token::Fun | Token::Pair | Token::Prod => match term_len(rest, depth - 1) {
            Ok(n) => {
                let second = tail(rest, n);
                assert(view_tokens(second@) == view_tokens(input@).skip(1 + n)) by {
                    assert(view_tokens(input@).skip(1).skip(n as int) =~= view_tokens(
                        input@,
                    ).skip(1 + n));
                }
                match term_len(second, depth - 1) {
                    Ok(m) => Ok(1 + n + m),
                    Err(e) => Err(e),
                }
            },
            Err(e) => Err(e),
        },
        _ => Ok(1),
    }
}

/// Copies one token.
pub fn clone_token(t: &Token) -> (r: Token)
    ensures
        r == *t,
{
    match t {
        Token::App => Token::App,
        Token::Bool => Token::Bool,
        Token::False => Token::False,
        Token::Fun => Token::Fun,
        Token::Lam => Token::Lam,
        Token::Nat => Token::Nat,
        Token::Pair => Token::Pair,
        Token::Prod => Token::Prod,
        Token::Succ => Token::Succ,
        Token::True => Token::True,
        Token::U(i) => Token::U(*i),
        Token::Var(x) => Token::Var(x.clone()),
        Token::Zero => Token::Zero,
    }
}

/// Copies the first `n` tokens of a stream.
pub fn copy_prefix(input: &[Token], n: usize) -> (out: Vec<Token>)
    requires
        n <= input@.len(),
    ensures
        out@ == input@.take(n as int),
        view_tokens(out@) == view_tokens(input@).take(n as int),
{
    let mut out: Vec<Token> = Vec::new();
    let mut i: usize = 0;
    while i < n
        invariant
            i <= n <= input@.len(),
            out@ == input@.take(i as int),
        decreases n - i,
    {
        out.push(clone_token(&input[i]));
        i = i + 1;
        assert(out@ =~= input@.take(i as int));
    }
    proof {
        lemma_view_subrange(input@, 0, n as int);
    }
    out
}

/// Decides whether two tokens have the same view.
pub fn token_eq(a: &Token, b: &Token) -> (r: bool)
    ensures
        r == (a@ == b@),
{
    match (a, b) {
        (Token::App, Token::App) => true,
        (Token::Bool, Token::Bool) => true,
        (Token::False, Token::False) => true,
        (Token::Fun, Token::Fun) => true,
        (Token::Lam, Token::Lam) => true,
        (Token::Nat, Token::Nat) => true,
        (Token::Pair, Token::Pair) => true,
        (Token::Prod, Token::Prod) => true,
        (Token::Succ, Token::Succ) => true,
        (Token::True, Token::True) => true,
        (Token::U(i), Token::U(j)) => *i == *j,
        (Token::Var(x), Token::Var(y)) => *x == *y,
        (Token::Zero, Token::Zero) => true,
        _ => false,
    }
}

/// Decides whether two streams have the same view.
pub fn tokens_eq(a: &[Token], b: &[Token]) -> (r: bool)
    ensures
        r == (view_tokens(a@) == view_tokens(b@)),
{
    if a.len() != b.len() {
        assert(view_tokens(a@).len() != view_tokens(b@).len());
        return false;
    }
    let mut i: usize = 0;
    while i < a.len()
        invariant
            i <= a@.len(),
            a@.len() == b@.len(),
            forall|k: int| 0 <= k < i ==> a@[k]@ == b@[k]@,
        decreases a@.len() - i,
    {
        if !token_eq(&a[i], &b[i]) {
            assert(view_tokens(a@)[i as int] != view_tokens(b@)[i as int]);
            return false;
        }
        i = i + 1;
    }
    assert(view_tokens(a@) =~= view_tokens(b@));
    true
}

} // verus!
