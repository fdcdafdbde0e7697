//! The semantic domain: values, stuck computations, environments and the
//! failures that the library reports.

use vstd::prelude::*;
use crate::syntax::{copy_prefix, tokens_eq, view_tokens, Level, Tok, Token};

verus! {

/// The view of a stuck computation.
pub enum Neu {
    App(Box<Neu>, Box<Val>),
    Var(Seq<char>),
}

/// The view of a value. A function is a closure: its parameter, the tokens
/// of its body and the bindings it was created under.
pub enum Val {
    Bool,
    False,
    Fun(Box<Val>, Box<Val>),
    Lam(Seq<char>, Seq<Tok>, Map<Seq<char>, Val>),
    Nat,
    Neutral(Neu),
    Pair(Box<Val>, Box<Val>),
    Prod(Box<Val>, Box<Val>),
    Succ(Box<Val>),
    True,
    U(Level),
    Zero,
}

/// The view of an error.
pub enum Failure {
    UnexpectedEndOfInput,
    UnboundVariable(Seq<char>),
    CannotInferType,
    IllegalApplication,
    TypeMismatch(Val, Val),
    UniverseLevelError,
    MalformedTerm,
    TooDeeplyNested,
}

/// The bindings of an environment, as `im_rc::HashMap` holds them: each bound
/// name with the view of its value.
pub uninterp spec fn env_map(env: Env) -> Map<Seq<char>, Val>;

/// A persistent mapping from names to values, held in an `im_rc::HashMap`.
/// Extending it yields a new environment and leaves every earlier one as it
/// was. Values hold environments and environments hold values, so the map
/// is kept out of the verifier's sight: `env_map` names what it holds.
#[verifier::external_body]
#[derive(Debug)]
pub struct Env {
    map: im_rc::HashMap<String, Value>,
}

/// A computation stuck on a free variable.
#[derive(Debug)]
pub enum Neutral {
    App(Box<Neutral>, Box<Value>),
    Var(String),
}

/// The result of evaluation. Types are values too. `==` on values is
/// conversion.
#[derive(Debug)]
pub enum Value {
    Bool,
    False,
    Fun(Box<Value>, Box<Value>),
    Lam(String, Vec<Token>, Env),
    Nat,
    Neutral(Neutral),
    Pair(Box<Value>, Box<Value>),
    Prod(Box<Value>, Box<Value>),
    Succ(Box<Value>),
    True,
    U(Level),
    Zero,
}

pub type Type = Value;

/// Why a call failed.
#[derive(Clone, Debug, PartialEq)]
pub enum Error {
    /// The stream ended where a token was required.
    UnexpectedEndOfInput,
    /// A variable without a declared type.
    UnboundVariable(String),
    /// No type can be synthesized for an introduction form.
    CannotInferType,
    /// The function side of an application is not a function.
    IllegalApplication,
    /// The expected type, then the inferred one.
    TypeMismatch(Value, Value),
    /// A universe does not lie strictly below the universe it is checked against.
    UniverseLevelError,
    /// The stream does not hold exactly one well-formed term.
    MalformedTerm,
    /// The recursion limit was reached.
    TooDeeplyNested,
}

pub open spec fn neutral_view(n: Neutral) -> Neu
    decreases n,
{
    match n {
        Neutral::App(f, a) => Neu::App(Box::new(neutral_view(*f)), Box::new(value_view(*a))),
        Neutral::Var(x) => Neu::Var(x@),
    }
}

pub open spec fn value_view(v: Value) -> Val
    decreases v,
{
    match v {
        Value::Bool => Val::Bool,
        Value::False => Val::False,
        Value::Fun(a, b) => Val::Fun(Box::new(value_view(*a)), Box::new(value_view(*b))),
        Value::Lam(x, body, env) => Val::Lam(x@, view_tokens(body@), env_map(env)),
        Value::Nat => Val::Nat,
        Value::Neutral(n) => Val::Neutral(neutral_view(n)),
        Value::Pair(a, b) => Val::Pair(Box::new(value_view(*a)), Box::new(value_view(*b))),
        Value::Prod(a, b) => Val::Prod(Box::new(value_view(*a)), Box::new(value_view(*b))),
        Value::Succ(n) => Val::Succ(Box::new(value_view(*n))),
        Value::True => Val::True,
        Value::U(i) => Val::U(i),
        Value::Zero => Val::Zero,
    }
}

impl View for Neutral {
    type V = Neu;

    open spec fn view(&self) -> Neu {
        neutral_view(*self)
    }
}

impl View for Value {
    type V = Val;

    open spec fn view(&self) -> Val {
        value_view(*self)
    }
}

impl View for Env {
    type V = Map<Seq<char>, Val>;

    open spec fn view(&self) -> Map<Seq<char>, Val> {
        env_map(*self)
    }
}

impl View for Error {
    type V = Failure;

    open spec fn view(&self) -> Failure {
        match self {
            Error::UnexpectedEndOfInput => Failure::UnexpectedEndOfInput,
            Error::UnboundVariable(x) => Failure::UnboundVariable(x@),
            Error::CannotInferType => Failure::CannotInferType,
            Error::IllegalApplication => Failure::IllegalApplication,
            Error::TypeMismatch(a, b) => Failure::TypeMismatch(a@, b@),
            Error::UniverseLevelError => Failure::UniverseLevelError,
            Error::MalformedTerm => Failure::MalformedTerm,
            Error::TooDeeplyNested => Failure::TooDeeplyNested,
        }
    }
}

/// No bindings at all.
pub open spec fn empty_bindings() -> Map<Seq<char>, Val> {
    Map::empty()
}

/// `im_rc::HashMap::new`: a map without bindings.
#[verifier::external_body]
fn env_new() -> (r: Env)
    ensures
        env_map(r) == empty_bindings(),
{
    Env { map: im_rc::HashMap::new() }
}

/// `im_rc::HashMap::get`: the value bound to `name`, if there is one. The
/// value is handed out as a copy, made by `clone_value`.
#[verifier::external_body]
fn env_get(env: &Env, name: &String) -> (r: Option<Value>)
    ensures
        r.is_some() == env_map(*env).contains_key(name@),
        r matches Some(v) ==> env_map(*env)[name@] == v@,
{
    env.map.get(name).cloned()
}

/// `im_rc::HashMap::update`: a new map with `name` bound to `value`, an
/// earlier binding of `name` overwritten and every other binding kept. The
/// map it was called on is not changed.
#[verifier::external_body]
fn env_update(env: &Env, name: &String, value: &Value) -> (r: Env)
    ensures
        env_map(r) == env_map(*env).insert(name@, value@),
{
    Env { map: env.map.update(name.clone(), value.clone()) }
}

/// `im_rc::HashMap::clone`: a map with the same bindings, which shares its
/// structure with the one it was made from.
#[verifier::external_body]
fn env_clone(env: &Env) -> (r: Env)
    ensures
        env_map(r) == env_map(*env),
{
    Env { map: env.map.clone() }
}

/// `im_rc::HashMap`'s `==`: whether two maps bind the same names to equal
/// values. The map compares its values with `==` on `Value`, which is `conv`.
#[verifier::external_body]
fn env_same(a: &Env, b: &Env) -> (r: bool)
    ensures
        r == (env_map(*a) == env_map(*b)),
{
    a.map == b.map
}

impl Env {
    /// The environment without bindings.
    pub fn new() -> (env: Env)
        ensures
            env@ == empty_bindings(),
    {
        env_new()
    }

    /// The value bound to `name`, or `None` where `name` is free.
    pub fn lookup(&self, name: &String) -> (r: Option<Value>)
        ensures
            r.is_some() == self@.contains_key(name@),
            r matches Some(v) ==> self@[name@] == v@,
    {
        env_get(self, name)
    }

    /// This environment extended by one binding; `self` stays as it was.
    pub fn bind(&self, name: &String, value: &Value) -> (r: Env)
        ensures
            r@ == self@.insert(name@, value@),
    {
        env_update(self, name, value)
    }
}

/// Copies a stuck computation.
pub fn clone_neutral(n: &Neutral) -> (r: Neutral)
    ensures
        r@ == n@,
    decreases n,
{
    match n {
        Neutral::App(f, a) => Neutral::App(
            Box::new(clone_neutral(&**f)),
            Box::new(clone_value(&**a)),
        ),
        Neutral::Var(x) => Neutral::Var(x.clone()),
    }
}

/// Copies a value. A closure's bindings are shared, not copied.
pub fn clone_value(v: &Value) -> (r: Value)
    ensures
        r@ == v@,
    decreases v,
{
    match v {
        Value::Bool => Value::Bool,
        Value::False => Value::False,
        Value::Fun(a, b) => Value::Fun(Box::new(clone_value(&**a)), Box::new(clone_value(&**b))),
        Value::Lam(x, body, env) => {
            let copy = copy_prefix(body.as_slice(), body.len());
            assert(view_tokens(body@).take(body@.len() as int) =~= view_tokens(body@));
            Value::Lam(x.clone(), copy, env.clone())
        },
        Value::Nat => Value::Nat,
        Value::Neutral(n) => Value::Neutral(clone_neutral(n)),
        Value::Pair(a, b) => Value::Pair(Box::new(clone_value(&**a)), Box::new(clone_value(&**b))),
        Value::Prod(a, b) => Value::Prod(Box::new(clone_value(&**a)), Box::new(clone_value(&**b))),
        Value::Succ(n) => Value::Succ(Box::new(clone_value(&**n))),
        Value::True => Value::True,
        Value::U(i) => Value::U(*i),
        Value::Zero => Value::Zero,
    }
}

impl Clone for Env {
    fn clone(&self) -> (r: Env)
        ensures
            r@ == self@,
    {
        env_clone(self)
    }
}

impl Clone for Neutral {
    fn clone(&self) -> (r: Neutral)
        ensures
            r@ == self@,
    {
        clone_neutral(self)
    }
}

impl Clone for Value {
    fn clone(&self) -> (r: Value)
        ensures
            r@ == self@,
    {
        clone_value(self)
    }
}

impl PartialEq for Neutral {
    fn eq(&self, other: &Neutral) -> (r: bool) {
        conv_neutral(self, other)
    }
}

impl vstd::std_specs::cmp::PartialEqSpecImpl for Neutral {
    open spec fn obeys_eq_spec() -> bool {
        true
    }

    open spec fn eq_spec(&self, other: &Neutral) -> bool {
        self@ == other@
    }
}

impl PartialEq for Value {
    fn eq(&self, other: &Value) -> (r: bool) {
        conv(self, other)
    }
}

impl vstd::std_specs::cmp::PartialEqSpecImpl for Value {
    open spec fn obeys_eq_spec() -> bool {
        true
    }

    open spec fn eq_spec(&self, other: &Value) -> bool {
        self@ == other@
    }
}

/// Conversion of stuck computations: same head, same arguments.
pub fn conv_neutral(a: &Neutral, b: &Neutral) -> (r: bool)
    ensures
        r == (a@ == b@),
    decreases a,
{
    match (a, b) {
        (Neutral::App(f, x), Neutral::App(g, y)) => conv_neutral(&**f, &**g) && conv(&**x, &**y),
        (Neutral::Var(x), Neutral::Var(y)) => *x == *y,
        _ => false,
    }
}

/// Conversion, the definitional equality of values: a deep structural
/// comparison. Two values convert exactly when their views are equal.
pub fn conv(a: &Value, b: &Value) -> (r: bool)
    ensures
        r == (a@ == b@),
    decreases a,
{
    match (a, b) {
        (Value::Bool, Value::Bool) => true,
        (Value::False, Value::False) => true,
        (Value::Fun(a1, a2), Value::Fun(b1, b2)) => conv(&**a1, &**b1) && conv(&**a2, &**b2),
        (Value::Lam(x, s, e), Value::Lam(y, t, f)) => *x == *y && tokens_eq(
            s.as_slice(),
            t.as_slice(),
        ) && env_same(e, f),
        (Value::Nat, Value::Nat) => true,
        (Value::Neutral(m), Value::Neutral(n)) => conv_neutral(m, n),
        (Value::Pair(a1, a2), Value::Pair(b1, b2)) => conv(&**a1, &**b1) && conv(&**a2, &**b2),
        (Value::Prod(a1, a2), Value::Prod(b1, b2)) => conv(&**a1, &**b1) && conv(&**a2, &**b2),
        (Value::Succ(m), Value::Succ(n)) => conv(&**m, &**n),
        (Value::True, Value::True) => true,
        (Value::U(i), Value::U(j)) => *i == *j,
        (Value::Zero, Value::Zero) => true,
        _ => false,
    }
}

} // verus!
