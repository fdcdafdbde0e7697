//! A bidirectional type checker and a normalization-by-evaluation engine for a
//! small calculus with booleans, naturals, pairs, functions and universes.
//! Terms are flat, prefix-encoded token streams: every consumer takes exactly
//! the tokens of one term and hands back the rest.

pub mod syntax;
pub mod value;
pub mod eval;
pub mod typing;
pub mod laws;
