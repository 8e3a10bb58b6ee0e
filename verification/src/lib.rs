//! An interpreter for a small structured teaching language with Cyrillic
//! keywords: algorithms, typed variables, conditions, three forms of loops,
//! output, and native functions that the embedding program supplies.
//!
//! A source text goes through the [`lexer`] and the [`parser`] into a syntax
//! tree ([`ast`]), which the evaluator ([`eval`]) walks on a chain of scopes
//! ([`environment`]). The [`interpreter`] ties these together.
//!
//! The library is verified with Verus. What each step computes is stated as
//! a function in the mathematical sense: [`lexer::token_at`] for the lexer,
//! [`grammar`] for the parser, [`semantics`] for the evaluator; the
//! executable code is proved to compute these. [`laws`] holds what follows
//! for the language as a whole. The collections of outside crates are used
//! through the contracts in [`tables`], which are believed, not proved.
pub mod ast;
pub mod copies;
pub mod environment;
pub mod eval;
pub mod grammar;
pub mod interpreter;
pub mod laws;
pub mod lexer;
pub mod model;
pub mod parser;
pub mod semantics;
pub mod tables;
