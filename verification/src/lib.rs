//! A small expression engine for conditional SQL templates: it compiles
//! expression strings such as `a + 1 > b * 8` into an abstract syntax tree
//! and evaluates the tree against a JSON-like context document of bound
//! parameters, deciding whether a SQL fragment is included or what value is
//! substituted into it.
//!
//! The pieces, leaf first: [`value`] holds the dynamically typed value model;
//! [`runtime`] the configurable operator table and the tokenizer; [`parser`]
//! builds the tree by precedence climbing; [`node`] holds the tree and
//! evaluates it; [`laws`] states and proves the engine-wide laws, and [`tx`]
//! the pure timing decision of the surrounding transaction reaper.
//!
//! Tokenizing, parsing and evaluation are total, side-effect-free
//! computations: each is specified by a recursive specification function and
//! the executable code is proved to return exactly what it says, so a
//! compiled tree can be cached and shared, and evaluating it twice against
//! equal contexts yields equal results.

pub mod error;
pub mod value;
pub mod runtime;
pub mod node;
pub mod parser;
pub mod laws;
pub mod tx;
