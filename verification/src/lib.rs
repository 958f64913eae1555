//! A parser for zts, a language that adds to TypeScript what Rust is liked for:
//! `match` expressions, enums with data, newtypes, `if` expressions, blocks with a
//! value, and the operator `not`.
//!
//! - [`lexer`] turns a text into tokens, and says what the tokens of a text are.
//! - [`ast`] holds the syntax nodes. Each has a labelled tree ([`tree`]), which is
//!   what contracts speak of.
//! - [`grammar`] says what trees a sequence of tokens stands for.
//! - [`parser`] computes that. Its contracts hold each function to the grammar: to
//!   the node or the error, to the token where parsing goes on, and to the errors
//!   reported on the way.
//! - [`laws`] proves of the grammar what zts promises.
pub mod ast;
pub mod atom;
pub mod error;
pub mod grammar;
pub mod laws;
pub mod lexer;
pub mod parser;
pub mod span;
pub mod stack;
pub mod syntax;
pub mod token;
pub mod tree;
