//! The parser.
//!
//! A [`Parser`] holds the tokens of a source text and walks over them. What
//! each of its methods makes of the tokens is stated by [`crate::grammar`].
pub mod expr;
pub mod input;
pub mod pat;
pub mod stmt;
pub mod typescript;
pub mod zts;

pub use input::Parser;
