//! Syntax nodes.
pub mod clone;
pub mod convert;
pub mod decl;
pub mod expr;
pub mod function;
pub mod ident;
pub mod lit;
pub mod pat;
pub mod stmt;
pub mod typescript;
