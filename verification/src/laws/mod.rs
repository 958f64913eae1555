//! Laws of the grammar.
//!
//! - What single phrases are made of, and what they are refused for: [`meaning`],
//!   [`refusals`], [`bindings`], [`operands`], [`signs`], [`texts`], [`nodes`].
//! - What is accepted is what was written: [`written`], from [`spelling`], [`made`] and
//!   the files `spell_*`.
//! - What zts promises of its language: [`language`], [`words`], [`spans`], [`commas`],
//!   with what they rest on.
pub mod alike;
pub mod bindings;
pub mod both;
pub mod commas;
pub mod language;
pub mod lexing;
pub mod made;
pub mod meaning;
pub mod nodes;
pub mod operands;
pub mod refusals;
pub mod same;
pub mod shape;
pub mod signs;
pub mod sound;
pub mod spans;
pub mod spell_exprs;
pub mod spell_parts;
pub mod spell_stmts;
pub mod spell_zts;
pub mod spelling;
pub mod texts;
pub mod words;
pub mod written;
