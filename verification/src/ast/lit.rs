//! Literals.
//!
//! A literal keeps its source text.
use crate::atom::atom_text;
use crate::span::Span;
use crate::tree::{leaf, HasTree, Label, Tree};
use swc_atoms::Atom;
use vstd::prelude::*;

verus! {

/// A string literal, with its quotes.
#[derive(Debug, PartialEq, Eq, Hash)]
pub struct Str {
    pub span: Span,
    pub raw: Atom,
}

/// A number literal.
#[derive(Debug, PartialEq, Eq, Hash)]
pub struct Number {
    pub span: Span,
    pub raw: Atom,
}

/// A big integer literal.
#[derive(Debug, PartialEq, Eq, Hash)]
pub struct BigInt {
    pub span: Span,
    pub raw: Atom,
}

/// `true` or `false`.
#[derive(Debug, PartialEq, Eq, Hash)]
pub struct Bool {
    pub span: Span,
    pub value: bool,
}

/// `null`.
#[derive(Debug, PartialEq, Eq, Hash)]
pub struct Null {
    pub span: Span,
}

/// A literal.
#[derive(Debug, PartialEq, Eq, Hash)]
pub enum Lit {
    Str(Str),
    Bool(Bool),
    Null(Null),
    Num(Number),
    BigInt(BigInt),
}

impl Str {
    /// The tree of the node.
    pub open spec fn tree(self) -> Tree {
        leaf(Label::Str { raw: atom_text(self.raw) }, self.span)
    }
}

impl Number {
    /// The tree of the node.
    pub open spec fn tree(self) -> Tree {
        leaf(Label::Num { raw: atom_text(self.raw) }, self.span)
    }
}

impl Lit {
    /// The tree of the node.
    pub open spec fn tree(self) -> Tree {
        match self {
            Lit::Str(s) => s.tree(),
            Lit::Bool(b) => leaf(Label::Bool { value: b.value }, b.span),
            Lit::Null(n) => leaf(Label::Null, n.span),
            Lit::Num(n) => n.tree(),
            Lit::BigInt(b) => leaf(Label::BigInt { raw: atom_text(b.raw) }, b.span),
        }
    }

    /// Where the literal stands.
    pub fn span(&self) -> (s: Span)
        ensures
            s == self.tree().span,
    {
        match self {
            Lit::Str(x) => x.span,
            Lit::Bool(x) => x.span,
            Lit::Null(x) => x.span,
            Lit::Num(x) => x.span,
            Lit::BigInt(x) => x.span,
        }
    }
}

impl HasTree for Lit {
    open spec fn as_tree(&self) -> Tree {
        self.tree()
    }
}

} // verus!
