//! Syntax errors.
use crate::span::Span;
use crate::token::Token;
use vstd::prelude::*;

verus! {

/// What is wrong with a piece of syntax.
#[derive(Clone, Copy, Debug, PartialEq, Eq, Hash, Structural)]
pub enum SyntaxError {
    /// The first token was due where the second one stands.
    Expected(Token, Token),
    /// An identifier was due.
    ExpectedIdent,
    /// A statement has to end here.
    ExpectedSemi,
    /// A type was due.
    TypeExpected,
    /// An expression was due.
    TS1109,
    /// The left-hand side of an assignment cannot be assigned to.
    NotSimpleAssign,
    /// A declaration stands where only a single statement may.
    DeclNotAllowed,
    /// A declaration was due after `export`.
    DeclarationExpected,
    /// `declare enum`.
    ZtsDeclareEnum,
    /// `const enum`.
    ZtsConstEnum,
    /// `declare newtype`.
    ZtsDeclareNewtype,
    /// An enum variant without its braces.
    ZtsEnumVariantBody,
    /// A match arm body that could be read as an object literal.
    ZtsAmbiguousArmBody,
    /// An `if` expression without an `else`.
    ZtsIfWithoutElse,
    /// A block whose value is wanted, but which does not end in an expression.
    ZtsBlockWithoutTail,
}

/// A syntax error and the source text it is about.
#[derive(Clone, Copy, Debug, PartialEq, Eq, Hash, Structural)]
pub struct Error {
    pub span: Span,
    pub error: SyntaxError,
}

impl Error {
    /// An error about a piece of source text.
    pub fn new(span: Span, error: SyntaxError) -> (e: Error)
        ensures
            e == (Error { span, error }),
    {
        Error { span, error }
    }

    /// What is wrong.
    pub fn kind(&self) -> (k: &SyntaxError)
        ensures
            *k == self.error,
    {
        &self.error
    }

    /// Where it is wrong.
    pub fn span(&self) -> (s: Span)
        ensures
            s == self.span,
    {
        self.span
    }
}

/// What a parsing function returns: a node, or the error that stopped it.
pub type PResult<T> = Result<T, Error>;

} // verus!
