//! The grammar: what a sequence of tokens means, as trees.
//!
//! [`Gram`] fixes the tokens and whether zts is on. Each method takes the index
//! of a token and says what parsing a phrase from there on yields: a tree or an
//! error, the index of the first token behind the phrase, and the errors that
//! were reported on the way.
use crate::ast::decl::VarDeclKind;
use crate::ast::expr::{AssignOp, BinaryOp, UnaryOp};
use crate::ast::typescript::TsKeywordTypeKind;
use crate::error::{Error, SyntaxError};
use crate::span::{BytePos, Span, SyntaxContext};
use crate::token::{Tok, Token};
use crate::tree::{
    absent, ident, ident_name, kids1, kids2, kids3, kids4, leaf, list, node, Label, Tree,
};
use vstd::prelude::*;

verus! {

/// The tokens of a source text, and whether zts is on.
pub ghost struct Gram {
    pub toks: Seq<Tok>,
    pub zts: bool,
}

/// What parsing a phrase yields.
#[verifier::ext_equal]
pub ghost struct Out {
    /// The tree of the phrase, or the error that ended it.
    pub res: Result<Tree, Error>,
    /// The index of the first token that was not used.
    pub next: int,
    /// The errors reported on the way, besides the one that ended it.
    pub errs: Seq<Error>,
}

/// A tree, and nothing reported.
pub open spec fn good(t: Tree, next: int) -> Out {
    Out { res: Ok(t), next, errs: Seq::empty() }
}

/// An error, and nothing reported besides.
pub open spec fn bad(span: Span, error: SyntaxError, next: int) -> Out {
    Out { res: Err(Error { span, error }), next, errs: Seq::empty() }
}

impl Out {
    /// The tree.
    pub open spec fn tree(self) -> Tree {
        self.res->Ok_0
    }

    /// What comes after `a`: the errors of `a` were reported before.
    pub open spec fn after(self, a: Out) -> Out {
        Out { res: self.res, next: self.next, errs: a.errs + self.errs }
    }

    /// The phrase goes on up to `next` and has the tree `t`.
    pub open spec fn grown(self, t: Tree, next: int) -> Out {
        Out { res: Ok(t), next, errs: self.errs }
    }

    /// A sequence of trees, put behind the trees `ts` that were parsed before,
    /// with the errors `errs` reported.
    pub open spec fn behind(self, ts: Seq<Tree>, errs: Seq<Error>) -> Out {
        Out {
            res: match self.res {
                Ok(t) => Ok(list(ts + t.kids)),
                Err(e) => Err(e),
            },
            next: self.next,
            errs: errs + self.errs,
        }
    }
}

/// The kinds of bracketed, comma-separated sequences.
pub ghost enum ListKind {
    Args,
    Elems,
    Props,
    Params,
    PatProps,
    Arms,
    Variants,
    Fields,
    TsMembers,
}

impl ListKind {
    /// The bracket that closes the sequence.
    pub open spec fn close(self) -> Token {
        match self {
            ListKind::Args | ListKind::Params => Token::RParen,
            ListKind::Elems => Token::RBracket,
            _ => Token::RBrace,
        }
    }
}

/// The operator that stands before an operand.
#[verifier::opaque]
pub open spec fn unary_op(t: Token) -> Option<UnaryOp> {
    match t {
        Token::Minus => Some(UnaryOp::Minus),
        Token::Plus => Some(UnaryOp::Plus),
        Token::Bang => Some(UnaryOp::Bang),
        Token::Tilde => Some(UnaryOp::Tilde),
        Token::TypeOf => Some(UnaryOp::TypeOf),
        Token::Void => Some(UnaryOp::Void),
        Token::Delete => Some(UnaryOp::Delete),
        _ => None,
    }
}

/// The operator that stands between two operands.
#[verifier::opaque]
pub open spec fn binary_op(t: Token) -> Option<BinaryOp> {
    match t {
        Token::EqEq => Some(BinaryOp::EqEq),
        Token::NotEq => Some(BinaryOp::NotEq),
        Token::EqEqEq => Some(BinaryOp::EqEqEq),
        Token::NotEqEq => Some(BinaryOp::NotEqEq),
        Token::Lt => Some(BinaryOp::Lt),
        Token::LtEq => Some(BinaryOp::LtEq),
        Token::Gt => Some(BinaryOp::Gt),
        Token::GtEq => Some(BinaryOp::GtEq),
        Token::LShift => Some(BinaryOp::LShift),
        Token::RShift => Some(BinaryOp::RShift),
        Token::ZeroFillRShift => Some(BinaryOp::ZeroFillRShift),
        Token::Plus => Some(BinaryOp::Add),
        Token::Minus => Some(BinaryOp::Sub),
        Token::Asterisk => Some(BinaryOp::Mul),
        Token::Slash => Some(BinaryOp::Div),
        Token::Percent => Some(BinaryOp::Mod),
        Token::Pipe => Some(BinaryOp::BitOr),
        Token::Caret => Some(BinaryOp::BitXor),
        Token::Ampersand => Some(BinaryOp::BitAnd),
        Token::LogicalOr => Some(BinaryOp::LogicalOr),
        Token::LogicalAnd => Some(BinaryOp::LogicalAnd),
        Token::In => Some(BinaryOp::In),
        Token::InstanceOf => Some(BinaryOp::InstanceOf),
        Token::Exp => Some(BinaryOp::Exp),
        Token::NullishCoalescing => Some(BinaryOp::NullishCoalescing),
        _ => None,
    }
}

/// How tightly an operator binds.
#[verifier::opaque]
pub open spec fn precedence(op: BinaryOp) -> int {
    match op {
        BinaryOp::NullishCoalescing | BinaryOp::LogicalOr => 1,
        BinaryOp::LogicalAnd => 2,
        BinaryOp::BitOr => 3,
        BinaryOp::BitXor => 4,
        BinaryOp::BitAnd => 5,
        BinaryOp::EqEq | BinaryOp::NotEq | BinaryOp::EqEqEq | BinaryOp::NotEqEq => 6,
        BinaryOp::Lt | BinaryOp::LtEq | BinaryOp::Gt | BinaryOp::GtEq | BinaryOp::In
        | BinaryOp::InstanceOf => 7,
        BinaryOp::LShift | BinaryOp::RShift | BinaryOp::ZeroFillRShift => 8,
        BinaryOp::Add | BinaryOp::Sub => 9,
        BinaryOp::Mul | BinaryOp::Div | BinaryOp::Mod => 10,
        BinaryOp::Exp => 11,
    }
}

/// How tightly the operators in the right operand have to bind: an operator
/// groups to the left, except `**`.
#[verifier::opaque]
pub open spec fn right_precedence(op: BinaryOp) -> int {
    if op == BinaryOp::Exp {
        10
    } else {
        precedence(op)
    }
}

/// The operator that assigns.
#[verifier::opaque]
pub open spec fn assign_op(t: Token) -> Option<AssignOp> {
    match t {
        Token::Eq => Some(AssignOp::Assign),
        Token::PlusEq => Some(AssignOp::AddAssign),
        Token::MinusEq => Some(AssignOp::SubAssign),
        Token::MulEq => Some(AssignOp::MulAssign),
        Token::DivEq => Some(AssignOp::DivAssign),
        Token::ModEq => Some(AssignOp::ModAssign),
        _ => None,
    }
}

/// The type that a word of the language names.
#[verifier::opaque]
pub open spec fn keyword_type(t: Token, w: Seq<char>) -> Option<TsKeywordTypeKind> {
    if t == Token::Void {
        Some(TsKeywordTypeKind::TsVoidKeyword)
    } else if t == Token::Null {
        Some(TsKeywordTypeKind::TsNullKeyword)
    } else if t != Token::Ident {
        None
    } else if w == "any"@ {
        Some(TsKeywordTypeKind::TsAnyKeyword)
    } else if w == "unknown"@ {
        Some(TsKeywordTypeKind::TsUnknownKeyword)
    } else if w == "number"@ {
        Some(TsKeywordTypeKind::TsNumberKeyword)
    } else if w == "object"@ {
        Some(TsKeywordTypeKind::TsObjectKeyword)
    } else if w == "boolean"@ {
        Some(TsKeywordTypeKind::TsBooleanKeyword)
    } else if w == "bigint"@ {
        Some(TsKeywordTypeKind::TsBigIntKeyword)
    } else if w == "string"@ {
        Some(TsKeywordTypeKind::TsStringKeyword)
    } else if w == "symbol"@ {
        Some(TsKeywordTypeKind::TsSymbolKeyword)
    } else if w == "undefined"@ {
        Some(TsKeywordTypeKind::TsUndefinedKeyword)
    } else if w == "never"@ {
        Some(TsKeywordTypeKind::TsNeverKeyword)
    } else {
        None
    }
}

/// The word that a declaration of variables starts with.
#[verifier::opaque]
pub open spec fn var_kind(t: Token) -> Option<VarDeclKind> {
    match t {
        Token::Var => Some(VarDeclKind::Var),
        Token::Let => Some(VarDeclKind::Let),
        Token::Const => Some(VarDeclKind::Const),
        _ => None,
    }
}

/// Whether a token is a literal.
#[verifier::opaque]
pub open spec fn is_lit(t: Token) -> bool {
    match t {
        Token::Str | Token::Num | Token::BigInt | Token::True | Token::False | Token::Null => true,
        _ => false,
    }
}

/// Whether a template starts with a token.
pub open spec fn template_start(t: Token) -> bool {
    t == Token::NoSubstitutionTemplate || t == Token::TemplateHead
}

/// Whether a token, next to the word `not` and on its line, makes `not` an
/// operator: a word or a literal, none of which can follow an identifier,
/// but for the words that are operators themselves.
pub open spec fn not_operand(t: Token) -> bool {
    match t {
        Token::In | Token::InstanceOf | Token::As | Token::Satisfies | Token::Of => false,
        Token::Num | Token::Str | Token::BigInt | Token::True | Token::False | Token::Null => true,
        _ => t.is_word(),
    }
}

/// Whether a match arm can start with a token, so that `{` before it opens the
/// body of a match expression.
pub open spec fn arm_starter(t: Token) -> bool {
    t.is_word() || t == Token::Str || t == Token::Num || t == Token::Minus || t == Token::True || t
        == Token::False
}

/// Whether an expression is an identifier, or a comma sequence of identifiers.
pub open spec fn bare_idents(t: Tree) -> bool {
    ||| t.label is Ident
    ||| t.label is SeqExpr && forall|k: int|
        0 <= k < t.kids.len() ==> (#[trigger] t.kids[k]).label is Ident
}

/// Whether a block with a value could be read as an object literal with
/// shorthand properties only.
pub open spec fn ambiguous_block(t: Tree) -> bool {
    t.kids[0].kids.len() == 0 && bare_idents(t.kids[1])
}

/// Whether an expression can be assigned to.
pub open spec fn assignable(t: Tree) -> bool {
    t.label is Ident || t.label is Member
}

/// Whether a tree is an identifier with a given name.
pub open spec fn is_ident_named(t: Tree, w: Seq<char>) -> bool {
    t.label matches Label::Ident { sym, .. } && sym == w
}

/// A binding pattern with a type annotation.
pub open spec fn annotated(t: Tree, ann: Tree) -> Tree {
    node(t.label, t.span, kids2(t.kids[0], ann))
}

impl Gram {
    /// The kind of the token at an index.
    pub open spec fn kind(self, i: int) -> Token {
        if 0 <= i < self.toks.len() {
            self.toks[i].kind
        } else {
            Token::Eof
        }
    }

    /// The text of the token at an index.
    pub open spec fn text(self, i: int) -> Seq<char> {
        self.toks[i].text
    }

    /// Whether a line break comes before the token at an index.
    pub open spec fn nl(self, i: int) -> bool {
        0 <= i < self.toks.len() && self.toks[i].nl
    }

    /// The span of the token at an index.
    pub open spec fn span_at(self, i: int) -> Span {
        self.toks[i].span
    }

    /// Where the token at an index starts.
    pub open spec fn lo(self, i: int) -> BytePos {
        self.toks[i].span.lo
    }

    /// Where the token before an index ends.
    pub open spec fn end(self, i: int) -> BytePos {
        if 0 < i <= self.toks.len() {
            self.toks[i - 1].span.hi
        } else {
            BytePos(1)
        }
    }

    /// The span from a position to the end of the token before an index.
    pub open spec fn span(self, start: BytePos, i: int) -> Span {
        Span::between(start, self.end(i))
    }

    /// How many tokens are left.
    pub open spec fn rem(self, i: int) -> int {
        self.toks.len() - i
    }

    /// Whether a phrase from `i` on was parsed. A phrase has at least one token.
    pub open spec fn ok(self, i: int, o: Out) -> bool {
        o.res is Ok && i < o.next <= self.toks.len()
    }

    /// Whether a phrase that may be empty was parsed from `i` on.
    pub open spec fn okl(self, i: int, o: Out) -> bool {
        o.res is Ok && i <= o.next <= self.toks.len()
    }

    /// The error that a token is due at an index.
    pub open spec fn expected(self, i: int, t: Token) -> Out {
        bad(self.span_at(i), SyntaxError::Expected(t, self.kind(i)), i)
    }

    /// Where a statement ends that could end at an index: behind a semicolon,
    /// before `}`, at the end of the source text, or before a line break.
    pub open spec fn semi(self, i: int) -> Option<int> {
        if self.kind(i) == Token::Semi {
            Some(i + 1)
        } else if self.kind(i) == Token::RBrace || self.kind(i) == Token::Eof || self.nl(i) {
            Some(i)
        } else {
            None
        }
    }

    /// The error that a statement has to end at an index.
    pub open spec fn no_semi(self, i: int) -> Out {
        bad(self.span_at(i), SyntaxError::ExpectedSemi, i)
    }

    // Names and literals.

    /// A name: any word.
    pub open spec fn name(self, i: int) -> Out {
        if self.kind(i).is_word() {
            good(ident_name(self.text(i), self.span_at(i)), i + 1)
        } else {
            bad(self.span_at(i), SyntaxError::ExpectedIdent, i)
        }
    }

    /// The tree of the identifier at an index.
    pub open spec fn ident_at(self, i: int) -> Tree {
        ident(self.text(i), self.span_at(i))
    }

    /// The name of something that is declared: any word.
    pub open spec fn decl_name(self, i: int) -> Out {
        if self.kind(i).is_word() {
            good(self.ident_at(i), i + 1)
        } else {
            bad(self.span_at(i), SyntaxError::ExpectedIdent, i)
        }
    }

    /// The tree of the literal at an index.
    pub open spec fn lit_at(self, i: int) -> Tree {
        match self.kind(i) {
            Token::Str => leaf(Label::Str { raw: self.text(i) }, self.span_at(i)),
            Token::Num => leaf(Label::Num { raw: self.text(i) }, self.span_at(i)),
            Token::BigInt => leaf(Label::BigInt { raw: self.text(i) }, self.span_at(i)),
            Token::True => leaf(Label::Bool { value: true }, self.span_at(i)),
            Token::False => leaf(Label::Bool { value: false }, self.span_at(i)),
            _ => leaf(Label::Null, self.span_at(i)),
        }
    }

    // Types.

    /// `A | B`
    #[verifier::opaque]
    pub open spec fn ty(self, i: int) -> Out
        decreases self.rem(i), 3nat,
    {
        let a = self.ty_postfix(i);
        if !self.ok(i, a) || self.kind(a.next) != Token::Pipe {
            a
        } else {
            let r = self.more_types(a.next).behind(seq![a.tree()], a.errs);
            if !self.okl(a.next, r) {
                r
            } else {
                r.grown(
                    node(Label::TsUnion, self.span(self.lo(i), r.next), r.tree().kids),
                    r.next,
                )
            }
        }
    }

    /// `| B | C`
    #[verifier::opaque]
    pub open spec fn more_types(self, i: int) -> Out
        decreases self.rem(i), 0nat,
    {
        if self.kind(i) != Token::Pipe {
            good(list(Seq::empty()), i)
        } else {
            let a = self.ty_postfix(i + 1);
            if !self.ok(i + 1, a) {
                a
            } else {
                self.more_types(a.next).behind(seq![a.tree()], a.errs)
            }
        }
    }

    /// `T[]`
    #[verifier::opaque]
    pub open spec fn ty_postfix(self, i: int) -> Out
        decreases self.rem(i), 2nat,
    {
        let a = self.ty_primary(i);
        if !self.ok(i, a) {
            a
        } else {
            self.ty_suffix(self.lo(i), a)
        }
    }

    /// `[]`, as often as it comes.
    #[verifier::opaque]
    pub open spec fn ty_suffix(self, start: BytePos, a: Out) -> Out
        decreases self.rem(a.next), 0nat,
    {
        if self.kind(a.next) != Token::LBracket || self.nl(a.next) {
            a
        } else if self.kind(a.next + 1) != Token::RBracket {
            self.expected(a.next + 1, Token::RBracket).after(a)
        } else {
            self.ty_suffix(
                start,
                a.grown(
                    node(Label::TsArray, self.span(start, a.next + 2), kids1(a.tree())),
                    a.next + 2,
                ),
            )
        }
    }

    /// A type without suffixes.
    #[verifier::opaque]
    pub open spec fn ty_primary(self, i: int) -> Out
        decreases self.rem(i), 1nat,
    {
        let k = self.kind(i);
        if k == Token::LParen {
            let a = self.ty(i + 1);
            if !self.ok(i + 1, a) {
                a
            } else if self.kind(a.next) != Token::RParen {
                self.expected(a.next, Token::RParen).after(a)
            } else {
                a.grown(
                    node(
                        Label::TsParenthesized,
                        self.span(self.lo(i), a.next + 1),
                        kids1(a.tree()),
                    ),
                    a.next + 1,
                )
            }
        } else if k == Token::Str || k == Token::Num || k == Token::True || k == Token::False {
            good(node(Label::TsLitType, self.span_at(i), kids1(self.lit_at(i))), i + 1)
        } else {
            match keyword_type(k, self.text(i)) {
                Some(kind) => good(leaf(Label::TsKeyword { kind }, self.span_at(i)), i + 1),
                None => if k.is_ident_like() {
                    good(node(Label::TsTypeRef, self.span_at(i), kids1(self.ident_at(i))), i + 1)
                } else {
                    bad(self.span_at(i), SyntaxError::TypeExpected, i)
                },
            }
        }
    }

    // Patterns.

    /// The tree of the identifier at an index, as a binding without a type.
    pub open spec fn binding_at(self, i: int) -> Tree {
        node(Label::BindingIdent, self.span_at(i), kids2(self.ident_at(i), absent()))
    }

    /// An identifier or an object pattern.
    #[verifier::opaque]
    pub open spec fn pat(self, i: int) -> Out
        decreases self.rem(i), 1nat,
    {
        if self.kind(i).is_ident_like() {
            good(self.binding_at(i), i + 1)
        } else if self.kind(i) == Token::LBrace {
            self.object_pat(i)
        } else {
            bad(self.span_at(i), SyntaxError::ExpectedIdent, i)
        }
    }

    /// `{ a, b: c, ...rest }`, from the opening brace on.
    #[verifier::opaque]
    pub open spec fn object_pat(self, i: int) -> Out
        decreases self.rem(i), 0nat,
    {
        if self.kind(i) != Token::LBrace {
            self.expected(i, Token::LBrace)
        } else {
            let l = self.comma_list(ListKind::PatProps, i + 1);
            if !self.okl(i + 1, l) {
                l
            } else if self.kind(l.next) != Token::RBrace {
                self.expected(l.next, Token::RBrace).after(l)
            } else {
                l.grown(
                    node(
                        Label::ObjectPat { optional: false },
                        self.span(self.lo(i), l.next + 1),
                        kids2(l.tree(), absent()),
                    ),
                    l.next + 1,
                )
            }
        }
    }

    /// One property of an object pattern.
    #[verifier::opaque]
    pub open spec fn pat_prop(self, i: int) -> Out
        decreases self.rem(i), 0nat,
    {
        if self.kind(i) == Token::DotDotDot {
            let a = self.pat(i + 1);
            if !self.ok(i + 1, a) {
                a
            } else {
                a.grown(
                    node(
                        Label::Rest { dots: self.span_at(i) },
                        self.span(self.lo(i), a.next),
                        kids1(a.tree()),
                    ),
                    a.next,
                )
            }
        } else if self.kind(i).is_word() && self.kind(i + 1) == Token::Colon {
            let a = self.pat_elem(i + 2);
            if !self.ok(i + 2, a) {
                a
            } else {
                a.grown(
                    node(
                        Label::KeyValuePat,
                        Span::spec_dummy(),
                        kids2(ident_name(self.text(i), self.span_at(i)), a.tree()),
                    ),
                    a.next,
                )
            }
        } else if !self.kind(i).is_ident_like() {
            bad(self.span_at(i), SyntaxError::ExpectedIdent, i)
        } else if self.kind(i + 1) == Token::Eq {
            let a = self.assign(i + 2);
            if !self.ok(i + 2, a) {
                a
            } else {
                a.grown(
                    node(
                        Label::AssignPatProp,
                        self.span(self.lo(i), a.next),
                        kids2(self.binding_at(i), a.tree()),
                    ),
                    a.next,
                )
            }
        } else {
            good(
                node(
                    Label::AssignPatProp,
                    self.span(self.lo(i), i + 1),
                    kids2(self.binding_at(i), absent()),
                ),
                i + 1,
            )
        }
    }

    /// What comes behind a pattern that may have a default.
    #[verifier::opaque]
    pub open spec fn with_default(self, start: BytePos, p: Out) -> Out
        decreases self.rem(p.next), 0nat,
    {
        if self.kind(p.next) != Token::Eq {
            p
        } else {
            let a = self.assign(p.next + 1).after(p);
            if !self.ok(p.next + 1, a) {
                a
            } else {
                a.grown(
                    node(
                        Label::AssignPat,
                        self.span(start, a.next),
                        kids2(p.tree(), a.tree()),
                    ),
                    a.next,
                )
            }
        }
    }

    /// A pattern that may have a default.
    #[verifier::opaque]
    pub open spec fn pat_elem(self, i: int) -> Out
        decreases self.rem(i), 2nat,
    {
        let p = self.pat(i);
        if !self.ok(i, p) {
            p
        } else {
            self.with_default(self.lo(i), p)
        }
    }

    /// A pattern that may have a type.
    #[verifier::opaque]
    pub open spec fn binding(self, i: int) -> Out
        decreases self.rem(i), 2nat,
    {
        let p = self.pat(i);
        if !self.ok(i, p) || self.kind(p.next) != Token::Colon {
            p
        } else {
            let t = self.ty(p.next + 1).after(p);
            if !self.ok(p.next + 1, t) {
                t
            } else {
                t.grown(
                    annotated(
                        p.tree(),
                        node(
                            Label::TsTypeAnn,
                            self.span(self.lo(p.next), t.next),
                            kids1(t.tree()),
                        ),
                    ),
                    t.next,
                )
            }
        }
    }

    /// A parameter of an arrow function.
    #[verifier::opaque]
    pub open spec fn param(self, i: int) -> Out
        decreases self.rem(i), 3nat,
    {
        let p = self.binding(i);
        if !self.ok(i, p) {
            p
        } else {
            self.with_default(self.lo(i), p)
        }
    }

    // Sequences.

    /// One element of a bracketed sequence.
    #[verifier::opaque]
    pub open spec fn elem(self, k: ListKind, i: int) -> Out
        decreases self.rem(i), 8nat,
    {
        match k {
            ListKind::Args | ListKind::Elems => self.assign(i),
            ListKind::Props => self.prop(i),
            ListKind::Params => self.param(i),
            ListKind::PatProps => self.pat_prop(i),
            ListKind::Arms => self.arm(i),
            ListKind::Variants => self.variant(i),
            ListKind::Fields => self.field(i),
            ListKind::TsMembers => self.ts_member(i),
        }
    }

    /// The elements of a bracketed sequence, up to the closing bracket. A comma
    /// may come behind the last one.
    #[verifier::opaque]
    pub open spec fn comma_list(self, k: ListKind, i: int) -> Out
        decreases self.rem(i), 9nat,
    {
        if self.kind(i) == k.close() {
            good(list(Seq::empty()), i)
        } else {
            let e = self.elem(k, i);
            if !self.ok(i, e) {
                e
            } else if self.kind(e.next) != Token::Comma {
                e.grown(list(seq![e.tree()]), e.next)
            } else {
                self.comma_list(k, e.next + 1).behind(seq![e.tree()], e.errs)
            }
        }
    }

    // Expressions.

    /// `a, b`
    #[verifier::opaque]
    pub open spec fn expr(self, i: int) -> Out
        decreases self.rem(i), 7nat,
    {
        let a = self.assign(i);
        if !self.ok(i, a) || self.kind(a.next) != Token::Comma {
            a
        } else {
            let r = self.more_exprs(a.next).behind(seq![a.tree()], a.errs);
            if !self.okl(a.next, r) {
                r
            } else {
                r.grown(
                    node(Label::SeqExpr, self.span(self.lo(i), r.next), r.tree().kids),
                    r.next,
                )
            }
        }
    }

    /// `, b, c`
    #[verifier::opaque]
    pub open spec fn more_exprs(self, i: int) -> Out
        decreases self.rem(i), 0nat,
    {
        if self.kind(i) != Token::Comma {
            good(list(Seq::empty()), i)
        } else {
            let a = self.assign(i + 1);
            if !self.ok(i + 1, a) {
                a
            } else {
                self.more_exprs(a.next).behind(seq![a.tree()], a.errs)
            }
        }
    }

    /// The index behind the bracket that closes the `depth` parentheses that
    /// are open before an index.
    pub open spec fn after_close(self, i: int, depth: int) -> int
        decreases self.rem(i),
    {
        if self.kind(i) == Token::Eof {
            i
        } else if self.kind(i) == Token::LParen {
            self.after_close(i + 1, depth + 1)
        } else if self.kind(i) == Token::RParen {
            if depth <= 1 {
                i + 1
            } else {
                self.after_close(i + 1, depth - 1)
            }
        } else {
            self.after_close(i + 1, depth)
        }
    }

    /// Whether an arrow function starts at an index.
    #[verifier::opaque]
    pub open spec fn arrow_ahead(self, i: int) -> bool {
        if self.kind(i).is_ident_like() {
            self.kind(i + 1) == Token::Arrow
        } else {
            self.kind(i) == Token::LParen && self.kind(self.after_close(i + 1, 1)) == Token::Arrow
        }
    }

    /// An expression without commas.
    #[verifier::opaque]
    pub open spec fn assign(self, i: int) -> Out
        decreases self.rem(i), 6nat,
    {
        proof {
            reveal(assign_op);
        }
        if self.arrow_ahead(i) {
            self.arrow(i)
        } else {
            let a = self.cond(i);
            if !self.ok(i, a) {
                a
            } else {
                match assign_op(self.kind(a.next)) {
                    None => a,
                    Some(op) => if !assignable(a.tree()) {
                        bad(a.tree().span, SyntaxError::NotSimpleAssign, a.next).after(a)
                    } else {
                        let b = self.assign(a.next + 1).after(a);
                        if !self.ok(a.next + 1, b) {
                            b
                        } else {
                            b.grown(
                                node(
                                    Label::Assign { op },
                                    self.span(self.lo(i), b.next),
                                    kids2(a.tree(), b.tree()),
                                ),
                                b.next,
                            )
                        }
                    },
                }
            }
        }
    }

    /// The parameters of an arrow function.
    #[verifier::opaque]
    pub open spec fn arrow_params(self, i: int) -> Out
        decreases self.rem(i), 0nat,
    {
        if self.kind(i) != Token::LParen {
            good(list(seq![self.binding_at(i)]), i + 1)
        } else {
            let l = self.comma_list(ListKind::Params, i + 1);
            if !self.okl(i + 1, l) {
                l
            } else if self.kind(l.next) != Token::RParen {
                self.expected(l.next, Token::RParen).after(l)
            } else {
                l.grown(l.tree(), l.next + 1)
            }
        }
    }

    /// `(params) => body`
    #[verifier::opaque]
    pub open spec fn arrow(self, i: int) -> Out
        decreases self.rem(i), 5nat,
    {
        let p = self.arrow_params(i);
        if !self.ok(i, p) {
            p
        } else if self.kind(p.next) != Token::Arrow {
            self.expected(p.next, Token::Arrow).after(p)
        } else {
            let b = self.arrow_body(p.next + 1).after(p);
            if !self.ok(p.next + 1, b) {
                b
            } else {
                b.grown(
                    node(
                        Label::Arrow { ctxt: SyntaxContext(0) },
                        self.span(self.lo(i), b.next),
                        kids2(p.tree(), b.tree()),
                    ),
                    b.next,
                )
            }
        }
    }

    /// The body of an arrow function.
    #[verifier::opaque]
    pub open spec fn arrow_body(self, i: int) -> Out
        decreases self.rem(i), 7nat,
    {
        if self.kind(i) == Token::LBrace {
            self.block(i)
        } else {
            self.assign(i)
        }
    }

    /// `test ? cons : alt`
    #[verifier::opaque]
    pub open spec fn cond(self, i: int) -> Out
        decreases self.rem(i), 5nat,
    {
        let t = self.bin(i, 0);
        if !self.ok(i, t) || self.kind(t.next) != Token::Question {
            t
        } else {
            let c = self.assign(t.next + 1).after(t);
            if !self.ok(t.next + 1, c) {
                c
            } else if self.kind(c.next) != Token::Colon {
                self.expected(c.next, Token::Colon).after(c)
            } else {
                let a = self.assign(c.next + 1).after(c);
                if !self.ok(c.next + 1, a) {
                    a
                } else {
                    a.grown(
                        node(
                            Label::Cond,
                            self.span(self.lo(i), a.next),
                            kids3(t.tree(), c.tree(), a.tree()),
                        ),
                        a.next,
                    )
                }
            }
        }
    }

    /// Operands and the operators between them that bind more tightly than
    /// `min`.
    #[verifier::opaque]
    pub open spec fn bin(self, i: int, min: int) -> Out
        decreases self.rem(i), 4nat,
    {
        let a = self.unary(i);
        if !self.ok(i, a) {
            a
        } else {
            self.bin_rest(self.lo(i), a, min)
        }
    }

    /// The operators and operands behind the left operand `a`.
    #[verifier::opaque]
    pub open spec fn bin_rest(self, start: BytePos, a: Out, min: int) -> Out
        decreases self.rem(a.next), 1nat,
    {
        match self.bin_step(start, a.tree(), a.next, min) {
            None => a,
            Some(s) => {
                let b = s.after(a);
                if !self.ok(a.next, b) {
                    b
                } else {
                    self.bin_rest(start, b, min)
                }
            },
        }
    }

    /// The operator and the operand behind the left operand `t`.
    #[verifier::opaque]
    pub open spec fn bin_step(self, start: BytePos, t: Tree, i: int, min: int) -> Option<Out>
        decreases self.rem(i), 0nat,
    {
        proof {
            reveal(binary_op);
        }
        let k = self.kind(i);
        if (k == Token::As || k == Token::Satisfies) && !self.nl(i) && min < 7 {
            let y = self.ty(i + 1);
            if !self.ok(i + 1, y) {
                Some(y)
            } else {
                Some(
                    y.grown(
                        node(
                            if k == Token::As {
                                Label::TsAs
                            } else {
                                Label::TsSatisfies
                            },
                            self.span(start, y.next),
                            kids2(t, y.tree()),
                        ),
                        y.next,
                    ),
                )
            }
        } else {
            match binary_op(k) {
                None => None,
                Some(op) => if precedence(op) <= min {
                    None
                } else {
                    let b = self.bin(i + 1, right_precedence(op));
                    if !self.ok(i + 1, b) {
                        Some(b)
                    } else {
                        Some(
                            b.grown(
                                node(
                                    Label::Bin { op },
                                    self.span(start, b.next),
                                    kids2(t, b.tree()),
                                ),
                                b.next,
                            ),
                        )
                    }
                },
            }
        }
    }

    /// Whether the word `not` stands at an index and negates what comes after
    /// it: a word or a literal on the same line.
    #[verifier::opaque]
    pub open spec fn not_operator(self, i: int) -> bool {
        &&& self.zts
        &&& self.kind(i).is_word()
        &&& self.text(i) == "not"@
        &&& !self.nl(i + 1)
        &&& not_operand(self.kind(i + 1))
    }

    /// The operator before an operand at an index.
    #[verifier::opaque]
    pub open spec fn prefix_op(self, i: int) -> Option<UnaryOp> {
        if self.not_operator(i) {
            Some(UnaryOp::Bang)
        } else {
            unary_op(self.kind(i))
        }
    }

    /// An operator before an operand is a token.
    pub proof fn lemma_prefix_op(self, i: int)
        ensures
            self.prefix_op(i) is Some ==> self.kind(i) != Token::Eof,
    {
        reveal(unary_op);
        reveal(Gram::prefix_op);
        reveal(Gram::not_operator);
        reveal(Token::spec_is_word);
    }

    /// An operand with the operators before it.
    #[verifier::opaque]
    pub open spec fn unary(self, i: int) -> Out
        decreases self.rem(i), 3nat,
    {
        proof {
            self.lemma_prefix_op(i);
        }
        match self.prefix_op(i) {
            None => self.subscripts(i),
            Some(op) => {
                let a = self.unary(i + 1);
                if !self.ok(i + 1, a) {
                    a
                } else {
                    a.grown(
                        node(
                            Label::Unary { op },
                            self.span(self.lo(i), a.next),
                            kids1(a.tree()),
                        ),
                        a.next,
                    )
                }
            },
        }
    }

    /// An expression with calls, properties and assertions behind it.
    #[verifier::opaque]
    pub open spec fn subscripts(self, i: int) -> Out
        decreases self.rem(i), 2nat,
    {
        let a = self.primary(i);
        if !self.ok(i, a) {
            a
        } else {
            self.subscripts_rest(self.lo(i), a)
        }
    }

    /// The calls, properties, templates and assertions behind `a`.
    #[verifier::opaque]
    pub open spec fn subscripts_rest(self, start: BytePos, a: Out) -> Out
        decreases self.rem(a.next), 2nat,
    {
        match self.subscript(start, a.tree(), a.next) {
            None => a,
            Some(s) => {
                let b = s.after(a);
                if !self.ok(a.next, b) {
                    b
                } else {
                    self.subscripts_rest(start, b)
                }
            },
        }
    }

    /// The call, property, template or assertion behind the expression `t`.
    #[verifier::opaque]
    pub open spec fn subscript(self, start: BytePos, t: Tree, i: int) -> Option<Out>
        decreases self.rem(i), 1nat,
    {
        let k = self.kind(i);
        if k == Token::Dot {
            let n = self.name(i + 1);
            if !self.ok(i + 1, n) {
                Some(n)
            } else {
                Some(
                    n.grown(
                        node(Label::Member, self.span(start, n.next), kids2(t, n.tree())),
                        n.next,
                    ),
                )
            }
        } else if k == Token::LBracket {
            let e = self.expr(i + 1);
            if !self.ok(i + 1, e) {
                Some(e)
            } else if self.kind(e.next) != Token::RBracket {
                Some(self.expected(e.next, Token::RBracket).after(e))
            } else {
                Some(
                    e.grown(
                        node(
                            Label::Member,
                            self.span(start, e.next + 1),
                            kids2(
                                t,
                                node(
                                    Label::ComputedProp,
                                    self.span(self.lo(i), e.next + 1),
                                    kids1(e.tree()),
                                ),
                            ),
                        ),
                        e.next + 1,
                    ),
                )
            }
        } else if k == Token::LParen {
            let l = self.comma_list(ListKind::Args, i + 1);
            if !self.okl(i + 1, l) {
                Some(l)
            } else if self.kind(l.next) != Token::RParen {
                Some(self.expected(l.next, Token::RParen).after(l))
            } else {
                Some(
                    l.grown(
                        node(
                            Label::Call { ctxt: SyntaxContext(0) },
                            self.span(start, l.next + 1),
                            kids2(t, l.tree()),
                        ),
                        l.next + 1,
                    ),
                )
            }
        } else if template_start(k) {
            let l = self.tpl(i);
            if !self.ok(i, l) {
                Some(l)
            } else {
                Some(
                    l.grown(
                        node(
                            Label::TaggedTpl { ctxt: SyntaxContext(0) },
                            self.span(start, l.next),
                            kids2(t, l.tree()),
                        ),
                        l.next,
                    ),
                )
            }
        } else if k == Token::Bang && !self.nl(i) {
            Some(good(node(Label::TsNonNull, self.span(start, i + 1), kids1(t)), i + 1))
        } else {
            None
        }
    }

    /// An expression that is one piece.
    #[verifier::opaque]
    pub open spec fn primary(self, i: int) -> Out
        decreases self.rem(i), 1nat,
    {
        let k = self.kind(i);
        let h = self.match_header(i);
        if self.zts && k == Token::If {
            self.if_expr(i, self.lo(i))
        } else if self.match_keyword(i) && h is Some && self.ok(i, h->0) {
            self.match_body(self.lo(i), h->0)
        } else if k.is_ident_like() {
            good(self.ident_at(i), i + 1)
        } else if is_lit(k) {
            good(self.lit_at(i), i + 1)
        } else if k == Token::LParen {
            self.paren(i)
        } else if k == Token::LBracket {
            self.array(i)
        } else if k == Token::LBrace {
            self.object(i)
        } else if template_start(k) {
            self.tpl(i)
        } else {
            bad(self.span_at(i), SyntaxError::TS1109, i)
        }
    }

    /// The tree of the piece of a template at an index.
    pub open spec fn quasi_at(self, i: int) -> Tree {
        leaf(
            Label::TplElement {
                tail: self.kind(i) == Token::NoSubstitutionTemplate || self.kind(i)
                    == Token::TemplateTail,
                raw: self.text(i),
            },
            self.span_at(i),
        )
    }

    /// A template.
    #[verifier::opaque]
    pub open spec fn tpl(self, i: int) -> Out
        decreases self.rem(i), 0nat,
    {
        if self.kind(i) == Token::NoSubstitutionTemplate {
            good(
                node(
                    Label::Tpl,
                    self.span(self.lo(i), i + 1),
                    kids2(list(Seq::empty()), list(seq![self.quasi_at(i)])),
                ),
                i + 1,
            )
        } else if self.kind(i) == Token::TemplateHead {
            self.tpl_rest(
                self.lo(i),
                Seq::empty(),
                seq![self.quasi_at(i)],
                i + 1,
                Seq::empty(),
            )
        } else {
            self.expected(i, Token::NoSubstitutionTemplate)
        }
    }

    /// The rest of a template whose expressions `es` and pieces `qs` have been
    /// parsed, with the errors `errs` reported: an expression stands at `i`.
    #[verifier::opaque]
    pub open spec fn tpl_rest(
        self,
        start: BytePos,
        es: Seq<Tree>,
        qs: Seq<Tree>,
        i: int,
        errs: Seq<Error>,
    ) -> Out
        decreases self.rem(i), 8nat,
    {
        let x = self.expr(i);
        let e = Out { res: x.res, next: x.next, errs: errs + x.errs };
        if !self.ok(i, e) {
            e
        } else {
            let es = es.push(e.tree());
            let qs = qs.push(self.quasi_at(e.next));
            if self.kind(e.next) == Token::TemplateTail {
                e.grown(
                    node(Label::Tpl, self.span(start, e.next + 1), kids2(list(es), list(qs))),
                    e.next + 1,
                )
            } else if self.kind(e.next) == Token::TemplateMiddle {
                self.tpl_rest(start, es, qs, e.next + 1, e.errs)
            } else {
                self.expected(e.next, Token::TemplateTail).after(e)
            }
        }
    }

    /// `(expr)`
    #[verifier::opaque]
    pub open spec fn paren(self, i: int) -> Out
        decreases self.rem(i), 0nat,
    {
        if self.kind(i) != Token::LParen {
            self.expected(i, Token::LParen)
        } else {
            let e = self.expr(i + 1);
            if !self.ok(i + 1, e) {
                e
            } else if self.kind(e.next) != Token::RParen {
                self.expected(e.next, Token::RParen).after(e)
            } else {
                e.grown(
                    node(Label::Paren, self.span(self.lo(i), e.next + 1), kids1(e.tree())),
                    e.next + 1,
                )
            }
        }
    }

    /// `[a, b]`
    #[verifier::opaque]
    pub open spec fn array(self, i: int) -> Out
        decreases self.rem(i), 0nat,
    {
        if self.kind(i) != Token::LBracket {
            self.expected(i, Token::LBracket)
        } else {
            let l = self.comma_list(ListKind::Elems, i + 1);
            if !self.okl(i + 1, l) {
                l
            } else if self.kind(l.next) != Token::RBracket {
                self.expected(l.next, Token::RBracket).after(l)
            } else {
                l.grown(
                    node(Label::Array, self.span(self.lo(i), l.next + 1), l.tree().kids),
                    l.next + 1,
                )
            }
        }
    }

    /// `{ a, b: c }`
    #[verifier::opaque]
    pub open spec fn object(self, i: int) -> Out
        decreases self.rem(i), 0nat,
    {
        if self.kind(i) != Token::LBrace {
            self.expected(i, Token::LBrace)
        } else {
            let l = self.comma_list(ListKind::Props, i + 1);
            if !self.okl(i + 1, l) {
                l
            } else if self.kind(l.next) != Token::RBrace {
                self.expected(l.next, Token::RBrace).after(l)
            } else {
                l.grown(
                    node(Label::Object, self.span(self.lo(i), l.next + 1), l.tree().kids),
                    l.next + 1,
                )
            }
        }
    }

    /// The name of a property: a word, a string or a number.
    pub open spec fn prop_name(self, i: int) -> Out {
        if self.kind(i) == Token::Str || self.kind(i) == Token::Num {
            good(self.lit_at(i), i + 1)
        } else {
            self.name(i)
        }
    }

    /// One property of an object literal.
    #[verifier::opaque]
    pub open spec fn prop(self, i: int) -> Out
        decreases self.rem(i), 0nat,
    {
        if self.kind(i).is_ident_like() && self.kind(i + 1) != Token::Colon {
            good(self.ident_at(i), i + 1)
        } else {
            let n = self.prop_name(i);
            if !self.ok(i, n) {
                n
            } else if self.kind(n.next) != Token::Colon {
                self.expected(n.next, Token::Colon).after(n)
            } else {
                let a = self.assign(n.next + 1).after(n);
                if !self.ok(n.next + 1, a) {
                    a
                } else {
                    a.grown(
                        node(
                            Label::KeyValueProp,
                            Span::spec_dummy(),
                            kids2(n.tree(), a.tree()),
                        ),
                        a.next,
                    )
                }
            }
        }
    }

    // Match expressions.

    /// Whether the word `match` stands at an index with `(` next to it, so that
    /// a match expression could start there.
    #[verifier::opaque]
    pub open spec fn match_keyword(self, i: int) -> bool {
        &&& self.zts
        &&& self.kind(i).is_word()
        &&& self.text(i) == "match"@
        &&& self.kind(i + 1) == Token::LParen
    }

    /// The discriminant of a match expression, up to the `{` that opens the
    /// body; nothing where what follows the word at `i` is no header. The `{`
    /// has to stand on the line of the `)`, and an arm has to start behind it.
    #[verifier::opaque]
    pub open spec fn match_header(self, i: int) -> Option<Out>
        decreases self.rem(i), 0nat,
    {
        if self.kind(i) == Token::Eof || self.kind(i + 1) != Token::LParen {
            None
        } else {
            let d = self.expr(i + 2);
            if !self.ok(i + 2, d) || self.kind(d.next) != Token::RParen {
                None
            } else if self.kind(d.next + 1) != Token::LBrace || self.nl(d.next + 1) {
                None
            } else if !arm_starter(self.kind(d.next + 2)) {
                None
            } else {
                Some(d.grown(d.tree(), d.next + 1))
            }
        }
    }

    /// `{ Arm, Arm, }` behind the header `d`.
    #[verifier::opaque]
    pub open spec fn match_body(self, start: BytePos, d: Out) -> Out
        decreases self.rem(d.next), 0nat,
    {
        if self.kind(d.next) != Token::LBrace {
            self.expected(d.next, Token::LBrace).after(d)
        } else {
            let l = self.comma_list(ListKind::Arms, d.next + 1).after(d);
            if !self.okl(d.next + 1, l) {
                l
            } else if self.kind(l.next) != Token::RBrace {
                self.expected(l.next, Token::RBrace).after(l)
            } else {
                l.grown(
                    node(
                        Label::Match,
                        self.span(start, l.next + 1),
                        kids2(d.tree(), l.tree()),
                    ),
                    l.next + 1,
                )
            }
        }
    }

    /// `pattern => body`. A body that starts with `{` is a block with a value,
    /// but not one that could be read as an object literal.
    #[verifier::opaque]
    pub open spec fn arm(self, i: int) -> Out
        decreases self.rem(i), 7nat,
    {
        let p = self.match_pattern(i);
        if !self.ok(i, p) {
            p
        } else if self.kind(p.next) != Token::Arrow {
            self.expected(p.next, Token::Arrow).after(p)
        } else {
            let b = self.arm_body(p.next + 1).after(p);
            if !self.ok(p.next + 1, b) {
                b
            } else {
                b.grown(
                    node(
                        Label::MatchArm,
                        self.span(self.lo(i), b.next),
                        kids2(p.tree(), b.tree()),
                    ),
                    b.next,
                )
            }
        }
    }

    /// The body of a match arm.
    #[verifier::opaque]
    pub open spec fn arm_body(self, i: int) -> Out
        decreases self.rem(i), 7nat,
    {
        if self.kind(i) != Token::LBrace {
            self.assign(i)
        } else {
            let b = self.expr_block(i);
            if self.ok(i, b) && ambiguous_block(b.tree()) {
                bad(b.tree().span, SyntaxError::ZtsAmbiguousArmBody, b.next).after(b)
            } else {
                b
            }
        }
    }

    /// `_`, a literal, or `Variant { bindings }`.
    #[verifier::opaque]
    pub open spec fn match_pattern(self, i: int) -> Out
        decreases self.rem(i), 1nat,
    {
        let k = self.kind(i);
        if k.is_word() && self.text(i) == "_"@ && self.kind(i + 1) == Token::Arrow {
            good(leaf(Label::MatchWildcard, self.span(self.lo(i), i + 1)), i + 1)
        } else if k == Token::Str || k == Token::Num || k == Token::True || k == Token::False || k
            == Token::Null {
            good(
                node(
                    Label::MatchLit { neg: false },
                    self.span(self.lo(i), i + 1),
                    kids1(self.lit_at(i)),
                ),
                i + 1,
            )
        } else if k == Token::Minus {
            if self.kind(i + 1) != Token::Num {
                bad(self.span(self.lo(i), i + 1), SyntaxError::TS1109, i + 1)
            } else {
                good(
                    node(
                        Label::MatchLit { neg: true },
                        self.span(self.lo(i), i + 2),
                        kids1(self.lit_at(i + 1)),
                    ),
                    i + 2,
                )
            }
        } else {
            let n = self.decl_name(i);
            if !self.ok(i, n) {
                n
            } else {
                let b = self.object_pat(n.next).after(n);
                if !self.ok(n.next, b) {
                    b
                } else {
                    b.grown(
                        node(
                            Label::MatchVariant,
                            self.span(self.lo(i), b.next),
                            kids2(n.tree(), b.tree()),
                        ),
                        b.next,
                    )
                }
            }
        }
    }

    // Conditional expressions and blocks with a value.

    /// `if (test) { ... } else { ... }` as an expression.
    #[verifier::opaque]
    pub open spec fn if_expr(self, i: int, start: BytePos) -> Out
        decreases self.rem(i), 0nat,
    {
        if self.kind(i) != Token::If {
            self.expected(i, Token::If)
        } else if self.kind(i + 1) != Token::LParen {
            self.expected(i + 1, Token::LParen)
        } else {
            let t = self.expr(i + 2);
            if !self.ok(i + 2, t) {
                t
            } else if self.kind(t.next) != Token::RParen {
                self.expected(t.next, Token::RParen).after(t)
            } else {
                let c = self.expr_block(t.next + 1).after(t);
                if !self.ok(t.next + 1, c) {
                    c
                } else if self.kind(c.next) != Token::Else {
                    bad(self.span(start, c.next), SyntaxError::ZtsIfWithoutElse, c.next).after(c)
                } else {
                    let a = if self.kind(c.next + 1) == Token::If {
                        self.if_expr(c.next + 1, self.lo(c.next + 1)).after(c)
                    } else {
                        self.expr_block(c.next + 1).after(c)
                    };
                    if !self.ok(c.next + 1, a) {
                        a
                    } else {
                        a.grown(
                            node(
                                Label::ZtsIf,
                                self.span(start, a.next),
                                kids3(t.tree(), c.tree(), a.tree()),
                            ),
                            a.next,
                        )
                    }
                }
            }
        }
    }

    /// `{ stmts...; tail }`, a block whose value is its last expression.
    #[verifier::opaque]
    pub open spec fn expr_block(self, i: int) -> Out
        decreases self.rem(i), 1nat,
    {
        let b = self.block(i);
        if !self.ok(i, b) {
            b
        } else {
            let ss = b.tree().kids[0].kids;
            if ss.len() > 0 && ss.last().label is ExprStmt {
                b.grown(
                    node(
                        Label::ZtsExprBlock,
                        self.span(self.lo(i), b.next),
                        kids2(list(ss.drop_last()), ss.last().kids[0]),
                    ),
                    b.next,
                )
            } else {
                bad(
                    self.span(self.lo(i), b.next),
                    SyntaxError::ZtsBlockWithoutTail,
                    b.next,
                ).after(b)
            }
        }
    }

    // Enums and newtypes.

    /// What comes behind the word `enum`.
    #[verifier::opaque]
    pub open spec fn any_enum(self, i: int, start: BytePos, is_const: bool, declare: bool) -> Out
        decreases self.rem(i), 8nat,
    {
        if self.zts {
            self.zts_enum(i, start, is_const, declare)
        } else {
            self.ts_enum(i, start, is_const, declare)
        }
    }

    /// `Shape { Circle { radius: number } }`
    #[verifier::opaque]
    pub open spec fn zts_enum(self, i: int, start: BytePos, is_const: bool, declare: bool) -> Out
        decreases self.rem(i), 0nat,
    {
        if declare {
            bad(self.span(start, i), SyntaxError::ZtsDeclareEnum, i)
        } else {
            let n = Out {
                errs: if is_const {
                    seq![Error { span: self.span(start, i), error: SyntaxError::ZtsConstEnum }]
                } else {
                    Seq::empty()
                },
                ..self.decl_name(i)
            };
            if !self.ok(i, n) {
                n
            } else if self.kind(n.next) != Token::LBrace {
                self.expected(n.next, Token::LBrace).after(n)
            } else {
                let l = self.comma_list(ListKind::Variants, n.next + 1).after(n);
                if !self.okl(n.next + 1, l) {
                    l
                } else if self.kind(l.next) != Token::RBrace {
                    self.expected(l.next, Token::RBrace).after(l)
                } else {
                    l.grown(
                        node(
                            Label::ZtsEnum,
                            self.span(start, l.next + 1),
                            kids2(n.tree(), l.tree()),
                        ),
                        l.next + 1,
                    )
                }
            }
        }
    }

    /// `Variant { field: Type, ... }`
    #[verifier::opaque]
    pub open spec fn variant(self, i: int) -> Out
        decreases self.rem(i), 0nat,
    {
        let n = self.decl_name(i);
        if !self.ok(i, n) {
            n
        } else if self.kind(n.next) != Token::LBrace {
            bad(self.span(self.lo(i), n.next), SyntaxError::ZtsEnumVariantBody, n.next)
        } else {
            let l = self.comma_list(ListKind::Fields, n.next + 1);
            if !self.okl(n.next + 1, l) {
                l
            } else if self.kind(l.next) != Token::RBrace {
                self.expected(l.next, Token::RBrace).after(l)
            } else {
                l.grown(
                    node(
                        Label::ZtsEnumVariant,
                        self.span(self.lo(i), l.next + 1),
                        kids2(n.tree(), l.tree()),
                    ),
                    l.next + 1,
                )
            }
        }
    }

    /// `field: Type`
    #[verifier::opaque]
    pub open spec fn field(self, i: int) -> Out {
        let n = self.name(i);
        if !self.ok(i, n) {
            n
        } else if self.kind(n.next) != Token::Colon {
            self.expected(n.next, Token::Colon)
        } else {
            let t = self.ty(n.next + 1);
            if !self.ok(n.next + 1, t) {
                t
            } else {
                t.grown(
                    node(
                        Label::ZtsEnumField,
                        self.span(self.lo(i), t.next),
                        kids2(n.tree(), t.tree()),
                    ),
                    t.next,
                )
            }
        }
    }

    /// `AccountId = string;`
    #[verifier::opaque]
    pub open spec fn newtype(self, i: int, start: BytePos, declare: bool) -> Out {
        if declare {
            bad(self.span(start, i), SyntaxError::ZtsDeclareNewtype, i)
        } else {
            let n = self.decl_name(i);
            if !self.ok(i, n) {
                n
            } else if self.kind(n.next) != Token::Eq {
                self.expected(n.next, Token::Eq)
            } else {
                let t = self.ty(n.next + 1);
                if !self.ok(n.next + 1, t) {
                    t
                } else {
                    match self.semi(t.next) {
                        None => self.no_semi(t.next).after(t),
                        Some(s) => t.grown(
                            node(
                                Label::ZtsNewtype,
                                self.span(start, s),
                                kids2(n.tree(), t.tree()),
                            ),
                            s,
                        ),
                    }
                }
            }
        }
    }

    /// `Color { Red, Green = 2 }`
    #[verifier::opaque]
    pub open spec fn ts_enum(self, i: int, start: BytePos, is_const: bool, declare: bool) -> Out
        decreases self.rem(i), 0nat,
    {
        let n = self.decl_name(i);
        if !self.ok(i, n) {
            n
        } else if self.kind(n.next) != Token::LBrace {
            self.expected(n.next, Token::LBrace)
        } else {
            let l = self.comma_list(ListKind::TsMembers, n.next + 1);
            if !self.okl(n.next + 1, l) {
                l
            } else if self.kind(l.next) != Token::RBrace {
                self.expected(l.next, Token::RBrace).after(l)
            } else {
                l.grown(
                    node(
                        Label::TsEnum { declare, is_const },
                        self.span(start, l.next + 1),
                        kids2(n.tree(), l.tree()),
                    ),
                    l.next + 1,
                )
            }
        }
    }

    /// `Green = 2`
    #[verifier::opaque]
    pub open spec fn ts_member(self, i: int) -> Out
        decreases self.rem(i), 0nat,
    {
        let n = self.prop_name(i);
        if !self.ok(i, n) {
            n
        } else if self.kind(n.next) != Token::Eq {
            n.grown(
                node(
                    Label::TsEnumMember,
                    self.span(self.lo(i), n.next),
                    kids2(n.tree(), absent()),
                ),
                n.next,
            )
        } else {
            let a = self.assign(n.next + 1).after(n);
            if !self.ok(n.next + 1, a) {
                a
            } else {
                a.grown(
                    node(
                        Label::TsEnumMember,
                        self.span(self.lo(i), a.next),
                        kids2(n.tree(), a.tree()),
                    ),
                    a.next,
                )
            }
        }
    }

    // Statements.

    /// `{ stmts }`
    #[verifier::opaque]
    pub open spec fn block(self, i: int) -> Out
        decreases self.rem(i), 0nat,
    {
        if self.kind(i) != Token::LBrace {
            self.expected(i, Token::LBrace)
        } else {
            let l = self.stmts(i + 1);
            if !self.okl(i + 1, l) {
                l
            } else if self.kind(l.next) != Token::RBrace {
                self.expected(l.next, Token::RBrace).after(l)
            } else {
                l.grown(
                    node(
                        Label::Block { ctxt: SyntaxContext(0) },
                        self.span(self.lo(i), l.next + 1),
                        kids1(l.tree()),
                    ),
                    l.next + 1,
                )
            }
        }
    }

    /// The statements of a block, up to the closing brace.
    #[verifier::opaque]
    pub open spec fn stmts(self, i: int) -> Out
        decreases self.rem(i), 12nat,
    {
        if self.kind(i) == Token::RBrace || self.kind(i) == Token::Eof {
            good(list(Seq::empty()), i)
        } else {
            let s = self.stmt(i, true);
            if !self.ok(i, s) {
                s
            } else {
                self.stmts(s.next).behind(seq![s.tree()], s.errs)
            }
        }
    }

    /// A statement. `top` says whether declarations may stand here.
    #[verifier::opaque]
    pub open spec fn stmt(self, i: int, top: bool) -> Out
        decreases self.rem(i), 10nat,
    {
        let k = self.kind(i);
        if k == Token::LBrace {
            self.block(i)
        } else if k == Token::Semi {
            good(leaf(Label::Empty, self.span(self.lo(i), i + 1)), i + 1)
        } else if k == Token::If {
            self.if_stmt(i)
        } else if k == Token::While {
            self.while_stmt(i)
        } else if k == Token::For {
            self.for_stmt(i)
        } else if k == Token::Enum || k == Token::Const || k == Token::Let {
            if !top {
                bad(self.span_at(i), SyntaxError::DeclNotAllowed, i)
            } else if k == Token::Enum {
                self.any_enum(i + 1, self.lo(i), false, false)
            } else if k == Token::Const && self.kind(i + 1) == Token::Enum {
                self.any_enum(i + 2, self.lo(i), true, false)
            } else {
                self.var_stmt(i)
            }
        } else if k == Token::Var {
            self.var_stmt(i)
        } else {
            self.expr_stmt(i, top)
        }
    }

    /// A parenthesized expression in the head of a statement.
    #[verifier::opaque]
    pub open spec fn head(self, i: int) -> Out
        decreases self.rem(i), 0nat,
    {
        if self.kind(i) != Token::LParen {
            self.expected(i, Token::LParen)
        } else {
            let e = self.expr(i + 1);
            if !self.ok(i + 1, e) {
                e
            } else if self.kind(e.next) != Token::RParen {
                self.expected(e.next, Token::RParen).after(e)
            } else {
                e.grown(e.tree(), e.next + 1)
            }
        }
    }

    /// `if (test) cons else alt`
    #[verifier::opaque]
    pub open spec fn if_stmt(self, i: int) -> Out
        decreases self.rem(i), 0nat,
    {
        if self.kind(i) != Token::If {
            self.expected(i, Token::If)
        } else {
            let t = self.head(i + 1);
            if !self.ok(i + 1, t) {
                t
            } else {
                let c = self.stmt(t.next, false).after(t);
                if !self.ok(t.next, c) {
                    c
                } else if self.kind(c.next) != Token::Else {
                    c.grown(
                        node(
                            Label::If,
                            self.span(self.lo(i), c.next),
                            kids3(t.tree(), c.tree(), absent()),
                        ),
                        c.next,
                    )
                } else {
                    let a = self.stmt(c.next + 1, false).after(c);
                    if !self.ok(c.next + 1, a) {
                        a
                    } else {
                        a.grown(
                            node(
                                Label::If,
                                self.span(self.lo(i), a.next),
                                kids3(t.tree(), c.tree(), a.tree()),
                            ),
                            a.next,
                        )
                    }
                }
            }
        }
    }

    /// `while (test) body`
    #[verifier::opaque]
    pub open spec fn while_stmt(self, i: int) -> Out
        decreases self.rem(i), 0nat,
    {
        if self.kind(i) != Token::While {
            self.expected(i, Token::While)
        } else {
            let t = self.head(i + 1);
            if !self.ok(i + 1, t) {
                t
            } else {
                let b = self.stmt(t.next, false).after(t);
                if !self.ok(t.next, b) {
                    b
                } else {
                    b.grown(
                        node(
                            Label::While,
                            self.span(self.lo(i), b.next),
                            kids2(t.tree(), b.tree()),
                        ),
                        b.next,
                    )
                }
            }
        }
    }

    /// An expression, up to a token; or nothing, where that token comes at once.
    #[verifier::opaque]
    pub open spec fn opt_expr(self, i: int, stop: Token) -> Out
        decreases self.rem(i), 8nat,
    {
        if self.kind(i) == stop {
            good(absent(), i)
        } else {
            let e = self.expr(i);
            if !self.ok(i, e) {
                e
            } else if self.kind(e.next) != stop {
                self.expected(e.next, stop).after(e)
            } else {
                e
            }
        }
    }

    /// What a `for` statement starts with.
    #[verifier::opaque]
    pub open spec fn for_init(self, i: int) -> Out
        decreases self.rem(i), 9nat,
    {
        if var_kind(self.kind(i)) is Some {
            let v = self.var_decl(i);
            if !self.ok(i, v) {
                v
            } else if self.kind(v.next) != Token::Semi {
                self.expected(v.next, Token::Semi).after(v)
            } else {
                v
            }
        } else {
            self.opt_expr(i, Token::Semi)
        }
    }

    /// `for (init; test; update) body`
    #[verifier::opaque]
    pub open spec fn for_stmt(self, i: int) -> Out
        decreases self.rem(i), 0nat,
    {
        if self.kind(i) != Token::For {
            self.expected(i, Token::For)
        } else if self.kind(i + 1) != Token::LParen {
            self.expected(i + 1, Token::LParen)
        } else {
            let n = self.for_init(i + 2);
            if !self.okl(i + 2, n) || self.kind(n.next) == Token::Eof {
                n
            } else {
                let t = self.opt_expr(n.next + 1, Token::Semi).after(n);
                if !self.okl(n.next + 1, t) || self.kind(t.next) == Token::Eof {
                    t
                } else {
                    let u = self.opt_expr(t.next + 1, Token::RParen).after(t);
                    if !self.okl(t.next + 1, u) || self.kind(u.next) == Token::Eof {
                        u
                    } else {
                        let b = self.stmt(u.next + 1, false).after(u);
                        if !self.ok(u.next + 1, b) {
                            b
                        } else {
                            b.grown(
                                node(
                                    Label::For,
                                    self.span(self.lo(i), b.next),
                                    kids4(n.tree(), t.tree(), u.tree(), b.tree()),
                                ),
                                b.next,
                            )
                        }
                    }
                }
            }
        }
    }

    /// `const a = 1, b = 2`
    #[verifier::opaque]
    pub open spec fn var_decl(self, i: int) -> Out
        decreases self.rem(i), 0nat,
    {
        proof {
            reveal(var_kind);
        }
        match var_kind(self.kind(i)) {
            None => self.expected(i, Token::Var),
            Some(kind) => {
                let l = self.declarators(i + 1);
                if !self.okl(i + 1, l) {
                    l
                } else {
                    l.grown(
                        node(
                            Label::Var { ctxt: SyntaxContext(0), kind, declare: false },
                            self.span(self.lo(i), l.next),
                            l.tree().kids,
                        ),
                        l.next,
                    )
                }
            },
        }
    }

    /// `a = 1, b = 2`
    #[verifier::opaque]
    pub open spec fn declarators(self, i: int) -> Out
        decreases self.rem(i), 5nat,
    {
        let d = self.declarator(i);
        if !self.ok(i, d) {
            d
        } else if self.kind(d.next) != Token::Comma {
            d.grown(list(seq![d.tree()]), d.next)
        } else {
            self.declarators(d.next + 1).behind(seq![d.tree()], d.errs)
        }
    }

    /// `a = 1`
    #[verifier::opaque]
    pub open spec fn declarator(self, i: int) -> Out
        decreases self.rem(i), 4nat,
    {
        let b = self.binding(i);
        if !self.ok(i, b) {
            b
        } else if self.kind(b.next) != Token::Eq {
            b.grown(
                node(
                    Label::Declarator { definite: false },
                    self.span(self.lo(i), b.next),
                    kids2(b.tree(), absent()),
                ),
                b.next,
            )
        } else {
            let a = self.assign(b.next + 1).after(b);
            if !self.ok(b.next + 1, a) {
                a
            } else {
                a.grown(
                    node(
                        Label::Declarator { definite: false },
                        self.span(self.lo(i), a.next),
                        kids2(b.tree(), a.tree()),
                    ),
                    a.next,
                )
            }
        }
    }

    /// `const a = 1;`
    #[verifier::opaque]
    pub open spec fn var_stmt(self, i: int) -> Out
        decreases self.rem(i), 1nat,
    {
        let v = self.var_decl(i);
        if !self.ok(i, v) {
            v
        } else {
            match self.semi(v.next) {
                None => self.no_semi(v.next).after(v),
                Some(s) => v.grown(
                    node(v.tree().label, self.span(self.lo(i), s), v.tree().kids),
                    s,
                ),
            }
        }
    }

    /// Whether the word `newtype` stands at an index and declares what comes
    /// after it: an identifier on the same line.
    #[verifier::opaque]
    pub open spec fn newtype_ahead(self, i: int) -> bool {
        &&& self.zts
        &&& self.kind(i).is_ident_like()
        &&& self.text(i) == "newtype"@
        &&& self.kind(i + 1).is_ident_like()
        &&& !self.nl(i + 1)
    }

    /// A statement that starts with an expression.
    #[verifier::opaque]
    pub open spec fn expr_stmt(self, i: int, top: bool) -> Out
        decreases self.rem(i), 9nat,
    {
        let e = self.expr(i);
        if !self.ok(i, e) {
            e
        } else if e.tree().label is Ident && self.kind(e.next) == Token::Colon {
            let b = self.stmt(e.next + 1, false).after(e);
            if !self.ok(e.next + 1, b) {
                b
            } else {
                b.grown(
                    node(
                        Label::Labeled,
                        self.span(self.lo(i), b.next),
                        kids2(e.tree(), b.tree()),
                    ),
                    b.next,
                )
            }
        } else if top && is_ident_named(e.tree(), "declare"@) && !self.nl(e.next) && self.kind(
            e.next,
        ) == Token::Enum {
            self.any_enum(e.next + 1, self.lo(i), false, true).after(e)
        } else if top && is_ident_named(e.tree(), "declare"@) && !self.nl(e.next) && self.kind(
            e.next,
        ) == Token::Const && self.kind(e.next + 1) == Token::Enum {
            self.any_enum(e.next + 2, self.lo(i), true, true).after(e)
        } else if top && is_ident_named(e.tree(), "declare"@) && !self.nl(e.next)
            && self.newtype_ahead(e.next) {
            self.newtype(e.next + 1, self.lo(i), true).after(e)
        } else if self.zts && top && is_ident_named(e.tree(), "newtype"@) && !self.nl(e.next)
            && self.kind(e.next).is_ident_like() {
            self.newtype(e.next, self.lo(i), false).after(e)
        } else {
            match self.semi(e.next) {
                None => self.no_semi(e.next).after(e),
                Some(s) => e.grown(
                    node(Label::ExprStmt, self.span(self.lo(i), s), kids1(e.tree())),
                    s,
                ),
            }
        }
    }

    // Modules.

    /// A module, up to the end of the source text.
    #[verifier::opaque]
    pub open spec fn module(self, i: int) -> Out {
        let l = self.items(i);
        if !self.okl(i, l) {
            l
        } else {
            l.grown(node(Label::Module, self.span(self.lo(i), l.next), l.tree().kids), l.next)
        }
    }

    /// The items of a module.
    #[verifier::opaque]
    pub open spec fn items(self, i: int) -> Out
        decreases self.rem(i),
    {
        if self.kind(i) == Token::Eof {
            good(list(Seq::empty()), i)
        } else {
            let s = self.item(i);
            if !self.ok(i, s) {
                s
            } else {
                self.items(s.next).behind(seq![s.tree()], s.errs)
            }
        }
    }

    /// One item of a module.
    #[verifier::opaque]
    pub open spec fn item(self, i: int) -> Out {
        if self.kind(i) == Token::Export {
            self.export(i)
        } else {
            self.stmt(i, true)
        }
    }

    /// `export default expr;` or `export decl`
    #[verifier::opaque]
    pub open spec fn export(self, i: int) -> Out {
        if self.kind(i + 1) == Token::Default {
            let e = self.assign(i + 2);
            if !self.ok(i + 2, e) {
                e
            } else {
                match self.semi(e.next) {
                    None => self.no_semi(e.next).after(e),
                    Some(s) => e.grown(
                        node(
                            Label::ExportDefaultExpr,
                            self.span(self.lo(i), s),
                            kids1(e.tree()),
                        ),
                        s,
                    ),
                }
            }
        } else {
            let d = self.export_decl(i + 1);
            if !self.ok(i + 1, d) {
                d
            } else {
                d.grown(
                    node(Label::ExportDecl, self.span(self.lo(i), d.next), kids1(d.tree())),
                    d.next,
                )
            }
        }
    }

    /// A declaration behind `export`.
    #[verifier::opaque]
    pub open spec fn export_decl(self, i: int) -> Out {
        let k = self.kind(i);
        if k == Token::Enum {
            self.any_enum(i + 1, self.lo(i), false, false)
        } else if k == Token::Const && self.kind(i + 1) == Token::Enum {
            self.any_enum(i + 2, self.lo(i), true, false)
        } else if var_kind(k) is Some {
            self.var_stmt(i)
        } else if self.newtype_ahead(i) {
            self.newtype(i + 1, self.lo(i), false)
        } else {
            bad(self.span_at(i), SyntaxError::DeclarationExpected, i)
        }
    }

    /// What an expression is made of.
    pub proof fn lemma_expr(self, i: int)
        ensures
            self.expr(i) == ({
                let a = self.assign(i);
                if !self.ok(i, a) || self.kind(a.next) != Token::Comma {
                    a
                } else {
                    let r = self.more_exprs(a.next).behind(seq![a.tree()], a.errs);
                    if !self.okl(a.next, r) {
                        r
                    } else {
                        r.grown(
                            node(Label::SeqExpr, self.span(self.lo(i), r.next), r.tree().kids),
                            r.next,
                        )
                    }
                }
            }),
    {
        reveal(Gram::expr);
        reveal(Gram::assign);
        reveal(Gram::more_exprs);
    }

    /// What the rest of a comma sequence is made of.
    pub proof fn lemma_more_exprs(self, i: int)
        ensures
            self.more_exprs(i) == ({
                if self.kind(i) != Token::Comma {
                    good(list(Seq::empty()), i)
                } else {
                    let a = self.assign(i + 1);
                    if !self.ok(i + 1, a) {
                        a
                    } else {
                        self.more_exprs(a.next).behind(seq![a.tree()], a.errs)
                    }
                }
            }),
    {
        reveal(Gram::more_exprs);
        reveal(Gram::assign);
    }

    /// What operands and operators are made of.
    pub proof fn lemma_bin(self, i: int, min: int)
        ensures
            self.bin(i, min) == ({
                let a = self.unary(i);
                if !self.ok(i, a) {
                    a
                } else {
                    self.bin_rest(self.lo(i), a, min)
                }
            }),
    {
        reveal(Gram::bin);
        reveal(Gram::unary);
        reveal(Gram::bin_rest);
    }

    /// What the operators behind an operand are made of.
    pub proof fn lemma_bin_rest(self, start: BytePos, a: Out, min: int)
        ensures
            self.bin_rest(start, a, min) == ({
                match self.bin_step(start, a.tree(), a.next, min) {
                    None => a,
                    Some(s) => {
                        let b = s.after(a);
                        if !self.ok(a.next, b) {
                            b
                        } else {
                            self.bin_rest(start, b, min)
                        }
                    },
                }
            }),
    {
        reveal(Gram::bin_rest);
        reveal(Gram::bin_step);
    }

    /// What an expression with subscripts is made of.
    pub proof fn lemma_subscripts(self, i: int)
        ensures
            self.subscripts(i) == ({
                let a = self.primary(i);
                if !self.ok(i, a) {
                    a
                } else {
                    self.subscripts_rest(self.lo(i), a)
                }
            }),
    {
        reveal(Gram::subscripts);
        reveal(Gram::primary);
        reveal(Gram::subscripts_rest);
    }

    /// What the subscripts are made of.
    pub proof fn lemma_subscripts_rest(self, start: BytePos, a: Out)
        ensures
            self.subscripts_rest(start, a) == ({
                match self.subscript(start, a.tree(), a.next) {
                    None => a,
                    Some(s) => {
                        let b = s.after(a);
                        if !self.ok(a.next, b) {
                            b
                        } else {
                            self.subscripts_rest(start, b)
                        }
                    },
                }
            }),
    {
        reveal(Gram::subscripts_rest);
        reveal(Gram::subscript);
    }

    /// What an expression that is one piece is made of.
    pub proof fn lemma_primary(self, i: int)
        ensures
            self.primary(i) == ({
                let k = self.kind(i);
                let h = self.match_header(i);
                if self.zts && k == Token::If {
                    self.if_expr(i, self.lo(i))
                } else if self.match_keyword(i) && h is Some && self.ok(i, h->0) {
                    self.match_body(self.lo(i), h->0)
                } else if k.is_ident_like() {
                    good(self.ident_at(i), i + 1)
                } else if is_lit(k) {
                    good(self.lit_at(i), i + 1)
                } else if k == Token::LParen {
                    self.paren(i)
                } else if k == Token::LBracket {
                    self.array(i)
                } else if k == Token::LBrace {
                    self.object(i)
                } else if template_start(k) {
                    self.tpl(i)
                } else {
                    bad(self.span_at(i), SyntaxError::TS1109, i)
                }
            }),
    {
        reveal(Gram::primary);
        reveal(Gram::if_expr);
        reveal(Gram::match_header);
        reveal(Gram::match_body);
        reveal(Gram::paren);
        reveal(Gram::array);
        reveal(Gram::object);
        reveal(Gram::tpl);
    }

    /// What a template is made of.
    pub proof fn lemma_tpl(self, i: int)
        ensures
            self.tpl(i) == ({
                if self.kind(i) == Token::NoSubstitutionTemplate {
                    good(
                        node(
                            Label::Tpl,
                            self.span(self.lo(i), i + 1),
                            kids2(list(Seq::empty()), list(seq![self.quasi_at(i)])),
                        ),
                        i + 1,
                    )
                } else if self.kind(i) == Token::TemplateHead {
                    self.tpl_rest(
                        self.lo(i),
                        Seq::empty(),
                        seq![self.quasi_at(i)],
                        i + 1,
                        Seq::empty(),
                    )
                } else {
                    self.expected(i, Token::NoSubstitutionTemplate)
                }
            }),
    {
        reveal(Gram::tpl);
        reveal(Gram::tpl_rest);
    }

    /// What the rest of a template is made of.
    pub proof fn lemma_tpl_rest(
        self,
        start: BytePos,
        es: Seq<Tree>,
        qs: Seq<Tree>,
        i: int,
        errs: Seq<Error>,
    )
        ensures
            self.tpl_rest(start, es, qs, i, errs) == ({
                let x = self.expr(i);
                let e = Out { res: x.res, next: x.next, errs: errs + x.errs };
                if !self.ok(i, e) {
                    e
                } else {
                    let es = es.push(e.tree());
                    let qs = qs.push(self.quasi_at(e.next));
                    if self.kind(e.next) == Token::TemplateTail {
                        e.grown(
                            node(
                                Label::Tpl,
                                self.span(start, e.next + 1),
                                kids2(list(es), list(qs)),
                            ),
                            e.next + 1,
                        )
                    } else if self.kind(e.next) == Token::TemplateMiddle {
                        self.tpl_rest(start, es, qs, e.next + 1, e.errs)
                    } else {
                        self.expected(e.next, Token::TemplateTail).after(e)
                    }
                }
            }),
    {
        reveal(Gram::tpl_rest);
        reveal(Gram::expr);
    }

    /// The errors of a header are reported before those of the body.
    pub proof fn lemma_match_body(self, start: BytePos, d: Out)
        requires
            d.res is Ok,
        ensures
            self.match_body(start, d) == self.match_body(start, good(d.tree(), d.next)).after(d),
    {
        reveal(Gram::match_body);
        let l = self.comma_list(ListKind::Arms, d.next + 1);
        let e: Seq<Error> = Seq::empty();
        let x = self.expected(l.next, Token::RBrace);
        assert(e + l.errs =~= l.errs);
        assert(d.errs + (l.errs + x.errs) =~= (d.errs + l.errs) + x.errs);
        let o = self.match_body(start, good(d.tree(), d.next));
        assert(self.match_body(start, d) =~= o.after(d));
    }

    /// The element of a sequence, as the phrase that it is.
    pub proof fn lemma_elem(self, k: ListKind, i: int)
        ensures
            self.elem(k, i) == match k {
                ListKind::Args | ListKind::Elems => self.assign(i),
                ListKind::Props => self.prop(i),
                ListKind::Params => self.param(i),
                ListKind::PatProps => self.pat_prop(i),
                ListKind::Arms => self.arm(i),
                ListKind::Variants => self.variant(i),
                ListKind::Fields => self.field(i),
                ListKind::TsMembers => self.ts_member(i),
            },
    {
        reveal(Gram::elem);
        reveal(Gram::assign);
        reveal(Gram::prop);
        reveal(Gram::param);
        reveal(Gram::pat_prop);
        reveal(Gram::arm);
        reveal(Gram::variant);
        reveal(Gram::ts_member);
    }
}

} // verus!
