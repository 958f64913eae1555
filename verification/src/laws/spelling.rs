//! How trees are spelled: which tokens a tree stands for.
//!
//! The tables here go from trees to tokens. Every node has its parts in a fixed
//! order, with fixed tokens before, between and behind them; it spans the text of
//! these tokens; and its parts are of the kinds, and bind as tightly, as the node
//! calls for.
use crate::ast::decl::VarDeclKind;
use crate::ast::expr::{AssignOp, BinaryOp, UnaryOp};
use crate::ast::typescript::TsKeywordTypeKind;
use crate::grammar::{is_lit, Gram, ListKind};
use crate::span::{Span, SyntaxContext};
use crate::token::Token;
use crate::tree::{absent, ident_name, kids2, list, Label, Tree};
use vstd::prelude::*;

verus! {

/// The token of an operator that comes between two operands.
pub open spec fn binary_sign(op: BinaryOp) -> Token {
    match op {
        BinaryOp::EqEq => Token::EqEq,
        BinaryOp::NotEq => Token::NotEq,
        BinaryOp::EqEqEq => Token::EqEqEq,
        BinaryOp::NotEqEq => Token::NotEqEq,
        BinaryOp::Lt => Token::Lt,
        BinaryOp::LtEq => Token::LtEq,
        BinaryOp::Gt => Token::Gt,
        BinaryOp::GtEq => Token::GtEq,
        BinaryOp::LShift => Token::LShift,
        BinaryOp::RShift => Token::RShift,
        BinaryOp::ZeroFillRShift => Token::ZeroFillRShift,
        BinaryOp::Add => Token::Plus,
        BinaryOp::Sub => Token::Minus,
        BinaryOp::Mul => Token::Asterisk,
        BinaryOp::Div => Token::Slash,
        BinaryOp::Mod => Token::Percent,
        BinaryOp::BitOr => Token::Pipe,
        BinaryOp::BitXor => Token::Caret,
        BinaryOp::BitAnd => Token::Ampersand,
        BinaryOp::LogicalOr => Token::LogicalOr,
        BinaryOp::LogicalAnd => Token::LogicalAnd,
        BinaryOp::In => Token::In,
        BinaryOp::InstanceOf => Token::InstanceOf,
        BinaryOp::Exp => Token::Exp,
        BinaryOp::NullishCoalescing => Token::NullishCoalescing,
    }
}

/// How tightly an operator binds: `**` binds the most, `??` and `||` the least.
#[verifier::opaque]
pub open spec fn level(op: BinaryOp) -> int {
    match op {
        BinaryOp::Exp => 11,
        BinaryOp::Mul | BinaryOp::Div | BinaryOp::Mod => 10,
        BinaryOp::Add | BinaryOp::Sub => 9,
        BinaryOp::LShift | BinaryOp::RShift | BinaryOp::ZeroFillRShift => 8,
        BinaryOp::Lt
        | BinaryOp::LtEq
        | BinaryOp::Gt
        | BinaryOp::GtEq
        | BinaryOp::In
        | BinaryOp::InstanceOf => 7,
        BinaryOp::EqEq | BinaryOp::NotEq | BinaryOp::EqEqEq | BinaryOp::NotEqEq => 6,
        BinaryOp::BitAnd => 5,
        BinaryOp::BitXor => 4,
        BinaryOp::BitOr => 3,
        BinaryOp::LogicalAnd => 2,
        BinaryOp::LogicalOr | BinaryOp::NullishCoalescing => 1,
    }
}

/// The token of an operator that assigns.
pub open spec fn assign_sign(op: AssignOp) -> Token {
    match op {
        AssignOp::Assign => Token::Eq,
        AssignOp::AddAssign => Token::PlusEq,
        AssignOp::SubAssign => Token::MinusEq,
        AssignOp::MulAssign => Token::MulEq,
        AssignOp::DivAssign => Token::DivEq,
        AssignOp::ModAssign => Token::ModEq,
    }
}

/// Whether the token at an index is an operator that comes before its operand. The
/// word `not` on the line of its operand is a `!`.
pub open spec fn unary_sign(g: Gram, op: UnaryOp, i: int) -> bool {
    match op {
        UnaryOp::Minus => g.kind(i) == Token::Minus,
        UnaryOp::Plus => g.kind(i) == Token::Plus,
        UnaryOp::Tilde => g.kind(i) == Token::Tilde,
        UnaryOp::TypeOf => g.kind(i) == Token::TypeOf,
        UnaryOp::Void => g.kind(i) == Token::Void,
        UnaryOp::Delete => g.kind(i) == Token::Delete,
        UnaryOp::Bang => {
            ||| g.kind(i) == Token::Bang
            ||| g.zts && g.kind(i).is_word() && g.text(i) == "not"@ && !g.nl(i + 1)
        },
    }
}

/// The token of the word that a declaration of variables starts with.
pub open spec fn var_sign(kind: VarDeclKind) -> Token {
    match kind {
        VarDeclKind::Var => Token::Var,
        VarDeclKind::Let => Token::Let,
        VarDeclKind::Const => Token::Const,
    }
}

/// Whether a token is the word that names a type.
pub open spec fn names_type(kind: TsKeywordTypeKind, t: Token, w: Seq<char>) -> bool {
    match kind {
        TsKeywordTypeKind::TsVoidKeyword => t == Token::Void,
        TsKeywordTypeKind::TsNullKeyword => t == Token::Null,
        TsKeywordTypeKind::TsAnyKeyword => t == Token::Ident && w == "any"@,
        TsKeywordTypeKind::TsUnknownKeyword => t == Token::Ident && w == "unknown"@,
        TsKeywordTypeKind::TsNumberKeyword => t == Token::Ident && w == "number"@,
        TsKeywordTypeKind::TsObjectKeyword => t == Token::Ident && w == "object"@,
        TsKeywordTypeKind::TsBooleanKeyword => t == Token::Ident && w == "boolean"@,
        TsKeywordTypeKind::TsBigIntKeyword => t == Token::Ident && w == "bigint"@,
        TsKeywordTypeKind::TsStringKeyword => t == Token::Ident && w == "string"@,
        TsKeywordTypeKind::TsSymbolKeyword => t == Token::Ident && w == "symbol"@,
        TsKeywordTypeKind::TsUndefinedKeyword => t == Token::Ident && w == "undefined"@,
        TsKeywordTypeKind::TsNeverKeyword => t == Token::Ident && w == "never"@,
    }
}

/// How tightly an expression holds together: a piece with its subscripts the most, a
/// sequence with commas the least. What is no expression comes last of all.
#[verifier::opaque]
pub open spec fn rank(label: Label) -> int {
    match label {
        Label::Ident { .. }
        | Label::Str { .. }
        | Label::Num { .. }
        | Label::BigInt { .. }
        | Label::Bool { .. }
        | Label::Null
        | Label::Array
        | Label::Object
        | Label::Member
        | Label::Call { .. }
        | Label::Paren
        | Label::Tpl
        | Label::TaggedTpl { .. }
        | Label::TsNonNull
        | Label::Match
        | Label::ZtsIf => 20,
        Label::Unary { .. } => 15,
        Label::Bin { op } => level(op),
        Label::TsAs | Label::TsSatisfies => 7,
        Label::Cond => 0,
        Label::Assign { .. } | Label::Arrow { .. } => -1,
        Label::SeqExpr => -2,
        _ => -3,
    }
}

/// How tightly a type holds together.
#[verifier::opaque]
pub open spec fn type_rank(label: Label) -> int {
    match label {
        Label::TsKeyword { .. }
        | Label::TsTypeRef
        | Label::TsLitType
        | Label::TsParenthesized
        | Label::TsArray => 2,
        Label::TsUnion => 1,
        _ => 0,
    }
}

/// Whether a node is what is bound: a name or an object pattern.
pub open spec fn is_target(label: Label) -> bool {
    label is BindingIdent || label is ObjectPat
}

/// Whether a node is a literal.
pub open spec fn is_literal(label: Label) -> bool {
    label is Str || label is Num || label is Bool || label is Null
}

/// Whether a node is an element of a kind of sequence.
pub open spec fn of_kind(k: ListKind, label: Label) -> bool {
    match k {
        ListKind::Args | ListKind::Elems => rank(label) >= -1,
        ListKind::Props => label is Ident || label is KeyValueProp,
        ListKind::Params => is_target(label) || label is AssignPat,
        ListKind::PatProps => label is Rest || label is KeyValuePat || label is AssignPatProp,
        ListKind::Arms => label is MatchArm,
        ListKind::Variants => label is ZtsEnumVariant,
        ListKind::Fields => label is ZtsEnumField,
        ListKind::TsMembers => label is TsEnumMember,
    }
}

/// Whether all of the nodes are elements of a kind of sequence.
pub open spec fn all_of_kind(k: ListKind, ts: Seq<Tree>) -> bool {
    forall|n: int| 0 <= n < ts.len() ==> of_kind(k, (#[trigger] ts[n]).label)
}

/// Whether a node is a sequence of elements of a kind.
pub open spec fn list_of(k: ListKind, t: Tree) -> bool {
    t.label is List && all_of_kind(k, t.kids)
}

/// Whether a node is a type, or is left out.
pub open spec fn may_be_annotation(label: Label) -> bool {
    label is Absent || label is TsTypeAnn
}

/// Whether the parts of a node are of the kinds that the node calls for, and bind
/// as tightly as they have to: without parentheses, an operand holds together more
/// tightly than the operator that it belongs to, and operators group to the left,
/// but for `**`.
pub open spec fn grouped(t: Tree) -> bool {
    match t.label {
        Label::Ident { ctxt, optional, .. } => ctxt == SyntaxContext(0) && !optional,
        Label::Array => all_of_kind(ListKind::Elems, t.kids),
        Label::Object => all_of_kind(ListKind::Props, t.kids),
        Label::KeyValueProp => {
            &&& t.kids[0].label is IdentName || t.kids[0].label is Str || t.kids[0].label is Num
            &&& rank(t.kids[1].label) >= -1
        },
        Label::Unary { .. } => rank(t.kids[0].label) >= 15,
        Label::Bin { op } => {
            &&& {
                ||| rank(t.kids[0].label) >= (if op == BinaryOp::Exp {
                    12
                } else {
                    level(op)
                })
                ||| t.kids[0].label is TsAs
                ||| t.kids[0].label is TsSatisfies
            }
            &&& rank(t.kids[1].label) >= (if op == BinaryOp::Exp {
                11
            } else {
                level(op) + 1
            })
        },
        Label::Assign { .. } => {
            &&& t.kids[0].label is Ident || t.kids[0].label is Member
            &&& rank(t.kids[1].label) >= -1
        },
        Label::Member => {
            &&& rank(t.kids[0].label) == 20
            &&& t.kids[1].label is IdentName || t.kids[1].label is ComputedProp
        },
        Label::ComputedProp => rank(t.kids[0].label) >= -2,
        Label::Cond => {
            &&& rank(t.kids[0].label) >= 1
            &&& rank(t.kids[1].label) >= -1
            &&& rank(t.kids[2].label) >= -1
        },
        Label::Call { ctxt } => {
            &&& ctxt == SyntaxContext(0)
            &&& rank(t.kids[0].label) == 20
            &&& list_of(ListKind::Args, t.kids[1])
        },
        Label::SeqExpr => t.kids.len() >= 2 && all_of_kind(ListKind::Elems, t.kids),
        Label::Arrow { ctxt } => {
            &&& ctxt == SyntaxContext(0)
            &&& list_of(ListKind::Params, t.kids[0])
            &&& t.kids[1].label is Block || rank(t.kids[1].label) >= -1
        },
        Label::Paren => rank(t.kids[0].label) >= -2,
        Label::Tpl => all_of_exprs(t.kids[0].kids),
        Label::TaggedTpl { ctxt } => {
            &&& ctxt == SyntaxContext(0)
            &&& rank(t.kids[0].label) == 20
            &&& t.kids[1].label is Tpl
        },
        Label::TsNonNull => rank(t.kids[0].label) == 20,
        Label::TsAs | Label::TsSatisfies => {
            &&& rank(t.kids[0].label) >= 7
            &&& type_rank(t.kids[1].label) >= 1
        },
        Label::Match => {
            &&& rank(t.kids[0].label) >= -2
            &&& list_of(ListKind::Arms, t.kids[1])
            &&& t.kids[1].kids.len() > 0
        },
        Label::MatchArm => {
            &&& t.kids[0].label is MatchWildcard || t.kids[0].label is MatchLit
                || t.kids[0].label is MatchVariant
            &&& t.kids[1].label is ZtsExprBlock || rank(t.kids[1].label) >= -1
        },
        Label::MatchLit { neg } => {
            &&& is_literal(t.kids[0].label)
            &&& neg ==> t.kids[0].label is Num
        },
        Label::MatchVariant => t.kids[0].label is Ident && t.kids[1].label is ObjectPat,
        Label::ZtsIf => {
            &&& rank(t.kids[0].label) >= -2
            &&& t.kids[1].label is ZtsExprBlock
            &&& t.kids[2].label is ZtsExprBlock || t.kids[2].label is ZtsIf
        },
        Label::ZtsExprBlock => t.kids[0].label is List && rank(t.kids[1].label) >= -2,
        Label::BindingIdent => t.kids[0].label is Ident && may_be_annotation(t.kids[1].label),
        Label::ObjectPat { optional } => {
            &&& !optional
            &&& list_of(ListKind::PatProps, t.kids[0])
            &&& may_be_annotation(t.kids[1].label)
        },
        Label::KeyValuePat => {
            &&& t.kids[0].label is IdentName
            &&& is_target(t.kids[1].label) || t.kids[1].label is AssignPat
        },
        Label::AssignPatProp => {
            &&& t.kids[0].label is BindingIdent
            &&& t.kids[1].label is Absent || rank(t.kids[1].label) >= -1
        },
        Label::Rest { .. } => is_target(t.kids[0].label),
        Label::AssignPat => is_target(t.kids[0].label) && rank(t.kids[1].label) >= -1,
        Label::Block { ctxt } => ctxt == SyntaxContext(0) && t.kids[0].label is List,
        Label::Labeled => t.kids[0].label is Ident,
        Label::If => rank(t.kids[0].label) >= -2,
        Label::While => rank(t.kids[0].label) >= -2,
        Label::ExprStmt => rank(t.kids[0].label) >= -2,
        Label::ExportDefaultExpr => rank(t.kids[0].label) >= -1,
        Label::Var { ctxt, declare, .. } => ctxt == SyntaxContext(0) && !declare,
        Label::Declarator { definite } => {
            &&& !definite
            &&& is_target(t.kids[0].label)
            &&& t.kids[1].label is Absent || rank(t.kids[1].label) >= -1
        },
        Label::TsEnum { .. } => {
            t.kids[0].label is Ident && list_of(ListKind::TsMembers, t.kids[1])
        },
        Label::TsEnumMember => t.kids[1].label is Absent || rank(t.kids[1].label) >= -1,
        Label::ZtsEnum => {
            t.kids[0].label is Ident && list_of(ListKind::Variants, t.kids[1])
        },
        Label::ZtsEnumVariant => {
            t.kids[0].label is Ident && list_of(ListKind::Fields, t.kids[1])
        },
        Label::ZtsEnumField => {
            t.kids[0].label is IdentName && type_rank(t.kids[1].label) >= 1
        },
        Label::ZtsNewtype => t.kids[0].label is Ident && type_rank(t.kids[1].label) >= 1,
        Label::TsTypeAnn => type_rank(t.kids[0].label) >= 1,
        Label::TsTypeRef => t.kids[0].label is Ident,
        Label::TsArray => type_rank(t.kids[0].label) == 2,
        Label::TsUnion => {
            &&& t.kids.len() >= 2
            &&& forall|n: int|
                0 <= n < t.kids.len() ==> type_rank((#[trigger] t.kids[n]).label) == 2
        },
        Label::TsParenthesized => type_rank(t.kids[0].label) >= 1,
        Label::TsLitType => is_literal(t.kids[0].label) && !(t.kids[0].label is Null),
        _ => true,
    }
}

/// Whether all of the nodes are expressions.
pub open spec fn all_of_exprs(ts: Seq<Tree>) -> bool {
    forall|n: int| 0 <= n < ts.len() ==> rank((#[trigger] ts[n]).label) >= -2
}

/// Whether a node stands for the tokens from `i` up to `j`, by its span. The spans
/// of pairs of a key and a value, and of what is left out, are synthesized. The span
/// of a pattern does not hold its type.
pub open spec fn spans(g: Gram, t: Tree, i: int, j: int) -> bool {
    match t.label {
        Label::Absent | Label::KeyValueProp | Label::KeyValuePat => t.span == Span::spec_dummy(),
        Label::Ident { .. }
        | Label::IdentName { .. }
        | Label::Str { .. }
        | Label::Num { .. }
        | Label::BigInt { .. }
        | Label::Bool { .. }
        | Label::Null
        | Label::TplElement { .. }
        | Label::TsKeyword { .. }
        | Label::TsTypeRef
        | Label::TsLitType
        | Label::BindingIdent => t.span == g.toks[i].span,
        Label::ObjectPat { .. } => t.kids[1].label is Absent ==> spans_tokens(g, t.span, i, j),
        _ => spans_tokens(g, t.span, i, j),
    }
}

/// Whether a span is that of the tokens from `i` up to `j`.
pub open spec fn spans_tokens(g: Gram, s: Span, i: int, j: int) -> bool {
    i < j ==> s == Span::between(g.toks[i].span.lo, g.toks[j - 1].span.hi)
}

/// How many parts a node has. The nodes that are sequences themselves have any
/// number.
pub open spec fn arity(label: Label) -> nat {
    match label {
        Label::Absent
        | Label::Ident { .. }
        | Label::IdentName { .. }
        | Label::Str { .. }
        | Label::Num { .. }
        | Label::BigInt { .. }
        | Label::Bool { .. }
        | Label::Null
        | Label::TplElement { .. }
        | Label::TsKeyword { .. }
        | Label::MatchWildcard
        | Label::Empty => 0,
        Label::Unary { .. }
        | Label::ComputedProp
        | Label::Paren
        | Label::TsNonNull
        | Label::MatchLit { .. }
        | Label::Rest { .. }
        | Label::Block { .. }
        | Label::ExprStmt
        | Label::ExportDecl
        | Label::ExportDefaultExpr
        | Label::TsTypeAnn
        | Label::TsTypeRef
        | Label::TsArray
        | Label::TsParenthesized
        | Label::TsLitType => 1,
        Label::Cond | Label::ZtsIf | Label::If => 3,
        Label::For => 4,
        _ => 2,
    }
}

/// Whether one token stands from `i` up to `a`.
pub open spec fn sign(g: Gram, t: Token, i: int, a: int) -> bool {
    a == i + 1 && g.kind(i) == t
}

/// Whether two tokens stand from `i` up to `a`.
pub open spec fn signs(g: Gram, t: Token, u: Token, i: int, a: int) -> bool {
    a == i + 2 && g.kind(i) == t && g.kind(i + 1) == u
}

/// Whether a statement may end from `i` up to `a`: with a semicolon, or with nothing
/// before a closing brace, a line break or the end of the text.
pub open spec fn stop(g: Gram, i: int, a: int) -> bool {
    ||| sign(g, Token::Semi, i, a)
    ||| a == i && (g.kind(i) == Token::RBrace || g.kind(i) == Token::Eof || g.nl(i))
}

/// Whether the words that an enum starts with stand from `i` up to `a`.
pub open spec fn enum_words(g: Gram, is_const: bool, declare: bool, i: int, a: int) -> bool {
    let k = if declare {
        i + 1
    } else {
        i
    };
    &&& declare ==> g.kind(i).is_word() && g.text(i) == "declare"@
    &&& if is_const {
        signs(g, Token::Const, Token::Enum, k, a)
    } else {
        sign(g, Token::Enum, k, a)
    }
}

/// Whether a token starts a statement that is no expression.
pub open spec fn starts_statement(t: Token) -> bool {
    match t {
        Token::LBrace
        | Token::Semi
        | Token::If
        | Token::While
        | Token::For
        | Token::Enum
        | Token::Const
        | Token::Let
        | Token::Var => true,
        _ => false,
    }
}

/// Whether the tokens from `i` up to `a` are those before the part `k` of a node, or
/// behind its last part, where `k` is the number of parts.
pub open spec fn gap(g: Gram, t: Tree, k: int, i: int, a: int) -> bool {
    match t.label {
        Label::Absent => a == i,
        Label::Ident { sym, .. } => a == i + 1 && g.kind(i).is_word() && g.text(i) == sym,
        Label::IdentName { sym } => a == i + 1 && g.kind(i).is_word() && g.text(i) == sym,
        Label::Str { raw } => sign(g, Token::Str, i, a) && g.text(i) == raw,
        Label::Num { raw } => sign(g, Token::Num, i, a) && g.text(i) == raw,
        Label::BigInt { raw } => sign(g, Token::BigInt, i, a) && g.text(i) == raw,
        Label::Bool { value: true } => sign(g, Token::True, i, a),
        Label::Bool { value: false } => sign(g, Token::False, i, a),
        Label::Null => sign(g, Token::Null, i, a),
        Label::Array => if k == 0 {
            sign(g, Token::LBracket, i, a)
        } else {
            sign(g, Token::RBracket, i, a)
        },
        Label::Object => if k == 0 {
            sign(g, Token::LBrace, i, a)
        } else {
            sign(g, Token::RBrace, i, a)
        },
        Label::KeyValueProp | Label::KeyValuePat | Label::ZtsEnumField | Label::Labeled => {
            if k == 1 {
                sign(g, Token::Colon, i, a)
            } else {
                a == i
            }
        },
        Label::Unary { op } => if k == 0 {
            a == i + 1 && unary_sign(g, op, i)
        } else {
            a == i
        },
        Label::Bin { op } => if k == 1 {
            sign(g, binary_sign(op), i, a)
        } else {
            a == i
        },
        Label::Assign { op } => if k == 1 {
            sign(g, assign_sign(op), i, a)
        } else {
            a == i
        },
        Label::Member => if k == 1 && t.kids[1].label is IdentName {
            sign(g, Token::Dot, i, a)
        } else {
            a == i
        },
        Label::ComputedProp => if k == 0 {
            sign(g, Token::LBracket, i, a)
        } else {
            sign(g, Token::RBracket, i, a)
        },
        Label::Cond => if k == 1 {
            sign(g, Token::Question, i, a)
        } else if k == 2 {
            sign(g, Token::Colon, i, a)
        } else {
            a == i
        },
        Label::Call { .. } => if k == 1 {
            sign(g, Token::LParen, i, a)
        } else if k == 2 {
            sign(g, Token::RParen, i, a)
        } else {
            a == i
        },
        Label::SeqExpr | Label::TsUnion | Label::Module => a == i,
        Label::Arrow { .. } => if k == 0 {
            if g.kind(i) == Token::LParen {
                a == i + 1
            } else {
                a == i
            }
        } else if k == 1 {
            &&& signs(g, Token::RParen, Token::Arrow, i, a) || sign(g, Token::Arrow, i, a)
            &&& t.kids[1].label is Block <==> g.kind(a) == Token::LBrace
        } else {
            a == i
        },
        Label::Paren | Label::TsParenthesized => if k == 0 {
            sign(g, Token::LParen, i, a)
        } else {
            sign(g, Token::RParen, i, a)
        },
        Label::TplElement { tail, raw } => {
            &&& a == i + 1
            &&& g.text(i) == raw
            &&& if tail {
                g.kind(i) == Token::NoSubstitutionTemplate || g.kind(i) == Token::TemplateTail
            } else {
                g.kind(i) == Token::TemplateHead || g.kind(i) == Token::TemplateMiddle
            }
        },
        Label::TaggedTpl { .. } => a == i,
        Label::TsNonNull => if k == 1 {
            sign(g, Token::Bang, i, a)
        } else {
            a == i
        },
        Label::TsAs => if k == 1 {
            sign(g, Token::As, i, a)
        } else {
            a == i
        },
        Label::TsSatisfies => if k == 1 {
            sign(g, Token::Satisfies, i, a)
        } else {
            a == i
        },
        Label::Match => if k == 0 {
            &&& a == i + 2
            &&& g.kind(i).is_word()
            &&& g.text(i) == "match"@
            &&& g.kind(i + 1) == Token::LParen
        } else if k == 1 {
            signs(g, Token::RParen, Token::LBrace, i, a) && !g.nl(i + 1)
        } else {
            sign(g, Token::RBrace, i, a)
        },
        Label::MatchArm => if k == 1 {
            &&& sign(g, Token::Arrow, i, a)
            &&& t.kids[1].label is ZtsExprBlock <==> g.kind(a) == Token::LBrace
        } else {
            a == i
        },
        Label::MatchWildcard => a == i + 1 && g.kind(i).is_word() && g.text(i) == "_"@,
        Label::MatchLit { neg } => if k == 0 && neg {
            sign(g, Token::Minus, i, a)
        } else {
            a == i
        },
        Label::MatchVariant | Label::BindingIdent => a == i,
        Label::ZtsIf => if k == 0 {
            signs(g, Token::If, Token::LParen, i, a)
        } else if k == 1 {
            sign(g, Token::RParen, i, a)
        } else if k == 2 {
            sign(g, Token::Else, i, a)
        } else {
            a == i
        },
        Label::ZtsExprBlock => if k == 0 {
            sign(g, Token::LBrace, i, a)
        } else if k == 1 {
            a == i && !starts_statement(g.kind(i))
        } else {
            sign(g, Token::RBrace, i, a) || signs(g, Token::Semi, Token::RBrace, i, a)
        },
        Label::ObjectPat { .. } => if k == 0 {
            sign(g, Token::LBrace, i, a)
        } else if k == 1 {
            sign(g, Token::RBrace, i, a)
        } else {
            a == i
        },
        Label::AssignPatProp | Label::Declarator { .. } | Label::TsEnumMember => {
            if k == 1 && !(t.kids[1].label is Absent) {
                sign(g, Token::Eq, i, a)
            } else {
                a == i
            }
        },
        Label::Rest { dots } => if k == 0 {
            sign(g, Token::DotDotDot, i, a) && dots == g.toks[i].span
        } else {
            a == i
        },
        Label::AssignPat => if k == 1 {
            sign(g, Token::Eq, i, a)
        } else {
            a == i
        },
        Label::Block { .. } => if k == 0 {
            sign(g, Token::LBrace, i, a)
        } else {
            sign(g, Token::RBrace, i, a)
        },
        Label::Empty => sign(g, Token::Semi, i, a),
        Label::If => if k == 0 {
            signs(g, Token::If, Token::LParen, i, a)
        } else if k == 1 {
            sign(g, Token::RParen, i, a)
        } else if k == 2 {
            if t.kids[2].label is Absent {
                a == i && g.kind(i) != Token::Else
            } else {
                sign(g, Token::Else, i, a)
            }
        } else {
            a == i
        },
        Label::While => if k == 0 {
            signs(g, Token::While, Token::LParen, i, a)
        } else if k == 1 {
            sign(g, Token::RParen, i, a)
        } else {
            a == i
        },
        Label::For => if k == 0 {
            signs(g, Token::For, Token::LParen, i, a)
        } else if k == 1 || k == 2 {
            sign(g, Token::Semi, i, a)
        } else if k == 3 {
            sign(g, Token::RParen, i, a)
        } else {
            a == i
        },
        Label::ExprStmt => if k == 0 {
            a == i && !starts_statement(g.kind(i))
        } else {
            stop(g, i, a)
        },
        Label::ExportDecl => if k == 0 {
            sign(g, Token::Export, i, a)
        } else {
            a == i
        },
        Label::ExportDefaultExpr => if k == 0 {
            signs(g, Token::Export, Token::Default, i, a)
        } else {
            stop(g, i, a)
        },
        Label::Var { kind, .. } => if k == 0 {
            sign(g, var_sign(kind), i, a)
        } else {
            sign(g, Token::Semi, i, a) || a == i
        },
        Label::TsEnum { declare, is_const } => if k == 0 {
            enum_words(g, is_const, declare, i, a)
        } else if k == 1 {
            sign(g, Token::LBrace, i, a)
        } else {
            sign(g, Token::RBrace, i, a)
        },
        Label::ZtsEnum => if k == 0 {
            enum_words(g, false, false, i, a) || enum_words(g, true, false, i, a)
        } else if k == 1 {
            sign(g, Token::LBrace, i, a)
        } else {
            sign(g, Token::RBrace, i, a)
        },
        Label::ZtsEnumVariant => if k == 1 {
            sign(g, Token::LBrace, i, a)
        } else if k == 2 {
            sign(g, Token::RBrace, i, a)
        } else {
            a == i
        },
        Label::ZtsNewtype => if k == 0 {
            a == i + 1 && g.kind(i).is_word() && g.text(i) == "newtype"@ && !g.nl(a)
        } else if k == 1 {
            sign(g, Token::Eq, i, a)
        } else {
            stop(g, i, a)
        },
        Label::TsTypeAnn => if k == 0 {
            sign(g, Token::Colon, i, a)
        } else {
            a == i
        },
        Label::TsKeyword { kind } => a == i + 1 && names_type(kind, g.kind(i), g.text(i)),
        Label::TsTypeRef => {
            &&& a == i
            &&& k == 0 ==> forall|kind: TsKeywordTypeKind|
                !(#[trigger] names_type(kind, g.kind(i), g.text(i)))
        },
        Label::TsLitType => a == i,
        Label::TsArray => if k == 1 {
            signs(g, Token::LBracket, Token::RBracket, i, a) && !g.nl(i)
        } else {
            a == i
        },
        _ => false,
    }
}

/// What stands between the elements of a sequence.
pub ghost enum Sep {
    /// Commas, and maybe one behind the last element.
    Closed,
    /// Commas.
    Commas,
    /// `|`
    Pipes,
    /// Nothing.
    Nothing,
}

/// Whether the tokens from `i` up to `a` may come behind an element.
pub open spec fn step(g: Gram, sep: Sep, last: bool, i: int, a: int) -> bool {
    match sep {
        Sep::Closed => sign(g, Token::Comma, i, a) || last && a == i,
        Sep::Commas => if last {
            a == i
        } else {
            sign(g, Token::Comma, i, a)
        },
        Sep::Pipes => if last {
            a == i
        } else {
            sign(g, Token::Pipe, i, a)
        },
        Sep::Nothing => a == i,
    }
}

/// Whether a node is a sequence itself.
pub open spec fn is_row(label: Label) -> bool {
    match label {
        Label::Array
        | Label::Object
        | Label::SeqExpr
        | Label::TsUnion
        | Label::Var { .. }
        | Label::Module => true,
        _ => false,
    }
}

/// What stands between the elements of a sequence that a node is or has.
pub open spec fn sep_of(label: Label) -> Sep {
    match label {
        Label::SeqExpr | Label::Var { .. } => Sep::Commas,
        Label::TsUnion => Sep::Pipes,
        Label::Block { .. } | Label::ZtsExprBlock | Label::Module => Sep::Nothing,
        _ => Sep::Closed,
    }
}

/// Two indices at which tokens are cut into those of one part and those of the next.
pub open spec fn cuts(a: int, b: int) -> bool {
    true
}

/// Whether a tree stands for the tokens from `i` up to `j`.
#[verifier::opaque]
pub open spec fn spelled(g: Gram, t: Tree, i: int, j: int) -> bool
    decreases t, 1nat, 0nat,
{
    &&& !(t.label is List)
    &&& spans(g, t, i, j)
    &&& grouped(t)
    &&& if t.label is Tpl {
        &&& t.kids.len() == 2
        &&& t.kids[1].kids.len() == t.kids[0].kids.len() + 1
        &&& woven(g, t, t.kids[0].kids.len() as int, i, j)
    } else if is_row(t.label) {
        exists|a: int, b: int| #[trigger]
            cuts(a, b) && gap(g, t, 0, i, a) && row(g, t.kids, 0, sep_of(t.label), a, b) && gap(
                g,
                t,
                1,
                b,
                j,
            )
    } else {
        t.kids.len() == arity(t.label) && parts(g, t, 0, i, j)
    }
}

/// Whether the parts of a node from the part `k` on stand for the tokens from `i` up
/// to `j`, with what comes before, between and behind them.
#[verifier::opaque]
pub open spec fn parts(g: Gram, t: Tree, k: int, i: int, j: int) -> bool
    decreases t, 0nat, t.kids.len() - k,
{
    if k < 0 || k >= t.kids.len() {
        gap(g, t, k, i, j)
    } else {
        exists|a: int, b: int| #[trigger]
            cuts(a, b) && gap(g, t, k, i, a) && part(g, t, k, a, b) && parts(g, t, k + 1, b, j)
    }
}

/// Whether the part `k` of a node stands for the tokens from `i` up to `j`.
#[verifier::opaque]
pub open spec fn part(g: Gram, t: Tree, k: int, i: int, j: int) -> bool
    decreases t, 0nat, 0nat,
{
    if k < 0 || k >= t.kids.len() {
        false
    } else if t.kids[k].label is List {
        row(g, t.kids[k].kids, 0, sep_of(t.label), i, j)
    } else {
        spelled(g, t.kids[k], i, j)
    }
}

/// Whether the elements of a sequence from the element `k` on stand for the tokens
/// from `i` up to `j`.
#[verifier::opaque]
pub open spec fn row(g: Gram, ts: Seq<Tree>, k: int, sep: Sep, i: int, j: int) -> bool
    decreases ts, 0nat, ts.len() - k,
{
    if k < 0 || k >= ts.len() {
        i == j
    } else {
        exists|b: int, c: int| #[trigger]
            cuts(b, c) && spelled(g, ts[k], i, b) && step(g, sep, k + 1 == ts.len(), b, c) && row(
                g,
                ts,
                k + 1,
                sep,
                c,
                j,
            )
    }
}

/// Whether the first `k` expressions of a template, and the pieces round them, stand
/// for the tokens from `i` up to `j`.
#[verifier::opaque]
pub open spec fn woven(g: Gram, t: Tree, k: int, i: int, j: int) -> bool
    decreases t, 0nat, k,
{
    if t.kids.len() != 2 || k < 0 || k > t.kids[0].kids.len() || k >= t.kids[1].kids.len() {
        false
    } else {
        let e = t.kids[0].kids;
        let q = t.kids[1].kids[k];
        &&& q.label is TplElement
        &&& q.label->TplElement_tail <==> k == e.len()
        &&& spelled(g, q, j - 1, j)
        &&& if k == 0 {
            j == i + 1
        } else {
            exists|a: int| #[trigger]
                cuts(a, a) && woven(g, t, k - 1, i, a) && spelled(g, e[k - 1], a, j - 1)
        }
    }
}

/// Whether a node is as it has to be, but for the tokens of its parts.
pub open spec fn framed(g: Gram, t: Tree, i: int, j: int) -> bool {
    &&& spans(g, t, i, j)
    &&& grouped(t)
    &&& t.kids.len() == arity(t.label)
    &&& !(t.label is Tpl)
    &&& !(t.label is List)
    &&& !is_row(t.label)
}

/// Whether a part of a node stands for the tokens from `i` up to `j`.
pub open spec fn filled(g: Gram, label: Label, t: Tree, i: int, j: int) -> bool {
    if t.label is List {
        row(g, t.kids, 0, sep_of(label), i, j)
    } else {
        spelled(g, t, i, j)
    }
}

/// Whether the first `k` expressions of a template whose end has not been read, and
/// the pieces round them, stand for the tokens from `i` up to `j`.
pub open spec fn begun(g: Gram, es: Seq<Tree>, qs: Seq<Tree>, k: int, i: int, j: int) -> bool
    decreases k,
{
    &&& 0 <= k <= es.len()
    &&& k < qs.len()
    &&& qs[k].label is TplElement
    &&& !qs[k].label->TplElement_tail
    &&& spelled(g, qs[k], j - 1, j)
    &&& if k <= 0 {
        j == i + 1
    } else {
        exists|a: int| #[trigger]
            cuts(a, a) && begun(g, es, qs, k - 1, i, a) && spelled(g, es[k - 1], a, j - 1)
    }
}

pub(crate) proof fn lemma_begun_push(
    g: Gram,
    es: Seq<Tree>,
    qs: Seq<Tree>,
    e: Tree,
    q: Tree,
    k: int,
    i: int,
    j: int,
)
    requires
        begun(g, es, qs, k, i, j),
    ensures
        begun(g, es.push(e), qs.push(q), k, i, j),
    decreases k,
{
    if k > 0 {
        let a = choose|a: int| #[trigger]
            cuts(a, a) && begun(g, es, qs, k - 1, i, a) && spelled(g, es[k - 1], a, j - 1);
        assert(cuts(a, a));
        lemma_begun_push(g, es, qs, e, q, k - 1, i, a);
        assert(es.push(e)[k - 1] == es[k - 1]);
    }
}

pub(crate) proof fn lemma_begun_woven(
    g: Gram,
    es: Seq<Tree>,
    qs: Seq<Tree>,
    t: Tree,
    k: int,
    i: int,
    j: int,
)
    requires
        begun(g, es, qs, k, i, j),
        k < es.len(),
        t.kids == kids2(list(es), list(qs)),
    ensures
        woven(g, t, k, i, j),
    decreases k,
{
    reveal(spelled);
    reveal(woven);
    if k > 0 {
        let a = choose|a: int| #[trigger]
            cuts(a, a) && begun(g, es, qs, k - 1, i, a) && spelled(g, es[k - 1], a, j - 1);
        assert(cuts(a, a));
        lemma_begun_woven(g, es, qs, t, k - 1, i, a);
    }
}

pub(crate) proof fn lemma_begun_step(
    g: Gram,
    es: Seq<Tree>,
    qs: Seq<Tree>,
    k: int,
    i: int,
    a: int,
    j: int,
)
    requires
        0 < k <= es.len(),
        k < qs.len(),
        begun(g, es, qs, k - 1, i, a),
        spelled(g, es[k - 1], a, j - 1),
        spelled(g, qs[k], j - 1, j),
        qs[k].label is TplElement,
        !qs[k].label->TplElement_tail,
    ensures
        begun(g, es, qs, k, i, j),
{
    assert(cuts(a, a));
}

pub(crate) proof fn lemma_woven_end(g: Gram, t: Tree, i: int, a: int, j: int)
    requires
        t.kids.len() == 2,
        t.kids[0].kids.len() > 0,
        t.kids[1].kids.len() == t.kids[0].kids.len() + 1,
        woven(g, t, t.kids[0].kids.len() - 1, i, a),
        spelled(g, t.kids[0].kids.last(), a, j - 1),
        spelled(g, t.kids[1].kids.last(), j - 1, j),
        t.kids[1].kids.last().label is TplElement,
        t.kids[1].kids.last().label->TplElement_tail,
    ensures
        woven(g, t, t.kids[0].kids.len() as int, i, j),
{
    reveal(woven);
    reveal(spelled);
    assert(cuts(a, a));
}

pub(crate) proof fn lemma_made_tpl(g: Gram, t: Tree, i: int, j: int)
    requires
        t.label is Tpl,
        spans(g, t, i, j),
        grouped(t),
        t.kids.len() == 2,
        t.kids[1].kids.len() == t.kids[0].kids.len() + 1,
        woven(g, t, t.kids[0].kids.len() as int, i, j),
    ensures
        spelled(g, t, i, j),
{
    reveal(woven);
    reveal(row);
    reveal(parts);
    reveal(spelled);
}

/// A node without parts.
pub(crate) proof fn lemma_made0(g: Gram, t: Tree, i: int, j: int)
    requires
        framed(g, t, i, j),
        t.kids.len() == 0,
        gap(g, t, 0, i, j),
    ensures
        spelled(g, t, i, j),
{
    reveal(woven);
    reveal(row);
    reveal(spelled);
    reveal(parts);
}

/// A part, and what comes behind it.
pub(crate) proof fn lemma_part(g: Gram, t: Tree, k: int, i: int, a: int, b: int, j: int)
    requires
        0 <= k < t.kids.len(),
        gap(g, t, k, i, a),
        filled(g, t.label, t.kids[k], a, b),
        parts(g, t, k + 1, b, j),
    ensures
        parts(g, t, k, i, j),
{
    reveal(part);
    assert(part(g, t, k, a, b)) by {
        reveal(row);
        reveal(spelled);
    }
    assert(cuts(a, b));
    reveal(parts);
}

pub(crate) proof fn lemma_parts_end(g: Gram, t: Tree, i: int, j: int)
    requires
        gap(g, t, t.kids.len() as int, i, j),
    ensures
        parts(g, t, t.kids.len() as int, i, j),
{
    reveal(part);
    reveal(parts);
}

/// A node with one part, from `a` up to `b`.
pub(crate) proof fn lemma_made1(g: Gram, t: Tree, i: int, a: int, b: int, j: int)
    requires
        framed(g, t, i, j),
        t.kids.len() == 1,
        gap(g, t, 0, i, a),
        filled(g, t.label, t.kids[0], a, b),
        gap(g, t, 1, b, j),
    ensures
        spelled(g, t, i, j),
{
    reveal(woven);
    reveal(row);
    reveal(parts);
    lemma_parts_end(g, t, b, j);
    lemma_part(g, t, 0, i, a, b, j);
    reveal(spelled);
}

/// A node with two parts, from `a` up to `b` and from `c` up to `d`.
pub(crate) proof fn lemma_made2(g: Gram, t: Tree, i: int, a: int, b: int, c: int, d: int, j: int)
    requires
        framed(g, t, i, j),
        t.kids.len() == 2,
        gap(g, t, 0, i, a),
        filled(g, t.label, t.kids[0], a, b),
        gap(g, t, 1, b, c),
        filled(g, t.label, t.kids[1], c, d),
        gap(g, t, 2, d, j),
    ensures
        spelled(g, t, i, j),
{
    reveal(woven);
    reveal(row);
    reveal(parts);
    lemma_parts_end(g, t, d, j);
    lemma_part(g, t, 1, b, c, d, j);
    lemma_part(g, t, 0, i, a, b, j);
    reveal(spelled);
}

/// A node with three parts.
pub(crate) proof fn lemma_made3(
    g: Gram,
    t: Tree,
    i: int,
    a: int,
    b: int,
    c: int,
    d: int,
    e: int,
    f: int,
    j: int,
)
    requires
        framed(g, t, i, j),
        t.kids.len() == 3,
        gap(g, t, 0, i, a),
        filled(g, t.label, t.kids[0], a, b),
        gap(g, t, 1, b, c),
        filled(g, t.label, t.kids[1], c, d),
        gap(g, t, 2, d, e),
        filled(g, t.label, t.kids[2], e, f),
        gap(g, t, 3, f, j),
    ensures
        spelled(g, t, i, j),
{
    reveal(woven);
    reveal(row);
    reveal(parts);
    lemma_parts_end(g, t, f, j);
    lemma_part(g, t, 2, d, e, f, j);
    lemma_part(g, t, 1, b, c, d, j);
    lemma_part(g, t, 0, i, a, b, j);
    reveal(spelled);
}

/// A node with four parts.
pub(crate) proof fn lemma_made4(
    g: Gram,
    t: Tree,
    i: int,
    a: int,
    b: int,
    c: int,
    d: int,
    e: int,
    f: int,
    m: int,
    n: int,
    j: int,
)
    requires
        framed(g, t, i, j),
        t.kids.len() == 4,
        gap(g, t, 0, i, a),
        filled(g, t.label, t.kids[0], a, b),
        gap(g, t, 1, b, c),
        filled(g, t.label, t.kids[1], c, d),
        gap(g, t, 2, d, e),
        filled(g, t.label, t.kids[2], e, f),
        gap(g, t, 3, f, m),
        filled(g, t.label, t.kids[3], m, n),
        gap(g, t, 4, n, j),
    ensures
        spelled(g, t, i, j),
{
    reveal(woven);
    reveal(row);
    reveal(parts);
    lemma_parts_end(g, t, n, j);
    lemma_part(g, t, 3, f, m, n, j);
    lemma_part(g, t, 2, d, e, f, j);
    lemma_part(g, t, 1, b, c, d, j);
    lemma_part(g, t, 0, i, a, b, j);
    reveal(spelled);
}

/// A node that is a sequence, with its elements from `a` up to `b`.
pub(crate) proof fn lemma_made_row(g: Gram, t: Tree, i: int, a: int, b: int, j: int)
    requires
        spans(g, t, i, j),
        grouped(t),
        is_row(t.label),
        gap(g, t, 0, i, a),
        row(g, t.kids, 0, sep_of(t.label), a, b),
        gap(g, t, 1, b, j),
    ensures
        spelled(g, t, i, j),
{
    assert(cuts(a, b));
    reveal(woven);
    reveal(row);
    reveal(parts);
    reveal(spelled);
}

/// A sequence with one element more in front.
pub(crate) proof fn lemma_row_behind(
    g: Gram,
    e: Tree,
    ts: Seq<Tree>,
    k: int,
    sep: Sep,
    i: int,
    j: int,
)
    requires
        0 <= k <= ts.len(),
        row(g, ts, k, sep, i, j),
    ensures
        row(g, seq![e] + ts, k + 1, sep, i, j),
    decreases ts.len() - k,
{
    reveal(spelled);
    reveal(row);
    let us = seq![e] + ts;
    if k < ts.len() {
        let (b, c) = choose|b: int, c: int| #[trigger]
            cuts(b, c) && spelled(g, ts[k], i, b) && step(g, sep, k + 1 == ts.len(), b, c) && row(
                g,
                ts,
                k + 1,
                sep,
                c,
                j,
            );
        assert(cuts(b, c));
        lemma_row_behind(g, e, ts, k + 1, sep, c, j);
        assert(us[k + 1] == ts[k]);
        assert(spelled(g, us[k + 1], i, b));
    }
}

/// An element from `i` up to `b`, and a sequence from `c` up to `j` behind it.
pub(crate) proof fn lemma_row_front(
    g: Gram,
    e: Tree,
    ts: Seq<Tree>,
    sep: Sep,
    i: int,
    b: int,
    c: int,
    j: int,
)
    requires
        spelled(g, e, i, b),
        step(g, sep, ts.len() == 0, b, c),
        row(g, ts, 0, sep, c, j),
    ensures
        row(g, seq![e] + ts, 0, sep, i, j),
{
    reveal(spelled);
    lemma_row_behind(g, e, ts, 0, sep, c, j);
    let us = seq![e] + ts;
    assert(us[0] == e);
    assert(cuts(b, c));
    assert(spelled(g, us[0], i, b));
    reveal(row);
}

/// A sequence of one element.
pub(crate) proof fn lemma_row_one(g: Gram, e: Tree, sep: Sep, i: int, j: int)
    requires
        spelled(g, e, i, j),
        step(g, sep, true, j, j),
    ensures
        row(g, seq![e], 0, sep, i, j),
{
    reveal(spelled);
    let none: Seq<Tree> = Seq::empty();
    assert(row(g, none, 0, sep, j, j)) by {
        reveal(row);
    }
    lemma_row_front(g, e, none, sep, i, j, j, j);
    assert(seq![e] + none =~= seq![e]);
}

/// The last one of a sequence of statements, and those before it.
pub(crate) proof fn lemma_row_last(g: Gram, ts: Seq<Tree>, k: int, i: int, j: int)
    requires
        0 <= k < ts.len(),
        row(g, ts, k, Sep::Nothing, i, j),
    ensures
        exists|m: int| #[trigger]
            cuts(m, m) && row(g, ts.drop_last(), k, Sep::Nothing, i, m) && spelled(
                g,
                ts.last(),
                m,
                j,
            ),
    decreases ts.len() - k,
{
    reveal(spelled);
    reveal(row);
    let us = ts.drop_last();
    let (b, c) = choose|b: int, c: int| #[trigger]
        cuts(b, c) && spelled(g, ts[k], i, b) && step(g, Sep::Nothing, k + 1 == ts.len(), b, c)
            && row(g, ts, k + 1, Sep::Nothing, c, j);
    assert(cuts(b, c));
    if k + 1 == ts.len() {
        assert(cuts(i, i) && row(g, us, k, Sep::Nothing, i, i) && spelled(g, ts.last(), i, j));
    } else {
        lemma_row_last(g, ts, k + 1, b, j);
        let m = choose|m: int| #[trigger]
            cuts(m, m) && row(g, us, k + 1, Sep::Nothing, b, m) && spelled(g, ts.last(), m, j);
        assert(cuts(m, m));
        assert(spelled(g, us[k], i, b));
        assert(row(g, us, k, Sep::Nothing, i, m) && spelled(g, ts.last(), m, j));
    }
}

/// What an expression that is a statement stands for.
pub(crate) proof fn lemma_expr_stmt(g: Gram, t: Tree, i: int, j: int)
    requires
        t.label is ExprStmt,
        spelled(g, t, i, j),
    ensures
        t.kids.len() == 1,
        rank(t.kids[0].label) >= -2,
        !starts_statement(g.kind(i)),
        exists|b: int| #[trigger] cuts(b, b) && spelled(g, t.kids[0], i, b) && stop(g, b, j),
{
    reveal(rank);
    reveal(woven);
    reveal(row);
    reveal(spelled);
    reveal(parts);
    reveal(part);
    let (a, b) = choose|a: int, b: int| #[trigger]
        cuts(a, b) && gap(g, t, 0, i, a) && part(g, t, 0, a, b) && parts(g, t, 1, b, j);
    assert(cuts(b, b) && spelled(g, t.kids[0], i, b) && stop(g, b, j));
}

/// What an identifier stands for.
pub(crate) proof fn lemma_ident_token(g: Gram, t: Tree, i: int, j: int)
    requires
        t.label is Ident,
        spelled(g, t, i, j),
    ensures
        j == i + 1,
        g.kind(i).is_word(),
        t.label->Ident_sym == g.text(i),
{
    reveal(part);
    reveal(woven);
    reveal(row);
    reveal(spelled);
    reveal(parts);
}

/// How tightly some expressions hold together.
pub(crate) proof fn lemma_rank(label: Label)
    ensures
        label matches Label::Bin { op } ==> rank(label) == level(op),
        label is TsAs || label is TsSatisfies ==> rank(label) == 7,
        rank(label) > 0 && !(label is Bin || label is TsAs || label is TsSatisfies) ==> rank(label)
            >= 15,
        label is Match || label is ZtsIf || label is Tpl ==> rank(label) == 20,
        label is Paren || label is Array || label is Object ==> rank(label) == 20,
        label is Arrow ==> rank(label) == -1,
        rank(label) >= 15 ==> !(label is Bin),
        label is Block || label is ZtsExprBlock ==> rank(label) == -3,
{
    reveal(level);
    reveal(rank);
}

/// What stands for a token is not left out.
pub(crate) proof fn lemma_not_absent(g: Gram, t: Tree, i: int, j: int)
    requires
        spelled(g, t, i, j),
        i < j,
    ensures
        !(t.label is Absent),
{
    reveal(spelled);
    reveal(parts);
    reveal(part);
    reveal(row);
    reveal(woven);
}

/// A sequence stands for tokens only as a part of a node.
pub(crate) proof fn lemma_no_list(g: Gram, t: Tree, i: int, j: int)
    requires
        spelled(g, t, i, j),
    ensures
        !(t.label is List),
{
    reveal(spelled);
    reveal(parts);
    reveal(row);
    reveal(woven);
}

pub(crate) proof fn lemma_absent_spelled(g: Gram, i: int)
    ensures
        spelled(g, absent(), i, i),
{
    lemma_made0(g, absent(), i, i);
}

pub(crate) proof fn lemma_ident(g: Gram, i: int)
    requires
        g.kind(i).is_word() || g.kind(i).is_ident_like(),
    ensures
        spelled(g, g.ident_at(i), i, i + 1),
        rank(g.ident_at(i).label) == 20,
{
    reveal(rank);
    reveal(Token::spec_is_word);
    reveal(Token::spec_is_ident_like);
    lemma_made0(g, g.ident_at(i), i, i + 1);
}

pub(crate) proof fn lemma_name(g: Gram, i: int)
    requires
        g.kind(i).is_word(),
    ensures
        spelled(g, ident_name(g.text(i), g.span_at(i)), i, i + 1),
{
    lemma_made0(g, ident_name(g.text(i), g.span_at(i)), i, i + 1);
}

pub(crate) proof fn lemma_binding(g: Gram, i: int)
    requires
        g.kind(i).is_ident_like(),
    ensures
        spelled(g, g.binding_at(i), i, i + 1),
{
    lemma_ident(g, i);
    lemma_absent_spelled(g, i + 1);
    lemma_made2(g, g.binding_at(i), i, i, i + 1, i + 1, i + 1, i + 1);
}

pub(crate) proof fn lemma_lit(g: Gram, i: int)
    requires
        is_lit(g.kind(i)),
    ensures
        spelled(g, g.lit_at(i), i, i + 1),
        rank(g.lit_at(i).label) == 20,
        g.kind(i) != Token::BigInt ==> is_literal(g.lit_at(i).label),
        g.kind(i) == Token::Num <==> g.lit_at(i).label is Num,
        g.kind(i) == Token::Str <==> g.lit_at(i).label is Str,
        g.kind(i) == Token::Null <==> g.lit_at(i).label is Null,
{
    reveal(is_lit);
    reveal(rank);
    lemma_made0(g, g.lit_at(i), i, i + 1);
}

pub(crate) proof fn lemma_prop_name_spelled(g: Gram, i: int)
    requires
        g.prop_name(i).res is Ok,
    ensures
        g.prop_name(i).next == i + 1,
        spelled(g, g.prop_name(i).tree(), i, i + 1),
        ({
            let l = g.prop_name(i).tree().label;
            l is IdentName || l is Str || l is Num
        }),
{
    reveal(is_lit);
    if g.kind(i) == Token::Str || g.kind(i) == Token::Num {
        lemma_lit(g, i);
    } else {
        lemma_name(g, i);
    }
}

} // verus!
