//! Nodes that are made of parts that stand for their tokens: `made_x` says of a node
//! `x` that it then stands for the tokens of its parts, with those between them.
use crate::ast::expr::BinaryOp;
use crate::ast::typescript::TsKeywordTypeKind;
use crate::grammar::{Gram, ListKind};
use crate::laws::spelling::{
    all_of_kind, assign_sign, binary_sign, enum_words, is_literal, is_target, lemma_made0,
    lemma_made1, lemma_made2, lemma_made3, lemma_made4, lemma_made_row, lemma_no_list, level,
    may_be_annotation, names_type, of_kind, rank, row, spelled, starts_statement, stop, type_rank,
    unary_sign, var_sign, Sep,
};
use crate::span::{Span, SyntaxContext};
use crate::token::Token;
use crate::tree::{Label, Tree};
use vstd::prelude::*;

verus! {

pub(crate) proof fn made_ts_keyword(g: Gram, t: Tree, i: int)
    requires
        0 <= i,
        i < i + 1 <= g.toks.len(),
        t.label is TsKeyword,
        t.kids.len() == 0,
        t.span == g.span_at(i),
        names_type(t.label->TsKeyword_kind, g.kind(i), g.text(i)),
    ensures
        spelled(g, t, i, i + 1),
        type_rank(t.label) == 2,
{
    reveal(rank);
    reveal(type_rank);
    lemma_made0(g, t, i, i + 1);
}

pub(crate) proof fn made_ts_type_ref(g: Gram, t: Tree, i: int, a: int)
    requires
        0 <= i,
        i < a <= g.toks.len(),
        t.label is TsTypeRef,
        t.kids.len() == 1,
        t.span == g.span_at(i),
        spelled(g, t.kids[0], i, a),
        a == i + 1,
        t.kids[0].label is Ident,
        forall|kind: TsKeywordTypeKind| !(#[trigger] names_type(kind, g.kind(i), g.text(i))),
    ensures
        spelled(g, t, i, a),
        type_rank(t.label) == 2,
{
    reveal(rank);
    reveal(type_rank);
    lemma_no_list(g, t.kids[0], i, a);
    lemma_made1(g, t, i, i, a, a);
}

pub(crate) proof fn made_ts_lit_type(g: Gram, t: Tree, i: int, a: int)
    requires
        0 <= i,
        i < a <= g.toks.len(),
        t.label is TsLitType,
        t.kids.len() == 1,
        t.span == g.span_at(i),
        spelled(g, t.kids[0], i, a),
        a == i + 1,
        is_literal(t.kids[0].label),
        !(t.kids[0].label is Null),
    ensures
        spelled(g, t, i, a),
        type_rank(t.label) == 2,
{
    reveal(rank);
    reveal(type_rank);
    lemma_no_list(g, t.kids[0], i, a);
    lemma_made1(g, t, i, i, a, a);
}

pub(crate) proof fn made_ts_parenthesized(g: Gram, t: Tree, i: int, a: int)
    requires
        0 <= i,
        i < a + 1 <= g.toks.len(),
        t.label is TsParenthesized,
        t.kids.len() == 1,
        t.span == g.span(g.lo(i), a + 1),
        g.kind(i) == Token::LParen,
        g.kind(a) == Token::RParen,
        spelled(g, t.kids[0], i + 1, a),
        type_rank(t.kids[0].label) >= 1,
    ensures
        spelled(g, t, i, a + 1),
        type_rank(t.label) == 2,
{
    reveal(rank);
    reveal(type_rank);
    lemma_no_list(g, t.kids[0], i + 1, a);
    lemma_made1(g, t, i, i + 1, a, a + 1);
}

pub(crate) proof fn made_ts_array(g: Gram, t: Tree, i: int, a: int)
    requires
        0 <= i,
        i < a + 2 <= g.toks.len(),
        t.label is TsArray,
        t.kids.len() == 1,
        t.span == g.span(g.lo(i), a + 2),
        g.kind(a) == Token::LBracket,
        g.kind(a + 1) == Token::RBracket,
        spelled(g, t.kids[0], i, a),
        type_rank(t.kids[0].label) == 2,
        !g.nl(a),
    ensures
        spelled(g, t, i, a + 2),
        type_rank(t.label) == 2,
{
    reveal(rank);
    reveal(type_rank);
    lemma_no_list(g, t.kids[0], i, a);
    lemma_made1(g, t, i, i, a, a + 2);
}

pub(crate) proof fn made_ts_union(g: Gram, t: Tree, i: int, b: int)
    requires
        0 <= i,
        i < b <= g.toks.len(),
        t.label is TsUnion,
        t.span == g.span(g.lo(i), b),
        row(g, t.kids, 0, Sep::Pipes, i, b),
        t.kids.len() >= 2,
        forall|n: int| 0 <= n < t.kids.len() ==> type_rank((#[trigger] t.kids[n]).label) == 2,
    ensures
        spelled(g, t, i, b),
        type_rank(t.label) == 1,
{
    reveal(rank);
    reveal(type_rank);
    lemma_made_row(g, t, i, i, b, b);
}

pub(crate) proof fn made_ts_type_ann(g: Gram, t: Tree, i: int, a: int)
    requires
        0 <= i,
        i < a <= g.toks.len(),
        t.label is TsTypeAnn,
        t.kids.len() == 1,
        t.span == g.span(g.lo(i), a),
        g.kind(i) == Token::Colon,
        spelled(g, t.kids[0], i + 1, a),
        type_rank(t.kids[0].label) >= 1,
    ensures
        spelled(g, t, i, a),
{
    reveal(rank);
    reveal(type_rank);
    lemma_no_list(g, t.kids[0], i + 1, a);
    lemma_made1(g, t, i, i + 1, a, a);
}

pub(crate) proof fn made_object_pat(g: Gram, t: Tree, i: int, a: int, b: int)
    requires
        0 <= i,
        i < b <= g.toks.len(),
        t.label == (Label::ObjectPat { optional: false }),
        t.kids.len() == 2,
        g.kind(i) == Token::LBrace,
        g.kind(a) == Token::RBrace,
        t.kids[0].label is List,
        row(g, t.kids[0].kids, 0, Sep::Closed, i + 1, a),
        spelled(g, t.kids[1], a + 1, b),
        all_of_kind(ListKind::PatProps, t.kids[0].kids),
        may_be_annotation(t.kids[1].label),
        t.kids[1].label is Absent ==> t.span == g.span(g.lo(i), b),
    ensures
        spelled(g, t, i, b),
{
    reveal(rank);
    reveal(type_rank);
    lemma_no_list(g, t.kids[1], a + 1, b);
    lemma_made2(g, t, i, i + 1, a, a + 1, b, b);
}

pub(crate) proof fn made_binding_ident(g: Gram, t: Tree, i: int, a: int, b: int)
    requires
        0 <= i,
        i < b <= g.toks.len(),
        t.label is BindingIdent,
        t.kids.len() == 2,
        t.span == g.span_at(i),
        spelled(g, t.kids[0], i, a),
        spelled(g, t.kids[1], a, b),
        a == i + 1,
        t.kids[0].label is Ident,
        may_be_annotation(t.kids[1].label),
    ensures
        spelled(g, t, i, b),
{
    reveal(rank);
    reveal(type_rank);
    lemma_no_list(g, t.kids[0], i, a);
    lemma_no_list(g, t.kids[1], a, b);
    lemma_made2(g, t, i, i, a, a, b, b);
}

pub(crate) proof fn made_rest(g: Gram, t: Tree, i: int, a: int)
    requires
        0 <= i,
        i < a <= g.toks.len(),
        t.label == (Label::Rest { dots: g.toks[i].span }),
        t.kids.len() == 1,
        t.span == g.span(g.lo(i), a),
        g.kind(i) == Token::DotDotDot,
        spelled(g, t.kids[0], i + 1, a),
        is_target(t.kids[0].label),
    ensures
        spelled(g, t, i, a),
{
    reveal(rank);
    reveal(type_rank);
    lemma_no_list(g, t.kids[0], i + 1, a);
    lemma_made1(g, t, i, i + 1, a, a);
}

pub(crate) proof fn made_key_value_pat(g: Gram, t: Tree, i: int, a: int, b: int)
    requires
        0 <= i,
        i < b <= g.toks.len(),
        t.label is KeyValuePat,
        t.kids.len() == 2,
        t.span == Span::spec_dummy(),
        g.kind(a) == Token::Colon,
        spelled(g, t.kids[0], i, a),
        spelled(g, t.kids[1], a + 1, b),
        t.kids[0].label is IdentName,
        of_kind(ListKind::Params, t.kids[1].label),
    ensures
        spelled(g, t, i, b),
{
    reveal(rank);
    reveal(type_rank);
    lemma_no_list(g, t.kids[0], i, a);
    lemma_no_list(g, t.kids[1], a + 1, b);
    lemma_made2(g, t, i, i, a, a + 1, b, b);
}

pub(crate) proof fn made_assign_pat_prop(g: Gram, t: Tree, i: int, a: int, b: int)
    requires
        0 <= i,
        i < b <= g.toks.len(),
        t.label is AssignPatProp,
        t.kids.len() == 2,
        t.span == g.span(g.lo(i), b),
        g.kind(a) == Token::Eq,
        spelled(g, t.kids[0], i, a),
        spelled(g, t.kids[1], a + 1, b),
        t.kids[0].label is BindingIdent,
        rank(t.kids[1].label) >= -1,
    ensures
        spelled(g, t, i, b),
{
    reveal(rank);
    reveal(type_rank);
    lemma_no_list(g, t.kids[0], i, a);
    lemma_no_list(g, t.kids[1], a + 1, b);
    lemma_made2(g, t, i, i, a, a + 1, b, b);
}

pub(crate) proof fn made_bare_pat_prop(g: Gram, t: Tree, i: int, a: int, b: int)
    requires
        0 <= i,
        i < b <= g.toks.len(),
        t.label is AssignPatProp,
        t.kids.len() == 2,
        t.span == g.span(g.lo(i), b),
        spelled(g, t.kids[0], i, a),
        spelled(g, t.kids[1], a, b),
        t.kids[0].label is BindingIdent,
        t.kids[1].label is Absent,
    ensures
        spelled(g, t, i, b),
{
    reveal(rank);
    reveal(type_rank);
    lemma_no_list(g, t.kids[0], i, a);
    lemma_no_list(g, t.kids[1], a, b);
    lemma_made2(g, t, i, i, a, a, b, b);
}

pub(crate) proof fn made_assign_pat(g: Gram, t: Tree, i: int, a: int, b: int)
    requires
        0 <= i,
        i < b <= g.toks.len(),
        t.label is AssignPat,
        t.kids.len() == 2,
        t.span == g.span(g.lo(i), b),
        g.kind(a) == Token::Eq,
        spelled(g, t.kids[0], i, a),
        spelled(g, t.kids[1], a + 1, b),
        is_target(t.kids[0].label),
        rank(t.kids[1].label) >= -1,
    ensures
        spelled(g, t, i, b),
{
    reveal(rank);
    reveal(type_rank);
    lemma_no_list(g, t.kids[0], i, a);
    lemma_no_list(g, t.kids[1], a + 1, b);
    lemma_made2(g, t, i, i, a, a + 1, b, b);
}

pub(crate) proof fn made_seq_expr(g: Gram, t: Tree, i: int, b: int)
    requires
        0 <= i,
        i < b <= g.toks.len(),
        t.label is SeqExpr,
        t.span == g.span(g.lo(i), b),
        row(g, t.kids, 0, Sep::Commas, i, b),
        t.kids.len() >= 2,
        all_of_kind(ListKind::Elems, t.kids),
    ensures
        spelled(g, t, i, b),
        rank(t.label) == -2,
{
    reveal(rank);
    reveal(type_rank);
    lemma_made_row(g, t, i, i, b, b);
}

pub(crate) proof fn made_array(g: Gram, t: Tree, i: int, b: int)
    requires
        0 <= i,
        i < b + 1 <= g.toks.len(),
        t.label is Array,
        t.span == g.span(g.lo(i), b + 1),
        g.kind(i) == Token::LBracket,
        g.kind(b) == Token::RBracket,
        row(g, t.kids, 0, Sep::Closed, i + 1, b),
        all_of_kind(ListKind::Elems, t.kids),
    ensures
        spelled(g, t, i, b + 1),
        rank(t.label) == 20,
{
    reveal(rank);
    reveal(type_rank);
    lemma_made_row(g, t, i, i + 1, b, b + 1);
}

pub(crate) proof fn made_object(g: Gram, t: Tree, i: int, b: int)
    requires
        0 <= i,
        i < b + 1 <= g.toks.len(),
        t.label is Object,
        t.span == g.span(g.lo(i), b + 1),
        g.kind(i) == Token::LBrace,
        g.kind(b) == Token::RBrace,
        row(g, t.kids, 0, Sep::Closed, i + 1, b),
        all_of_kind(ListKind::Props, t.kids),
    ensures
        spelled(g, t, i, b + 1),
        rank(t.label) == 20,
{
    reveal(rank);
    reveal(type_rank);
    lemma_made_row(g, t, i, i + 1, b, b + 1);
}

pub(crate) proof fn made_assign(g: Gram, t: Tree, i: int, a: int, b: int)
    requires
        0 <= i,
        i < b <= g.toks.len(),
        t.label is Assign,
        t.kids.len() == 2,
        t.span == g.span(g.lo(i), b),
        g.kind(a) == assign_sign(t.label->Assign_op),
        spelled(g, t.kids[0], i, a),
        spelled(g, t.kids[1], a + 1, b),
        t.kids[0].label is Ident || t.kids[0].label is Member,
        rank(t.kids[1].label) >= -1,
    ensures
        spelled(g, t, i, b),
        rank(t.label) == -1,
{
    reveal(rank);
    reveal(type_rank);
    lemma_no_list(g, t.kids[0], i, a);
    lemma_no_list(g, t.kids[1], a + 1, b);
    lemma_made2(g, t, i, i, a, a + 1, b, b);
}

pub(crate) proof fn made_arrow(g: Gram, t: Tree, i: int, a: int, b: int)
    requires
        0 <= i,
        i < b <= g.toks.len(),
        t.label == (Label::Arrow { ctxt: SyntaxContext(0) }),
        t.kids.len() == 2,
        t.span == g.span(g.lo(i), b),
        g.kind(i) == Token::LParen,
        g.kind(a) == Token::RParen,
        g.kind(a + 1) == Token::Arrow,
        t.kids[0].label is List,
        row(g, t.kids[0].kids, 0, Sep::Closed, i + 1, a),
        spelled(g, t.kids[1], a + 2, b),
        all_of_kind(ListKind::Params, t.kids[0].kids),
        t.kids[1].label is Block || rank(t.kids[1].label) >= -1,
        t.kids[1].label is Block <==> g.kind(a + 2) == Token::LBrace,
    ensures
        spelled(g, t, i, b),
        rank(t.label) == -1,
{
    reveal(rank);
    reveal(type_rank);
    lemma_no_list(g, t.kids[1], a + 2, b);
    lemma_made2(g, t, i, i + 1, a, a + 2, b, b);
}

pub(crate) proof fn made_short_arrow(g: Gram, t: Tree, i: int, a: int, b: int)
    requires
        0 <= i,
        i < b <= g.toks.len(),
        t.label == (Label::Arrow { ctxt: SyntaxContext(0) }),
        t.kids.len() == 2,
        t.span == g.span(g.lo(i), b),
        g.kind(a) == Token::Arrow,
        t.kids[0].label is List,
        row(g, t.kids[0].kids, 0, Sep::Closed, i, a),
        spelled(g, t.kids[1], a + 1, b),
        g.kind(i) != Token::LParen,
        all_of_kind(ListKind::Params, t.kids[0].kids),
        t.kids[1].label is Block || rank(t.kids[1].label) >= -1,
        t.kids[1].label is Block <==> g.kind(a + 1) == Token::LBrace,
    ensures
        spelled(g, t, i, b),
        rank(t.label) == -1,
{
    reveal(rank);
    reveal(type_rank);
    lemma_no_list(g, t.kids[1], a + 1, b);
    lemma_made2(g, t, i, i, a, a + 1, b, b);
}

pub(crate) proof fn made_cond(g: Gram, t: Tree, i: int, a: int, b: int, c: int)
    requires
        0 <= i,
        i < c <= g.toks.len(),
        t.label is Cond,
        t.kids.len() == 3,
        t.span == g.span(g.lo(i), c),
        g.kind(a) == Token::Question,
        g.kind(b) == Token::Colon,
        spelled(g, t.kids[0], i, a),
        spelled(g, t.kids[1], a + 1, b),
        spelled(g, t.kids[2], b + 1, c),
        rank(t.kids[0].label) >= 1,
        rank(t.kids[1].label) >= -1,
        rank(t.kids[2].label) >= -1,
    ensures
        spelled(g, t, i, c),
        rank(t.label) == 0,
{
    reveal(rank);
    reveal(type_rank);
    lemma_no_list(g, t.kids[0], i, a);
    lemma_no_list(g, t.kids[1], a + 1, b);
    lemma_no_list(g, t.kids[2], b + 1, c);
    lemma_made3(g, t, i, i, a, a + 1, b, b + 1, c, c);
}

pub(crate) proof fn made_bin(g: Gram, t: Tree, i: int, a: int, b: int)
    requires
        0 <= i,
        i < b <= g.toks.len(),
        t.label is Bin,
        t.kids.len() == 2,
        t.span == g.span(g.lo(i), b),
        g.kind(a) == binary_sign(t.label->Bin_op),
        spelled(g, t.kids[0], i, a),
        spelled(g, t.kids[1], a + 1, b),
        ({
            let op = t.label->Bin_op;
            ||| rank(t.kids[0].label) >= (if op == BinaryOp::Exp { 12 } else { level(op) })
            ||| t.kids[0].label is TsAs
            ||| t.kids[0].label is TsSatisfies
        }),
        ({
            let op = t.label->Bin_op;
            rank(t.kids[1].label) >= (if op == BinaryOp::Exp { 11 } else { level(op) + 1 })
        }),
    ensures
        spelled(g, t, i, b),
        rank(t.label) == level(t.label->Bin_op),
{
    reveal(rank);
    reveal(type_rank);
    lemma_no_list(g, t.kids[0], i, a);
    lemma_no_list(g, t.kids[1], a + 1, b);
    lemma_made2(g, t, i, i, a, a + 1, b, b);
}

pub(crate) proof fn made_ts_as(g: Gram, t: Tree, i: int, a: int, b: int)
    requires
        0 <= i,
        i < b <= g.toks.len(),
        t.label is TsAs,
        t.kids.len() == 2,
        t.span == g.span(g.lo(i), b),
        g.kind(a) == Token::As,
        spelled(g, t.kids[0], i, a),
        spelled(g, t.kids[1], a + 1, b),
        rank(t.kids[0].label) >= 7,
        type_rank(t.kids[1].label) >= 1,
    ensures
        spelled(g, t, i, b),
        rank(t.label) == 7,
{
    reveal(rank);
    reveal(type_rank);
    lemma_no_list(g, t.kids[0], i, a);
    lemma_no_list(g, t.kids[1], a + 1, b);
    lemma_made2(g, t, i, i, a, a + 1, b, b);
}

pub(crate) proof fn made_ts_satisfies(g: Gram, t: Tree, i: int, a: int, b: int)
    requires
        0 <= i,
        i < b <= g.toks.len(),
        t.label is TsSatisfies,
        t.kids.len() == 2,
        t.span == g.span(g.lo(i), b),
        g.kind(a) == Token::Satisfies,
        spelled(g, t.kids[0], i, a),
        spelled(g, t.kids[1], a + 1, b),
        rank(t.kids[0].label) >= 7,
        type_rank(t.kids[1].label) >= 1,
    ensures
        spelled(g, t, i, b),
        rank(t.label) == 7,
{
    reveal(rank);
    reveal(type_rank);
    lemma_no_list(g, t.kids[0], i, a);
    lemma_no_list(g, t.kids[1], a + 1, b);
    lemma_made2(g, t, i, i, a, a + 1, b, b);
}

pub(crate) proof fn made_unary(g: Gram, t: Tree, i: int, a: int)
    requires
        0 <= i,
        i < a <= g.toks.len(),
        t.label is Unary,
        t.kids.len() == 1,
        t.span == g.span(g.lo(i), a),
        unary_sign(g, t.label->Unary_op, i),
        spelled(g, t.kids[0], i + 1, a),
        rank(t.kids[0].label) >= 15,
    ensures
        spelled(g, t, i, a),
        rank(t.label) == 15,
{
    reveal(rank);
    reveal(type_rank);
    lemma_no_list(g, t.kids[0], i + 1, a);
    lemma_made1(g, t, i, i + 1, a, a);
}

pub(crate) proof fn made_computed_prop(g: Gram, t: Tree, i: int, a: int)
    requires
        0 <= i,
        i < a + 1 <= g.toks.len(),
        t.label is ComputedProp,
        t.kids.len() == 1,
        t.span == g.span(g.lo(i), a + 1),
        g.kind(i) == Token::LBracket,
        g.kind(a) == Token::RBracket,
        spelled(g, t.kids[0], i + 1, a),
        rank(t.kids[0].label) >= -2,
    ensures
        spelled(g, t, i, a + 1),
{
    reveal(rank);
    reveal(type_rank);
    lemma_no_list(g, t.kids[0], i + 1, a);
    lemma_made1(g, t, i, i + 1, a, a + 1);
}

pub(crate) proof fn made_computed_member(g: Gram, t: Tree, i: int, a: int, b: int)
    requires
        0 <= i,
        i < b <= g.toks.len(),
        t.label is Member,
        t.kids.len() == 2,
        t.span == g.span(g.lo(i), b),
        spelled(g, t.kids[0], i, a),
        spelled(g, t.kids[1], a, b),
        rank(t.kids[0].label) == 20,
        t.kids[1].label is ComputedProp,
    ensures
        spelled(g, t, i, b),
        rank(t.label) == 20,
{
    reveal(rank);
    reveal(type_rank);
    lemma_no_list(g, t.kids[0], i, a);
    lemma_no_list(g, t.kids[1], a, b);
    lemma_made2(g, t, i, i, a, a, b, b);
}

pub(crate) proof fn made_member(g: Gram, t: Tree, i: int, a: int, b: int)
    requires
        0 <= i,
        i < b <= g.toks.len(),
        t.label is Member,
        t.kids.len() == 2,
        t.span == g.span(g.lo(i), b),
        g.kind(a) == Token::Dot,
        spelled(g, t.kids[0], i, a),
        spelled(g, t.kids[1], a + 1, b),
        rank(t.kids[0].label) == 20,
        t.kids[1].label is IdentName,
    ensures
        spelled(g, t, i, b),
        rank(t.label) == 20,
{
    reveal(rank);
    reveal(type_rank);
    lemma_no_list(g, t.kids[0], i, a);
    lemma_no_list(g, t.kids[1], a + 1, b);
    lemma_made2(g, t, i, i, a, a + 1, b, b);
}

pub(crate) proof fn made_call(g: Gram, t: Tree, i: int, a: int, b: int)
    requires
        0 <= i,
        i < b + 1 <= g.toks.len(),
        t.label == (Label::Call { ctxt: SyntaxContext(0) }),
        t.kids.len() == 2,
        t.span == g.span(g.lo(i), b + 1),
        g.kind(a) == Token::LParen,
        g.kind(b) == Token::RParen,
        spelled(g, t.kids[0], i, a),
        t.kids[1].label is List,
        row(g, t.kids[1].kids, 0, Sep::Closed, a + 1, b),
        rank(t.kids[0].label) == 20,
        all_of_kind(ListKind::Args, t.kids[1].kids),
    ensures
        spelled(g, t, i, b + 1),
        rank(t.label) == 20,
{
    reveal(rank);
    reveal(type_rank);
    lemma_no_list(g, t.kids[0], i, a);
    lemma_made2(g, t, i, i, a, a + 1, b, b + 1);
}

pub(crate) proof fn made_tagged_tpl(g: Gram, t: Tree, i: int, a: int, b: int)
    requires
        0 <= i,
        i < b <= g.toks.len(),
        t.label == (Label::TaggedTpl { ctxt: SyntaxContext(0) }),
        t.kids.len() == 2,
        t.span == g.span(g.lo(i), b),
        spelled(g, t.kids[0], i, a),
        spelled(g, t.kids[1], a, b),
        rank(t.kids[0].label) == 20,
        t.kids[1].label is Tpl,
    ensures
        spelled(g, t, i, b),
        rank(t.label) == 20,
{
    reveal(rank);
    reveal(type_rank);
    lemma_no_list(g, t.kids[0], i, a);
    lemma_no_list(g, t.kids[1], a, b);
    lemma_made2(g, t, i, i, a, a, b, b);
}

pub(crate) proof fn made_ts_non_null(g: Gram, t: Tree, i: int, a: int)
    requires
        0 <= i,
        i < a + 1 <= g.toks.len(),
        t.label is TsNonNull,
        t.kids.len() == 1,
        t.span == g.span(g.lo(i), a + 1),
        g.kind(a) == Token::Bang,
        spelled(g, t.kids[0], i, a),
        rank(t.kids[0].label) == 20,
    ensures
        spelled(g, t, i, a + 1),
        rank(t.label) == 20,
{
    reveal(rank);
    reveal(type_rank);
    lemma_no_list(g, t.kids[0], i, a);
    lemma_made1(g, t, i, i, a, a + 1);
}

pub(crate) proof fn made_paren(g: Gram, t: Tree, i: int, a: int)
    requires
        0 <= i,
        i < a + 1 <= g.toks.len(),
        t.label is Paren,
        t.kids.len() == 1,
        t.span == g.span(g.lo(i), a + 1),
        g.kind(i) == Token::LParen,
        g.kind(a) == Token::RParen,
        spelled(g, t.kids[0], i + 1, a),
        rank(t.kids[0].label) >= -2,
    ensures
        spelled(g, t, i, a + 1),
        rank(t.label) == 20,
{
    reveal(rank);
    reveal(type_rank);
    lemma_no_list(g, t.kids[0], i + 1, a);
    lemma_made1(g, t, i, i + 1, a, a + 1);
}

pub(crate) proof fn made_key_value_prop(g: Gram, t: Tree, i: int, a: int, b: int)
    requires
        0 <= i,
        i < b <= g.toks.len(),
        t.label is KeyValueProp,
        t.kids.len() == 2,
        t.span == Span::spec_dummy(),
        g.kind(a) == Token::Colon,
        spelled(g, t.kids[0], i, a),
        spelled(g, t.kids[1], a + 1, b),
        t.kids[0].label is IdentName || t.kids[0].label is Str || t.kids[0].label is Num,
        rank(t.kids[1].label) >= -1,
    ensures
        spelled(g, t, i, b),
{
    reveal(rank);
    reveal(type_rank);
    lemma_no_list(g, t.kids[0], i, a);
    lemma_no_list(g, t.kids[1], a + 1, b);
    lemma_made2(g, t, i, i, a, a + 1, b, b);
}

pub(crate) proof fn made_match(g: Gram, t: Tree, i: int, a: int, b: int)
    requires
        0 <= i,
        i < b + 1 <= g.toks.len(),
        t.label is Match,
        t.kids.len() == 2,
        t.span == g.span(g.lo(i), b + 1),
        g.kind(i).is_word(),
        g.kind(i + 1) == Token::LParen,
        g.kind(a) == Token::RParen,
        g.kind(a + 1) == Token::LBrace,
        g.kind(b) == Token::RBrace,
        spelled(g, t.kids[0], i + 2, a),
        t.kids[1].label is List,
        row(g, t.kids[1].kids, 0, Sep::Closed, a + 2, b),
        g.text(i) == "match"@,
        !g.nl(a + 1),
        rank(t.kids[0].label) >= -2,
        all_of_kind(ListKind::Arms, t.kids[1].kids),
        t.kids[1].kids.len() > 0,
    ensures
        spelled(g, t, i, b + 1),
        rank(t.label) == 20,
{
    reveal(rank);
    reveal(type_rank);
    lemma_no_list(g, t.kids[0], i + 2, a);
    lemma_made2(g, t, i, i + 2, a, a + 2, b, b + 1);
}

pub(crate) proof fn made_match_arm(g: Gram, t: Tree, i: int, a: int, b: int)
    requires
        0 <= i,
        i < b <= g.toks.len(),
        t.label is MatchArm,
        t.kids.len() == 2,
        t.span == g.span(g.lo(i), b),
        g.kind(a) == Token::Arrow,
        spelled(g, t.kids[0], i, a),
        spelled(g, t.kids[1], a + 1, b),
        t.kids[0].label is MatchWildcard || t.kids[0].label is MatchLit
            || t.kids[0].label is MatchVariant,
        t.kids[1].label is ZtsExprBlock || rank(t.kids[1].label) >= -1,
        t.kids[1].label is ZtsExprBlock <==> g.kind(a + 1) == Token::LBrace,
    ensures
        spelled(g, t, i, b),
{
    reveal(rank);
    reveal(type_rank);
    lemma_no_list(g, t.kids[0], i, a);
    lemma_no_list(g, t.kids[1], a + 1, b);
    lemma_made2(g, t, i, i, a, a + 1, b, b);
}

pub(crate) proof fn made_match_wildcard(g: Gram, t: Tree, i: int)
    requires
        0 <= i,
        i < i + 1 <= g.toks.len(),
        t.label is MatchWildcard,
        t.kids.len() == 0,
        t.span == g.span(g.lo(i), i + 1),
        g.kind(i).is_word(),
        g.text(i) == "_"@,
    ensures
        spelled(g, t, i, i + 1),
{
    reveal(rank);
    reveal(type_rank);
    lemma_made0(g, t, i, i + 1);
}

pub(crate) proof fn made_match_lit(g: Gram, t: Tree, i: int, a: int)
    requires
        0 <= i,
        i < a <= g.toks.len(),
        t.label == (Label::MatchLit { neg: false }),
        t.kids.len() == 1,
        t.span == g.span(g.lo(i), a),
        spelled(g, t.kids[0], i, a),
        is_literal(t.kids[0].label),
    ensures
        spelled(g, t, i, a),
{
    reveal(rank);
    reveal(type_rank);
    lemma_no_list(g, t.kids[0], i, a);
    lemma_made1(g, t, i, i, a, a);
}

pub(crate) proof fn made_match_neg_lit(g: Gram, t: Tree, i: int, a: int)
    requires
        0 <= i,
        i < a <= g.toks.len(),
        t.label == (Label::MatchLit { neg: true }),
        t.kids.len() == 1,
        t.span == g.span(g.lo(i), a),
        g.kind(i) == Token::Minus,
        spelled(g, t.kids[0], i + 1, a),
        t.kids[0].label is Num,
    ensures
        spelled(g, t, i, a),
{
    reveal(rank);
    reveal(type_rank);
    lemma_no_list(g, t.kids[0], i + 1, a);
    lemma_made1(g, t, i, i + 1, a, a);
}

pub(crate) proof fn made_match_variant(g: Gram, t: Tree, i: int, a: int, b: int)
    requires
        0 <= i,
        i < b <= g.toks.len(),
        t.label is MatchVariant,
        t.kids.len() == 2,
        t.span == g.span(g.lo(i), b),
        spelled(g, t.kids[0], i, a),
        spelled(g, t.kids[1], a, b),
        t.kids[0].label is Ident,
        t.kids[1].label is ObjectPat,
    ensures
        spelled(g, t, i, b),
{
    reveal(rank);
    reveal(type_rank);
    lemma_no_list(g, t.kids[0], i, a);
    lemma_no_list(g, t.kids[1], a, b);
    lemma_made2(g, t, i, i, a, a, b, b);
}

pub(crate) proof fn made_zts_if(g: Gram, t: Tree, i: int, a: int, b: int, c: int)
    requires
        0 <= i,
        i < c <= g.toks.len(),
        t.label is ZtsIf,
        t.kids.len() == 3,
        t.span == g.span(g.lo(i), c),
        g.kind(i) == Token::If,
        g.kind(i + 1) == Token::LParen,
        g.kind(a) == Token::RParen,
        g.kind(b) == Token::Else,
        spelled(g, t.kids[0], i + 2, a),
        spelled(g, t.kids[1], a + 1, b),
        spelled(g, t.kids[2], b + 1, c),
        rank(t.kids[0].label) >= -2,
        t.kids[1].label is ZtsExprBlock,
        t.kids[2].label is ZtsExprBlock || t.kids[2].label is ZtsIf,
    ensures
        spelled(g, t, i, c),
        rank(t.label) == 20,
{
    reveal(rank);
    reveal(type_rank);
    lemma_no_list(g, t.kids[0], i + 2, a);
    lemma_no_list(g, t.kids[1], a + 1, b);
    lemma_no_list(g, t.kids[2], b + 1, c);
    lemma_made3(g, t, i, i + 2, a, a + 1, b, b + 1, c, c);
}

pub(crate) proof fn made_zts_expr_block(g: Gram, t: Tree, i: int, a: int, b: int)
    requires
        0 <= i,
        i < b + 1 <= g.toks.len(),
        t.label is ZtsExprBlock,
        t.kids.len() == 2,
        t.span == g.span(g.lo(i), b + 1),
        g.kind(i) == Token::LBrace,
        g.kind(b) == Token::RBrace,
        t.kids[0].label is List,
        row(g, t.kids[0].kids, 0, Sep::Nothing, i + 1, a),
        spelled(g, t.kids[1], a, b),
        !starts_statement(g.kind(a)),
        rank(t.kids[1].label) >= -2,
    ensures
        spelled(g, t, i, b + 1),
{
    reveal(rank);
    reveal(type_rank);
    lemma_no_list(g, t.kids[1], a, b);
    lemma_made2(g, t, i, i + 1, a, a, b, b + 1);
}

pub(crate) proof fn made_zts_expr_block_semi(g: Gram, t: Tree, i: int, a: int, b: int)
    requires
        0 <= i,
        i < b + 2 <= g.toks.len(),
        t.label is ZtsExprBlock,
        t.kids.len() == 2,
        t.span == g.span(g.lo(i), b + 2),
        g.kind(i) == Token::LBrace,
        g.kind(b) == Token::Semi,
        g.kind(b + 1) == Token::RBrace,
        t.kids[0].label is List,
        row(g, t.kids[0].kids, 0, Sep::Nothing, i + 1, a),
        spelled(g, t.kids[1], a, b),
        !starts_statement(g.kind(a)),
        rank(t.kids[1].label) >= -2,
    ensures
        spelled(g, t, i, b + 2),
{
    reveal(rank);
    reveal(type_rank);
    lemma_no_list(g, t.kids[1], a, b);
    lemma_made2(g, t, i, i + 1, a, a, b, b + 2);
}

pub(crate) proof fn made_block(g: Gram, t: Tree, i: int, a: int)
    requires
        0 <= i,
        i < a + 1 <= g.toks.len(),
        t.label == (Label::Block { ctxt: SyntaxContext(0) }),
        t.kids.len() == 1,
        t.span == g.span(g.lo(i), a + 1),
        g.kind(i) == Token::LBrace,
        g.kind(a) == Token::RBrace,
        t.kids[0].label is List,
        row(g, t.kids[0].kids, 0, Sep::Nothing, i + 1, a),
    ensures
        spelled(g, t, i, a + 1),
{
    reveal(rank);
    reveal(type_rank);
    lemma_made1(g, t, i, i + 1, a, a + 1);
}

pub(crate) proof fn made_empty(g: Gram, t: Tree, i: int)
    requires
        0 <= i,
        i < i + 1 <= g.toks.len(),
        t.label is Empty,
        t.kids.len() == 0,
        t.span == g.span(g.lo(i), i + 1),
        g.kind(i) == Token::Semi,
    ensures
        spelled(g, t, i, i + 1),
{
    reveal(rank);
    reveal(type_rank);
    lemma_made0(g, t, i, i + 1);
}

pub(crate) proof fn made_labeled(g: Gram, t: Tree, i: int, a: int, b: int)
    requires
        0 <= i,
        i < b <= g.toks.len(),
        t.label is Labeled,
        t.kids.len() == 2,
        t.span == g.span(g.lo(i), b),
        g.kind(a) == Token::Colon,
        spelled(g, t.kids[0], i, a),
        spelled(g, t.kids[1], a + 1, b),
        t.kids[0].label is Ident,
    ensures
        spelled(g, t, i, b),
{
    reveal(rank);
    reveal(type_rank);
    lemma_no_list(g, t.kids[0], i, a);
    lemma_no_list(g, t.kids[1], a + 1, b);
    lemma_made2(g, t, i, i, a, a + 1, b, b);
}

pub(crate) proof fn made_if(g: Gram, t: Tree, i: int, a: int, b: int, c: int)
    requires
        0 <= i,
        i < c <= g.toks.len(),
        t.label is If,
        t.kids.len() == 3,
        t.span == g.span(g.lo(i), c),
        g.kind(i) == Token::If,
        g.kind(i + 1) == Token::LParen,
        g.kind(a) == Token::RParen,
        g.kind(b) == Token::Else,
        spelled(g, t.kids[0], i + 2, a),
        spelled(g, t.kids[1], a + 1, b),
        spelled(g, t.kids[2], b + 1, c),
        rank(t.kids[0].label) >= -2,
        !(t.kids[2].label is Absent),
    ensures
        spelled(g, t, i, c),
{
    reveal(rank);
    reveal(type_rank);
    lemma_no_list(g, t.kids[0], i + 2, a);
    lemma_no_list(g, t.kids[1], a + 1, b);
    lemma_no_list(g, t.kids[2], b + 1, c);
    lemma_made3(g, t, i, i + 2, a, a + 1, b, b + 1, c, c);
}

pub(crate) proof fn made_bare_if(g: Gram, t: Tree, i: int, a: int, b: int, c: int)
    requires
        0 <= i,
        i < c <= g.toks.len(),
        t.label is If,
        t.kids.len() == 3,
        t.span == g.span(g.lo(i), c),
        g.kind(i) == Token::If,
        g.kind(i + 1) == Token::LParen,
        g.kind(a) == Token::RParen,
        spelled(g, t.kids[0], i + 2, a),
        spelled(g, t.kids[1], a + 1, b),
        spelled(g, t.kids[2], b, c),
        rank(t.kids[0].label) >= -2,
        t.kids[2].label is Absent,
        g.kind(b) != Token::Else,
    ensures
        spelled(g, t, i, c),
{
    reveal(rank);
    reveal(type_rank);
    lemma_no_list(g, t.kids[0], i + 2, a);
    lemma_no_list(g, t.kids[1], a + 1, b);
    lemma_no_list(g, t.kids[2], b, c);
    lemma_made3(g, t, i, i + 2, a, a + 1, b, b, c, c);
}

pub(crate) proof fn made_while(g: Gram, t: Tree, i: int, a: int, b: int)
    requires
        0 <= i,
        i < b <= g.toks.len(),
        t.label is While,
        t.kids.len() == 2,
        t.span == g.span(g.lo(i), b),
        g.kind(i) == Token::While,
        g.kind(i + 1) == Token::LParen,
        g.kind(a) == Token::RParen,
        spelled(g, t.kids[0], i + 2, a),
        spelled(g, t.kids[1], a + 1, b),
        rank(t.kids[0].label) >= -2,
    ensures
        spelled(g, t, i, b),
{
    reveal(rank);
    reveal(type_rank);
    lemma_no_list(g, t.kids[0], i + 2, a);
    lemma_no_list(g, t.kids[1], a + 1, b);
    lemma_made2(g, t, i, i + 2, a, a + 1, b, b);
}

pub(crate) proof fn made_for(g: Gram, t: Tree, i: int, a: int, b: int, c: int, d: int)
    requires
        0 <= i,
        i < d <= g.toks.len(),
        t.label is For,
        t.kids.len() == 4,
        t.span == g.span(g.lo(i), d),
        g.kind(i) == Token::For,
        g.kind(i + 1) == Token::LParen,
        g.kind(a) == Token::Semi,
        g.kind(b) == Token::Semi,
        g.kind(c) == Token::RParen,
        spelled(g, t.kids[0], i + 2, a),
        spelled(g, t.kids[1], a + 1, b),
        spelled(g, t.kids[2], b + 1, c),
        spelled(g, t.kids[3], c + 1, d),
    ensures
        spelled(g, t, i, d),
{
    reveal(rank);
    reveal(type_rank);
    lemma_no_list(g, t.kids[0], i + 2, a);
    lemma_no_list(g, t.kids[1], a + 1, b);
    lemma_no_list(g, t.kids[2], b + 1, c);
    lemma_no_list(g, t.kids[3], c + 1, d);
    lemma_made4(g, t, i, i + 2, a, a + 1, b, b + 1, c, c + 1, d, d);
}

pub(crate) proof fn made_expr_stmt(g: Gram, t: Tree, i: int, a: int)
    requires
        0 <= i,
        i < a + 1 <= g.toks.len(),
        t.label is ExprStmt,
        t.kids.len() == 1,
        t.span == g.span(g.lo(i), a + 1),
        g.kind(a) == Token::Semi,
        spelled(g, t.kids[0], i, a),
        !starts_statement(g.kind(i)),
        rank(t.kids[0].label) >= -2,
    ensures
        spelled(g, t, i, a + 1),
{
    reveal(rank);
    reveal(type_rank);
    lemma_no_list(g, t.kids[0], i, a);
    lemma_made1(g, t, i, i, a, a + 1);
}

pub(crate) proof fn made_bare_expr_stmt(g: Gram, t: Tree, i: int, a: int)
    requires
        0 <= i,
        i < a <= g.toks.len(),
        t.label is ExprStmt,
        t.kids.len() == 1,
        t.span == g.span(g.lo(i), a),
        spelled(g, t.kids[0], i, a),
        stop(g, a, a),
        !starts_statement(g.kind(i)),
        rank(t.kids[0].label) >= -2,
    ensures
        spelled(g, t, i, a),
{
    reveal(rank);
    reveal(type_rank);
    lemma_no_list(g, t.kids[0], i, a);
    lemma_made1(g, t, i, i, a, a);
}

pub(crate) proof fn made_export_decl(g: Gram, t: Tree, i: int, a: int)
    requires
        0 <= i,
        i < a <= g.toks.len(),
        t.label is ExportDecl,
        t.kids.len() == 1,
        t.span == g.span(g.lo(i), a),
        g.kind(i) == Token::Export,
        spelled(g, t.kids[0], i + 1, a),
    ensures
        spelled(g, t, i, a),
{
    reveal(rank);
    reveal(type_rank);
    lemma_no_list(g, t.kids[0], i + 1, a);
    lemma_made1(g, t, i, i + 1, a, a);
}

pub(crate) proof fn made_export_default(g: Gram, t: Tree, i: int, a: int)
    requires
        0 <= i,
        i < a + 1 <= g.toks.len(),
        t.label is ExportDefaultExpr,
        t.kids.len() == 1,
        t.span == g.span(g.lo(i), a + 1),
        g.kind(i) == Token::Export,
        g.kind(i + 1) == Token::Default,
        g.kind(a) == Token::Semi,
        spelled(g, t.kids[0], i + 2, a),
        rank(t.kids[0].label) >= -1,
    ensures
        spelled(g, t, i, a + 1),
{
    reveal(rank);
    reveal(type_rank);
    lemma_no_list(g, t.kids[0], i + 2, a);
    lemma_made1(g, t, i, i + 2, a, a + 1);
}

pub(crate) proof fn made_bare_export_default(g: Gram, t: Tree, i: int, a: int)
    requires
        0 <= i,
        i < a <= g.toks.len(),
        t.label is ExportDefaultExpr,
        t.kids.len() == 1,
        t.span == g.span(g.lo(i), a),
        g.kind(i) == Token::Export,
        g.kind(i + 1) == Token::Default,
        spelled(g, t.kids[0], i + 2, a),
        stop(g, a, a),
        rank(t.kids[0].label) >= -1,
    ensures
        spelled(g, t, i, a),
{
    reveal(rank);
    reveal(type_rank);
    lemma_no_list(g, t.kids[0], i + 2, a);
    lemma_made1(g, t, i, i + 2, a, a);
}

pub(crate) proof fn made_var(g: Gram, t: Tree, i: int, b: int)
    requires
        0 <= i,
        i < b <= g.toks.len(),
        t.label matches Label::Var { ctxt, kind, declare } && ctxt == SyntaxContext(0) && !declare
            && g.kind(i) == var_sign(kind),
        t.span == g.span(g.lo(i), b),
        0 <= i,
        row(g, t.kids, 0, Sep::Commas, i + 1, b),
    ensures
        spelled(g, t, i, b),
{
    reveal(rank);
    reveal(type_rank);
    lemma_made_row(g, t, i, i + 1, b, b);
}

pub(crate) proof fn made_var_semi(g: Gram, t: Tree, i: int, b: int)
    requires
        0 <= i,
        i < b + 1 <= g.toks.len(),
        t.label matches Label::Var { ctxt, kind, declare } && ctxt == SyntaxContext(0) && !declare
            && g.kind(i) == var_sign(kind),
        t.span == g.span(g.lo(i), b + 1),
        0 <= i,
        g.kind(b) == Token::Semi,
        row(g, t.kids, 0, Sep::Commas, i + 1, b),
    ensures
        spelled(g, t, i, b + 1),
{
    reveal(rank);
    reveal(type_rank);
    lemma_made_row(g, t, i, i + 1, b, b + 1);
}

pub(crate) proof fn made_declarator(g: Gram, t: Tree, i: int, a: int, b: int)
    requires
        0 <= i,
        i < b <= g.toks.len(),
        t.label == (Label::Declarator { definite: false }),
        t.kids.len() == 2,
        t.span == g.span(g.lo(i), b),
        g.kind(a) == Token::Eq,
        spelled(g, t.kids[0], i, a),
        spelled(g, t.kids[1], a + 1, b),
        is_target(t.kids[0].label),
        rank(t.kids[1].label) >= -1,
    ensures
        spelled(g, t, i, b),
{
    reveal(rank);
    reveal(type_rank);
    lemma_no_list(g, t.kids[0], i, a);
    lemma_no_list(g, t.kids[1], a + 1, b);
    lemma_made2(g, t, i, i, a, a + 1, b, b);
}

pub(crate) proof fn made_bare_declarator(g: Gram, t: Tree, i: int, a: int, b: int)
    requires
        0 <= i,
        i < b <= g.toks.len(),
        t.label == (Label::Declarator { definite: false }),
        t.kids.len() == 2,
        t.span == g.span(g.lo(i), b),
        spelled(g, t.kids[0], i, a),
        spelled(g, t.kids[1], a, b),
        is_target(t.kids[0].label),
        t.kids[1].label is Absent,
    ensures
        spelled(g, t, i, b),
{
    reveal(rank);
    reveal(type_rank);
    lemma_no_list(g, t.kids[0], i, a);
    lemma_no_list(g, t.kids[1], a, b);
    lemma_made2(g, t, i, i, a, a, b, b);
}

pub(crate) proof fn made_ts_enum_member(g: Gram, t: Tree, i: int, a: int, b: int)
    requires
        0 <= i,
        i < b <= g.toks.len(),
        t.label is TsEnumMember,
        t.kids.len() == 2,
        t.span == g.span(g.lo(i), b),
        g.kind(a) == Token::Eq,
        spelled(g, t.kids[0], i, a),
        spelled(g, t.kids[1], a + 1, b),
        rank(t.kids[1].label) >= -1,
    ensures
        spelled(g, t, i, b),
{
    reveal(rank);
    reveal(type_rank);
    lemma_no_list(g, t.kids[0], i, a);
    lemma_no_list(g, t.kids[1], a + 1, b);
    lemma_made2(g, t, i, i, a, a + 1, b, b);
}

pub(crate) proof fn made_bare_ts_enum_member(g: Gram, t: Tree, i: int, a: int, b: int)
    requires
        0 <= i,
        i < b <= g.toks.len(),
        t.label is TsEnumMember,
        t.kids.len() == 2,
        t.span == g.span(g.lo(i), b),
        spelled(g, t.kids[0], i, a),
        spelled(g, t.kids[1], a, b),
        t.kids[1].label is Absent,
    ensures
        spelled(g, t, i, b),
{
    reveal(rank);
    reveal(type_rank);
    lemma_no_list(g, t.kids[0], i, a);
    lemma_no_list(g, t.kids[1], a, b);
    lemma_made2(g, t, i, i, a, a, b, b);
}

pub(crate) proof fn made_zts_enum_variant(g: Gram, t: Tree, i: int, a: int, b: int)
    requires
        0 <= i,
        i < b + 1 <= g.toks.len(),
        t.label is ZtsEnumVariant,
        t.kids.len() == 2,
        t.span == g.span(g.lo(i), b + 1),
        g.kind(a) == Token::LBrace,
        g.kind(b) == Token::RBrace,
        spelled(g, t.kids[0], i, a),
        t.kids[1].label is List,
        row(g, t.kids[1].kids, 0, Sep::Closed, a + 1, b),
        t.kids[0].label is Ident,
        all_of_kind(ListKind::Fields, t.kids[1].kids),
    ensures
        spelled(g, t, i, b + 1),
{
    reveal(rank);
    reveal(type_rank);
    lemma_no_list(g, t.kids[0], i, a);
    lemma_made2(g, t, i, i, a, a + 1, b, b + 1);
}

pub(crate) proof fn made_zts_enum_field(g: Gram, t: Tree, i: int, a: int, b: int)
    requires
        0 <= i,
        i < b <= g.toks.len(),
        t.label is ZtsEnumField,
        t.kids.len() == 2,
        t.span == g.span(g.lo(i), b),
        g.kind(a) == Token::Colon,
        spelled(g, t.kids[0], i, a),
        spelled(g, t.kids[1], a + 1, b),
        t.kids[0].label is IdentName,
        type_rank(t.kids[1].label) >= 1,
    ensures
        spelled(g, t, i, b),
{
    reveal(rank);
    reveal(type_rank);
    lemma_no_list(g, t.kids[0], i, a);
    lemma_no_list(g, t.kids[1], a + 1, b);
    lemma_made2(g, t, i, i, a, a + 1, b, b);
}

pub(crate) proof fn made_zts_newtype(g: Gram, t: Tree, i: int, a: int, b: int)
    requires
        0 <= i,
        i < b + 1 <= g.toks.len(),
        t.label is ZtsNewtype,
        t.kids.len() == 2,
        t.span == g.span(g.lo(i), b + 1),
        g.kind(i).is_word(),
        g.kind(a) == Token::Eq,
        g.kind(b) == Token::Semi,
        spelled(g, t.kids[0], i + 1, a),
        spelled(g, t.kids[1], a + 1, b),
        g.text(i) == "newtype"@,
        !g.nl(i + 1),
        t.kids[0].label is Ident,
        type_rank(t.kids[1].label) >= 1,
    ensures
        spelled(g, t, i, b + 1),
{
    reveal(rank);
    reveal(type_rank);
    lemma_no_list(g, t.kids[0], i + 1, a);
    lemma_no_list(g, t.kids[1], a + 1, b);
    lemma_made2(g, t, i, i + 1, a, a + 1, b, b + 1);
}

pub(crate) proof fn made_bare_zts_newtype(g: Gram, t: Tree, i: int, a: int, b: int)
    requires
        0 <= i,
        i < b <= g.toks.len(),
        t.label is ZtsNewtype,
        t.kids.len() == 2,
        t.span == g.span(g.lo(i), b),
        g.kind(i).is_word(),
        g.kind(a) == Token::Eq,
        spelled(g, t.kids[0], i + 1, a),
        spelled(g, t.kids[1], a + 1, b),
        g.text(i) == "newtype"@,
        !g.nl(i + 1),
        t.kids[0].label is Ident,
        type_rank(t.kids[1].label) >= 1,
        stop(g, b, b),
    ensures
        spelled(g, t, i, b),
{
    reveal(rank);
    reveal(type_rank);
    lemma_no_list(g, t.kids[0], i + 1, a);
    lemma_no_list(g, t.kids[1], a + 1, b);
    lemma_made2(g, t, i, i + 1, a, a + 1, b, b);
}

pub(crate) proof fn made_zts_enum(g: Gram, t: Tree, i: int, s: int, a: int, b: int)
    requires
        0 <= i < s,
        b + 1 <= g.toks.len(),
        i < b,
        t.label is ZtsEnum,
        enum_words(g, false, false, i, s) || enum_words(g, true, false, i, s),
        t.kids.len() == 2,
        t.span == g.span(g.lo(i), b + 1),
        spelled(g, t.kids[0], s, a),
        t.kids[0].label is Ident,
        g.kind(a) == Token::LBrace,
        t.kids[1].label is List,
        row(g, t.kids[1].kids, 0, Sep::Closed, a + 1, b),
        all_of_kind(ListKind::Variants, t.kids[1].kids),
        g.kind(b) == Token::RBrace,
    ensures
        spelled(g, t, i, b + 1),
{
    lemma_made2(g, t, i, s, a, a + 1, b, b + 1);
}

pub(crate) proof fn made_ts_enum(g: Gram, t: Tree, i: int, s: int, a: int, b: int)
    requires
        0 <= i < s,
        b + 1 <= g.toks.len(),
        i < b,
        t.label is TsEnum,
        enum_words(g, t.label->TsEnum_is_const, t.label->TsEnum_declare, i, s),
        t.kids.len() == 2,
        t.span == g.span(g.lo(i), b + 1),
        spelled(g, t.kids[0], s, a),
        t.kids[0].label is Ident,
        g.kind(a) == Token::LBrace,
        t.kids[1].label is List,
        row(g, t.kids[1].kids, 0, Sep::Closed, a + 1, b),
        all_of_kind(ListKind::TsMembers, t.kids[1].kids),
        g.kind(b) == Token::RBrace,
    ensures
        spelled(g, t, i, b + 1),
{
    lemma_made2(g, t, i, s, a, a + 1, b, b + 1);
}

} // verus!
