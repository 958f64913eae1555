//! What every accepted text has: a tree that is well formed, and no token that
//! the grammar has no place for. `sound_x` is about the phrase `x` of the grammar.
use crate::error::Error;
use crate::grammar::{
    ambiguous_block, arm_starter, assign_op, assignable, binary_op, is_ident_named, is_lit,
    keyword_type, precedence, right_precedence, template_start, unary_op, var_kind, Gram, ListKind,
    Out,
};
use crate::laws::shape::{
    all_fine, all_well_formed, group_sound, is_sound_expr, lemma_absent, lemma_arm_starter,
    lemma_const_enum, lemma_grow_front, lemma_if, lemma_leaf, lemma_list, lemma_match,
    lemma_nothing, lemma_parens, lemma_parts, lemma_point, lemma_tail, lemma_wf1, lemma_wf2,
    lemma_wf3, lemma_wf4, odd, reported, sound, sound_list, sound_part, well_formed, zts_list,
};
use crate::span::BytePos;
use crate::token::Token;
use crate::tree::{absent, ident_name, kids1, list, node, Label, Tree};
use vstd::prelude::*;

verus! {

broadcast use group_sound;

proof fn lemma_binding_at(g: Gram, i: int)
    ensures
        well_formed(g.binding_at(i), g.zts),
{
    lemma_leaf(g.ident_at(i), g.zts);
    lemma_absent(g.zts);
    lemma_wf2(g.binding_at(i), g.ident_at(i), absent(), g.zts);
}

proof fn lemma_prop_name(g: Gram, i: int)
    requires
        0 <= i,
    ensures
        sound(g, i, g.prop_name(i)),
{
    reveal(Token::spec_is_word);
    if g.prop_name(i).res is Ok {
        lemma_leaf(g.prop_name(i).tree(), g.zts);
    }
}

/// A pattern has two parts, and no type yet.
pub(crate) proof fn lemma_pat_shape(g: Gram, i: int)
    ensures
        g.pat(i).res is Ok && g.ok(i, g.pat(i)) ==> {
            &&& g.pat(i).tree().kids.len() == 2
            &&& g.pat(i).tree().kids[1] == absent()
            &&& g.pat(i).tree().label is BindingIdent || g.pat(i).tree().label is ObjectPat
        },
{
    reveal(Gram::pat);
    reveal(Gram::object_pat);
    reveal(Gram::comma_list);
}

/// A block has one part, the sequence of its statements; an expression
/// statement has one part too.
proof fn lemma_block_shape(g: Gram, i: int)
    requires
        g.ok(i, g.block(i)),
    ensures
        g.block(i).tree().kids.len() == 1,
{
    reveal(Gram::block);
    reveal(Gram::stmts);
}

pub(crate) proof fn sound_ty(g: Gram, i: int)
    requires
        0 <= i,
    ensures
        sound(g, i, g.ty(i)),
    decreases g.rem(i), 7nat,
{
    reveal(Gram::ty);
    reveal(Gram::more_types);
    reveal(Gram::ty_postfix);
    sound_ty_postfix(g, i);
    let a = g.ty_postfix(i);
    if g.ok(i, a) && g.kind(a.next) == Token::Pipe {
        sound_more_types(g, a.next);
        let m = g.more_types(a.next);
        if g.okl(a.next, m) {
            let t = g.ty(i).tree();
            lemma_grow_front(a.tree(), m.tree().kids, g.zts);
            lemma_list(t, seq![a.tree()] + m.tree().kids, g.zts);
        }
    }
}

pub(crate) proof fn sound_more_types(g: Gram, i: int)
    requires
        0 <= i,
        i <= g.toks.len(),
    ensures
        sound_list(g, i, g.more_types(i)),
    decreases g.rem(i), 1nat,
{
    reveal(Gram::more_types);
    reveal(Gram::ty_postfix);
    if g.kind(i) != Token::Pipe {
        lemma_nothing(g.zts);
    } else {
        sound_ty_postfix(g, i + 1);
        let a = g.ty_postfix(i + 1);
        if g.ok(i + 1, a) {
            sound_more_types(g, a.next);
            let m = g.more_types(a.next);
            if m.res is Ok {
                lemma_grow_front(a.tree(), m.tree().kids, g.zts);
                lemma_list(g.more_types(i).tree(), seq![a.tree()] + m.tree().kids, g.zts);
            }
        }
    }
}

pub(crate) proof fn sound_ty_postfix(g: Gram, i: int)
    requires
        0 <= i,
    ensures
        sound(g, i, g.ty_postfix(i)),
    decreases g.rem(i), 5nat,
{
    reveal(Gram::ty_postfix);
    reveal(Gram::ty_primary);
    sound_ty_primary(g, i);
    let a = g.ty_primary(i);
    if g.ok(i, a) {
        sound_ty_suffix(g, i, g.lo(i), a);
    }
}

pub(crate) proof fn sound_ty_suffix(g: Gram, i: int, start: BytePos, a: Out)
    requires
        0 <= a.next,
        0 <= i,
        a.res is Ok,
        sound(g, i, a),
    ensures
        sound(g, i, g.ty_suffix(start, a)),
    decreases g.rem(a.next), 1nat,
{
    reveal(Gram::ty_suffix);
    if g.kind(a.next) == Token::LBracket && !g.nl(a.next) && g.kind(a.next + 1)
        == Token::RBracket {
        let t = node(Label::TsArray, g.span(start, a.next + 2), kids1(a.tree()));
        lemma_wf1(t, a.tree(), g.zts);
        sound_ty_suffix(g, i, start, a.grown(t, a.next + 2));
    }
}

pub(crate) proof fn sound_ty_primary(g: Gram, i: int)
    requires
        0 <= i,
    ensures
        sound(g, i, g.ty_primary(i)),
    decreases g.rem(i), 3nat,
{
    reveal(Gram::ty_primary);
    reveal(Gram::ty);
    let k = g.kind(i);
    if k == Token::LParen {
        sound_ty(g, i + 1);
        let a = g.ty(i + 1);
        if g.ok(i + 1, a) && g.kind(a.next) == Token::RParen {
            lemma_parens(g, i, a.next);
            lemma_wf1(g.ty_primary(i).tree(), a.tree(), g.zts);
        }
    } else if k == Token::Str || k == Token::Num || k == Token::True || k == Token::False {
        lemma_leaf(g.lit_at(i), g.zts);
        lemma_wf1(g.ty_primary(i).tree(), g.lit_at(i), g.zts);
    } else if g.ty_primary(i).res is Ok {
        reveal(keyword_type);
        reveal(Token::spec_is_ident_like);
        lemma_leaf(g.ident_at(i), g.zts);
        if keyword_type(k, g.text(i)) is Some {
            lemma_leaf(g.ty_primary(i).tree(), g.zts);
        } else {
            lemma_wf1(g.ty_primary(i).tree(), g.ident_at(i), g.zts);
        }
    }
}

pub(crate) proof fn sound_pat(g: Gram, i: int)
    requires
        0 <= i,
    ensures
        sound(g, i, g.pat(i)),
    decreases g.rem(i), 3nat,
{
    reveal(Gram::pat);
    reveal(Gram::object_pat);
    reveal(Token::spec_is_ident_like);
    if g.kind(i).is_ident_like() {
        lemma_binding_at(g, i);
    } else if g.kind(i) == Token::LBrace {
        sound_object_pat(g, i);
    }
}

pub(crate) proof fn sound_object_pat(g: Gram, i: int)
    requires
        0 <= i,
    ensures
        sound(g, i, g.object_pat(i)),
    decreases g.rem(i), 1nat,
{
    reveal(Gram::object_pat);
    reveal(Gram::comma_list);
    if g.kind(i) == Token::LBrace {
        sound_comma_list(g, ListKind::PatProps, i + 1);
        let l = g.comma_list(ListKind::PatProps, i + 1);
        if g.okl(i + 1, l) && g.kind(l.next) == Token::RBrace {
            lemma_absent(g.zts);
            lemma_wf2(g.object_pat(i).tree(), l.tree(), absent(), g.zts);
        }
    }
}

pub(crate) proof fn sound_pat_prop(g: Gram, i: int)
    requires
        0 <= i,
    ensures
        sound(g, i, g.pat_prop(i)),
    decreases g.rem(i), 1nat,
{
    reveal(Gram::pat_prop);
    reveal(Gram::assign);
    reveal(Gram::pat);
    reveal(Gram::pat_elem);
    reveal(Token::spec_is_word);
    reveal(Token::spec_is_ident_like);
    let t = g.pat_prop(i).tree();
    lemma_absent(g.zts);
    if g.kind(i) == Token::DotDotDot {
        sound_pat(g, i + 1);
        let a = g.pat(i + 1);
        if g.ok(i + 1, a) {
            lemma_wf1(t, a.tree(), g.zts);
        }
    } else if g.kind(i).is_word() && g.kind(i + 1) == Token::Colon {
        sound_pat_elem(g, i + 2);
        let a = g.pat_elem(i + 2);
        if g.ok(i + 2, a) {
            let n = ident_name(g.text(i), g.span_at(i));
            lemma_leaf(n, g.zts);
            lemma_wf2(t, n, a.tree(), g.zts);
        }
    } else if g.kind(i).is_ident_like() {
        lemma_binding_at(g, i);
        if g.kind(i + 1) == Token::Eq {
            sound_assign(g, i + 2);
            let a = g.assign(i + 2);
            if g.ok(i + 2, a) {
                lemma_wf2(t, g.binding_at(i), a.tree(), g.zts);
            }
        } else {
            lemma_wf2(t, g.binding_at(i), absent(), g.zts);
        }
    }
}

pub(crate) proof fn sound_with_default(g: Gram, i: int, start: BytePos, p: Out)
    requires
        0 <= p.next,
        0 <= i,
        p.res is Ok,
        sound(g, i, p),
    ensures
        sound(g, i, g.with_default(start, p)),
        g.with_default(start, p).res is Ok ==> p.next <= g.with_default(start, p).next,
    decreases g.rem(p.next), 1nat,
{
    reveal(Gram::with_default);
    reveal(Gram::assign);
    if g.kind(p.next) == Token::Eq {
        sound_assign(g, p.next + 1);
        let a = g.assign(p.next + 1);
        if g.ok(p.next + 1, a) {
            lemma_wf2(g.with_default(start, p).tree(), p.tree(), a.tree(), g.zts);
        }
    }
}

pub(crate) proof fn sound_pat_elem(g: Gram, i: int)
    requires
        0 <= i,
    ensures
        sound(g, i, g.pat_elem(i)),
    decreases g.rem(i), 5nat,
{
    reveal(Gram::pat_elem);
    reveal(Gram::pat);
    reveal(Gram::with_default);
    reveal(Gram::assign);
    sound_pat(g, i);
    let p = g.pat(i);
    if g.ok(i, p) {
        sound_with_default(g, i, g.lo(i), p);
    }
}

pub(crate) proof fn sound_param(g: Gram, i: int)
    requires
        0 <= i,
    ensures
        sound(g, i, g.param(i)),
    decreases g.rem(i), 7nat,
{
    reveal(Gram::param);
    reveal(Gram::binding);
    reveal(Gram::with_default);
    reveal(Gram::assign);
    sound_binding(g, i);
    let p = g.binding(i);
    if g.ok(i, p) {
        sound_with_default(g, i, g.lo(i), p);
    }
}

pub(crate) proof fn sound_binding(g: Gram, i: int)
    requires
        0 <= i,
    ensures
        sound(g, i, g.binding(i)),
    decreases g.rem(i), 5nat,
{
    reveal(Gram::binding);
    reveal(Gram::pat);
    sound_pat(g, i);
    let p = g.pat(i);
    if g.ok(i, p) && g.kind(p.next) == Token::Colon {
        sound_ty(g, p.next + 1);
        let t = g.ty(p.next + 1);
        if g.ok(p.next + 1, t) {
            let ann = node(
                Label::TsTypeAnn,
                g.span(g.lo(p.next), t.next),
                kids1(t.tree()),
            );
            lemma_wf1(ann, t.tree(), g.zts);
            lemma_pat_shape(g, i);
            lemma_parts(p.tree(), g.zts);
            lemma_wf2(g.binding(i).tree(), p.tree().kids[0], ann, g.zts);
        }
    }
}

pub(crate) proof fn sound_elem(g: Gram, k: ListKind, i: int)
    requires
        0 <= i,
        zts_list(k) ==> g.zts,
    ensures
        sound(g, i, g.elem(k, i)),
    decreases g.rem(i), 17nat,
{
    g.lemma_elem(k, i);
    match k {
        ListKind::Args | ListKind::Elems => sound_assign(g, i),
        ListKind::Props => sound_prop(g, i),
        ListKind::Params => sound_param(g, i),
        ListKind::PatProps => sound_pat_prop(g, i),
        ListKind::Arms => sound_arm(g, i),
        ListKind::Variants => sound_variant(g, i),
        ListKind::Fields => sound_field(g, i),
        ListKind::TsMembers => sound_ts_member(g, i),
    }
}

pub(crate) proof fn sound_comma_list(g: Gram, k: ListKind, i: int)
    requires
        0 <= i,
        zts_list(k) ==> g.zts,
    ensures
        sound_list(g, i, g.comma_list(k, i)),
        g.kind(i) != k.close() && g.comma_list(k, i).res is Ok ==> g.comma_list(
            k,
            i,
        ).tree().kids.len() > 0,
    decreases g.rem(i), 19nat,
{
    reveal(Gram::comma_list);
    reveal(Gram::elem);
    if g.kind(i) == k.close() {
        lemma_nothing(g.zts);
    } else {
        sound_elem(g, k, i);
        let e = g.elem(k, i);
        if g.ok(i, e) {
            lemma_grow_front(e.tree(), Seq::empty(), g.zts);
            assert(seq![e.tree()] + Seq::<Tree>::empty() =~= seq![e.tree()]);
            lemma_list(list(seq![e.tree()]), seq![e.tree()], g.zts);
            if g.kind(e.next) == Token::Comma {
                sound_comma_list(g, k, e.next + 1);
                let m = g.comma_list(k, e.next + 1);
                if m.res is Ok {
                    lemma_grow_front(e.tree(), m.tree().kids, g.zts);
                    lemma_list(g.comma_list(k, i).tree(), seq![e.tree()] + m.tree().kids, g.zts);
                }
            }
        }
    }
}

pub(crate) proof fn sound_expr(g: Gram, i: int)
    requires
        0 <= i,
    ensures
        is_sound_expr(g, i, g.expr(i)),
    decreases g.rem(i), 15nat,
{
    g.lemma_expr(i);
    sound_assign(g, i);
    let a = g.assign(i);
    if g.ok(i, a) && g.kind(a.next) == Token::Comma {
        sound_more_exprs(g, a.next);
        let m = g.more_exprs(a.next);
        if g.okl(a.next, m) {
            lemma_grow_front(a.tree(), m.tree().kids, g.zts);
            lemma_list(g.expr(i).tree(), seq![a.tree()] + m.tree().kids, g.zts);
        }
    }
}

pub(crate) proof fn sound_more_exprs(g: Gram, i: int)
    requires
        0 <= i,
        i <= g.toks.len(),
    ensures
        sound_list(g, i, g.more_exprs(i)),
    decreases g.rem(i), 1nat,
{
    g.lemma_more_exprs(i);
    if g.kind(i) != Token::Comma {
        lemma_nothing(g.zts);
    } else {
        sound_assign(g, i + 1);
        let a = g.assign(i + 1);
        if g.ok(i + 1, a) {
            sound_more_exprs(g, a.next);
            let m = g.more_exprs(a.next);
            if m.res is Ok {
                lemma_grow_front(a.tree(), m.tree().kids, g.zts);
                lemma_list(g.more_exprs(i).tree(), seq![a.tree()] + m.tree().kids, g.zts);
            }
        }
    }
}

pub(crate) proof fn sound_assign(g: Gram, i: int)
    requires
        0 <= i,
    ensures
        is_sound_expr(g, i, g.assign(i)),
    decreases g.rem(i), 13nat,
{
    reveal(Gram::assign);
    reveal(Gram::arrow);
    reveal(Gram::cond);
    if g.arrow_ahead(i) {
        sound_arrow(g, i);
    } else {
        sound_cond(g, i);
        let a = g.cond(i);
        if g.ok(i, a) && assign_op(g.kind(a.next)) is Some && assignable(a.tree()) {
            reveal(assign_op);
            sound_assign(g, a.next + 1);
            let b = g.assign(a.next + 1);
            if g.ok(a.next + 1, b) {
                lemma_wf2(g.assign(i).tree(), a.tree(), b.tree(), g.zts);
            }
        }
    }
}

pub(crate) proof fn sound_arrow_params(g: Gram, i: int)
    requires
        0 <= i,
        g.arrow_ahead(i),
    ensures
        sound_list(g, i, g.arrow_params(i)),
        g.arrow_params(i).res is Ok ==> i < g.arrow_params(i).next,
    decreases g.rem(i), 1nat,
{
    reveal(Gram::arrow_params);
    reveal(Gram::comma_list);
    if g.kind(i) != Token::LParen {
        reveal(Gram::arrow_ahead);
        reveal(Token::spec_is_ident_like);
        lemma_binding_at(g, i);
        lemma_grow_front(g.binding_at(i), Seq::empty(), g.zts);
        assert(seq![g.binding_at(i)] + Seq::<Tree>::empty() =~= seq![g.binding_at(i)]);
        lemma_list(g.arrow_params(i).tree(), seq![g.binding_at(i)], g.zts);
    } else {
        sound_comma_list(g, ListKind::Params, i + 1);
        let l = g.comma_list(ListKind::Params, i + 1);
        if g.okl(i + 1, l) && g.kind(l.next) == Token::RParen {
            lemma_parens(g, i, l.next);
        }
    }
}

pub(crate) proof fn sound_arrow(g: Gram, i: int)
    requires
        0 <= i,
        g.arrow_ahead(i),
    ensures
        is_sound_expr(g, i, g.arrow(i)),
    decreases g.rem(i), 11nat,
{
    reveal(Gram::arrow);
    reveal(Gram::arrow_body);
    reveal(Gram::assign);
    reveal(Gram::block);
    reveal(Gram::arrow_params);
    reveal(Gram::comma_list);
    sound_arrow_params(g, i);
    let p = g.arrow_params(i);
    if g.ok(i, p) && g.kind(p.next) == Token::Arrow {
        sound_arrow_body(g, p.next + 1);
        let b = g.arrow_body(p.next + 1);
        if g.ok(p.next + 1, b) {
            lemma_wf2(g.arrow(i).tree(), p.tree(), b.tree(), g.zts);
        }
    }
}

pub(crate) proof fn sound_arrow_body(g: Gram, i: int)
    requires
        0 <= i,
    ensures
        sound(g, i, g.arrow_body(i)),
    decreases g.rem(i), 15nat,
{
    reveal(Gram::arrow_body);
    reveal(Gram::assign);
    reveal(Gram::block);
    if g.kind(i) == Token::LBrace {
        sound_block(g, i);
    } else {
        sound_assign(g, i);
    }
}

pub(crate) proof fn sound_cond(g: Gram, i: int)
    requires
        0 <= i,
    ensures
        is_sound_expr(g, i, g.cond(i)),
    decreases g.rem(i), 11nat,
{
    reveal(Gram::cond);
    reveal(Gram::assign);
    reveal(Gram::bin);
    sound_bin(g, i, 0);
    let t = g.bin(i, 0);
    if g.ok(i, t) && g.kind(t.next) == Token::Question {
        sound_assign(g, t.next + 1);
        let c = g.assign(t.next + 1);
        if g.ok(t.next + 1, c) && g.kind(c.next) == Token::Colon {
            sound_assign(g, c.next + 1);
            let a = g.assign(c.next + 1);
            if g.ok(c.next + 1, a) {
                lemma_wf3(g.cond(i).tree(), t.tree(), c.tree(), a.tree(), g.zts);
            }
        }
    }
}

pub(crate) proof fn sound_bin(g: Gram, i: int, min: int)
    requires
        0 <= i,
    ensures
        is_sound_expr(g, i, g.bin(i, min)),
    decreases g.rem(i), 9nat,
{
    g.lemma_bin(i, min);
    sound_unary(g, i);
    let a = g.unary(i);
    if g.ok(i, a) {
        sound_bin_rest(g, i, g.lo(i), a, min);
    }
}

pub(crate) proof fn sound_bin_rest(g: Gram, i: int, start: BytePos, a: Out, min: int)
    requires
        0 <= a.next,
        0 <= i,
        a.res is Ok,
        is_sound_expr(g, i, a),
    ensures
        is_sound_expr(g, i, g.bin_rest(start, a, min)),
        g.bin_rest(start, a, min).res is Ok ==> a.next <= g.bin_rest(start, a, min).next,
    decreases g.rem(a.next), 3nat,
{
    g.lemma_bin_rest(start, a, min);
    sound_bin_step(g, start, a.tree(), a.next, min);
    if let Some(s) = g.bin_step(start, a.tree(), a.next, min) {
        let b = s.after(a);
        if g.ok(a.next, b) {
            sound_bin_rest(g, i, start, b, min);
        }
    }
}

pub(crate) proof fn sound_bin_step(g: Gram, start: BytePos, t: Tree, i: int, min: int)
    requires
        0 <= i,
        well_formed(t, g.zts),
    ensures
        g.bin_step(start, t, i, min) matches Some(o) ==> is_sound_expr(g, i, o),
    decreases g.rem(i), 1nat,
{
    reveal(Gram::bin_step);
    reveal(Gram::bin);
    reveal(binary_op);
    let k = g.kind(i);
    if (k == Token::As || k == Token::Satisfies) && !g.nl(i) && min < 7 {
        sound_ty(g, i + 1);
        let y = g.ty(i + 1);
        if g.ok(i + 1, y) {
            lemma_wf2(g.bin_step(start, t, i, min)->0.tree(), t, y.tree(), g.zts);
        }
    } else if let Some(op) = binary_op(k) {
        if precedence(op) > min {
            sound_bin(g, i + 1, right_precedence(op));
            let b = g.bin(i + 1, right_precedence(op));
            if g.ok(i + 1, b) {
                lemma_wf2(g.bin_step(start, t, i, min)->0.tree(), t, b.tree(), g.zts);
            }
        }
    }
}

pub(crate) proof fn sound_unary(g: Gram, i: int)
    requires
        0 <= i,
    ensures
        is_sound_expr(g, i, g.unary(i)),
    decreases g.rem(i), 7nat,
{
    reveal(Gram::unary);
    reveal(Gram::subscripts);
    match g.prefix_op(i) {
        None => sound_subscripts(g, i),
        Some(op) => {
            reveal(Gram::prefix_op);
            reveal(Gram::not_operator);
            reveal(Token::spec_is_word);
            reveal(unary_op);
            sound_unary(g, i + 1);
            let a = g.unary(i + 1);
            if g.ok(i + 1, a) {
                lemma_wf1(g.unary(i).tree(), a.tree(), g.zts);
            }
        },
    }
}

pub(crate) proof fn sound_subscripts(g: Gram, i: int)
    requires
        0 <= i,
    ensures
        is_sound_expr(g, i, g.subscripts(i)),
    decreases g.rem(i), 5nat,
{
    g.lemma_subscripts(i);
    sound_primary(g, i);
    let a = g.primary(i);
    if g.ok(i, a) {
        sound_subscripts_rest(g, i, g.lo(i), a);
    }
}

pub(crate) proof fn sound_subscripts_rest(g: Gram, i: int, start: BytePos, a: Out)
    requires
        0 <= a.next,
        0 <= i,
        a.res is Ok,
        is_sound_expr(g, i, a),
    ensures
        is_sound_expr(g, i, g.subscripts_rest(start, a)),
        g.subscripts_rest(start, a).res is Ok ==> a.next <= g.subscripts_rest(start, a).next,
    decreases g.rem(a.next), 5nat,
{
    g.lemma_subscripts_rest(start, a);
    sound_subscript(g, start, a.tree(), a.next);
    if let Some(s) = g.subscript(start, a.tree(), a.next) {
        let b = s.after(a);
        if g.ok(a.next, b) {
            sound_subscripts_rest(g, i, start, b);
        }
    }
}

pub(crate) proof fn sound_computed(g: Gram, start: BytePos, t: Tree, i: int)
    requires
        0 <= i,
        well_formed(t, g.zts),
        g.kind(i) == Token::LBracket,
    ensures
        g.subscript(start, t, i) matches Some(o) ==> is_sound_expr(g, i, o),
    decreases g.rem(i), 2nat,
{
    reveal(Gram::subscript);
    reveal(Gram::expr);
    sound_expr(g, i + 1);
    let e = g.expr(i + 1);
    if g.ok(i + 1, e) && g.kind(e.next) == Token::RBracket {
        let p = node(Label::ComputedProp, g.span(g.lo(i), e.next + 1), kids1(e.tree()));
        lemma_wf1(p, e.tree(), g.zts);
        lemma_wf2(g.subscript(start, t, i)->0.tree(), t, p, g.zts);
    }
}

pub(crate) proof fn sound_call(g: Gram, start: BytePos, t: Tree, i: int)
    requires
        0 <= i,
        well_formed(t, g.zts),
        g.kind(i) == Token::LParen,
    ensures
        g.subscript(start, t, i) matches Some(o) ==> is_sound_expr(g, i, o),
    decreases g.rem(i), 2nat,
{
    reveal(Gram::subscript);
    reveal(Gram::comma_list);
    sound_comma_list(g, ListKind::Args, i + 1);
    let l = g.comma_list(ListKind::Args, i + 1);
    if g.okl(i + 1, l) && g.kind(l.next) == Token::RParen {
        lemma_parens(g, i, l.next);
        lemma_wf2(g.subscript(start, t, i)->0.tree(), t, l.tree(), g.zts);
    }
}

pub(crate) proof fn sound_tagged(g: Gram, start: BytePos, t: Tree, i: int)
    requires
        0 <= i,
        well_formed(t, g.zts),
        template_start(g.kind(i)),
    ensures
        g.subscript(start, t, i) matches Some(o) ==> is_sound_expr(g, i, o),
    decreases g.rem(i), 2nat,
{
    reveal(Gram::subscript);
    reveal(Gram::tpl);
    sound_tpl(g, i);
    let l = g.tpl(i);
    if g.ok(i, l) {
        lemma_wf2(g.subscript(start, t, i)->0.tree(), t, l.tree(), g.zts);
    }
}

pub(crate) proof fn sound_suffix(g: Gram, start: BytePos, t: Tree, i: int)
    requires
        0 <= i,
        well_formed(t, g.zts),
        g.kind(i) != Token::LBracket && g.kind(i) != Token::LParen && !template_start(g.kind(i)),
    ensures
        g.subscript(start, t, i) matches Some(o) ==> is_sound_expr(g, i, o),
    decreases g.rem(i), 2nat,
{
    reveal(Gram::subscript);
    if let Some(o) = g.subscript(start, t, i) {
        if g.kind(i) == Token::Dot {
            reveal(Token::spec_is_word);
            let n = g.name(i + 1);
            if n.res is Ok {
                lemma_point(g, i);
                lemma_leaf(n.tree(), g.zts);
                lemma_wf2(o.tree(), t, n.tree(), g.zts);
            }
        } else {
            lemma_wf1(o.tree(), t, g.zts);
        }
    }
}

pub(crate) proof fn sound_subscript(g: Gram, start: BytePos, t: Tree, i: int)
    requires
        0 <= i,
        well_formed(t, g.zts),
    ensures
        g.subscript(start, t, i) matches Some(o) ==> is_sound_expr(g, i, o),
    decreases g.rem(i), 3nat,
{
    if g.kind(i) == Token::LBracket {
        sound_computed(g, start, t, i);
    } else if g.kind(i) == Token::LParen {
        sound_call(g, start, t, i);
    } else if template_start(g.kind(i)) {
        sound_tagged(g, start, t, i);
    } else {
        sound_suffix(g, start, t, i);
    }
}

pub(crate) proof fn sound_primary(g: Gram, i: int)
    requires
        0 <= i,
    ensures
        is_sound_expr(g, i, g.primary(i)),
    decreases g.rem(i), 3nat,
{
    reveal(Gram::tpl);
    reveal(Gram::primary);
    reveal(Gram::array);
    reveal(Gram::if_expr);
    reveal(Gram::match_body);
    reveal(Gram::match_header);
    reveal(Gram::object);
    reveal(Gram::paren);
    reveal(Token::spec_is_ident_like);
    let k = g.kind(i);
    let h = g.match_header(i);
    if g.zts && k == Token::If {
        sound_if_expr(g, i, g.lo(i));
    } else if g.match_keyword(i) && h is Some && g.ok(i, h->0) {
        reveal(Gram::match_keyword);
        reveal(Token::spec_is_word);
        sound_match_header(g, i);
        sound_match_body(g, i, g.lo(i), h->0);
    } else if k.is_ident_like() {
        lemma_leaf(g.ident_at(i), g.zts);
    } else if is_lit(k) {
        reveal(is_lit);
        lemma_leaf(g.lit_at(i), g.zts);
    } else if k == Token::LParen {
        sound_paren(g, i);
    } else if k == Token::LBracket {
        sound_array(g, i);
    } else if k == Token::LBrace {
        sound_object(g, i);
    } else if template_start(k) {
        sound_tpl(g, i);
    }
}

pub(crate) proof fn sound_tpl(g: Gram, i: int)
    requires
        0 <= i,
    ensures
        is_sound_expr(g, i, g.tpl(i)),
    decreases g.rem(i), 1nat,
{
    g.lemma_tpl(i);
    lemma_leaf(g.quasi_at(i), g.zts);
    let none: Seq<Tree> = Seq::empty();
    lemma_grow_front(g.quasi_at(i), none, g.zts);
    assert(seq![g.quasi_at(i)] + none =~= seq![g.quasi_at(i)]);
    if g.kind(i) == Token::NoSubstitutionTemplate {
        lemma_nothing(g.zts);
        lemma_list(list(seq![g.quasi_at(i)]), seq![g.quasi_at(i)], g.zts);
        lemma_wf2(g.tpl(i).tree(), list(none), list(seq![g.quasi_at(i)]), g.zts);
    } else if g.kind(i) == Token::TemplateHead {
        sound_tpl_rest(g, i, g.lo(i), none, seq![g.quasi_at(i)], i + 1, Seq::empty());
    }
}

pub(crate) proof fn sound_tpl_rest(
    g: Gram,
    j: int,
    start: BytePos,
    es: Seq<Tree>,
    qs: Seq<Tree>,
    i: int,
    errs: Seq<Error>,
)
    requires
        0 <= j < i <= g.toks.len(),
        all_fine(g, j, i),
        all_well_formed(es, g.zts),
        all_well_formed(qs, g.zts),
        reported(errs, g.zts),
    ensures
        is_sound_expr(g, j, g.tpl_rest(start, es, qs, i, errs)),
    decreases g.rem(i), 17nat,
{
    g.lemma_tpl_rest(start, es, qs, i, errs);
    sound_expr(g, i);
    let e = g.expr(i);
    if g.ok(i, e) {
        lemma_leaf(g.quasi_at(e.next), g.zts);
        let es2 = es.push(e.tree());
        let qs2 = qs.push(g.quasi_at(e.next));
        if g.kind(e.next) == Token::TemplateTail {
            lemma_list(list(es2), es2, g.zts);
            lemma_list(list(qs2), qs2, g.zts);
            lemma_wf2(
                g.tpl_rest(start, es, qs, i, errs).tree(),
                list(es2),
                list(qs2),
                g.zts,
            );
        } else if g.kind(e.next) == Token::TemplateMiddle {
            sound_tpl_rest(g, j, start, es2, qs2, e.next + 1, errs + e.errs);
        }
    }
}

pub(crate) proof fn sound_paren(g: Gram, i: int)
    requires
        0 <= i,
    ensures
        is_sound_expr(g, i, g.paren(i)),
    decreases g.rem(i), 1nat,
{
    reveal(Gram::paren);
    reveal(Gram::expr);
    if g.kind(i) == Token::LParen {
        sound_expr(g, i + 1);
        let e = g.expr(i + 1);
        if g.ok(i + 1, e) && g.kind(e.next) == Token::RParen {
            lemma_parens(g, i, e.next);
            lemma_wf1(g.paren(i).tree(), e.tree(), g.zts);
        }
    }
}

pub(crate) proof fn sound_array(g: Gram, i: int)
    requires
        0 <= i,
    ensures
        is_sound_expr(g, i, g.array(i)),
    decreases g.rem(i), 1nat,
{
    reveal(Gram::array);
    reveal(Gram::comma_list);
    if g.kind(i) == Token::LBracket {
        sound_comma_list(g, ListKind::Elems, i + 1);
        let l = g.comma_list(ListKind::Elems, i + 1);
        if g.okl(i + 1, l) && g.kind(l.next) == Token::RBracket {
            lemma_parts(l.tree(), g.zts);
            lemma_list(g.array(i).tree(), l.tree().kids, g.zts);
        }
    }
}

pub(crate) proof fn sound_object(g: Gram, i: int)
    requires
        0 <= i,
    ensures
        is_sound_expr(g, i, g.object(i)),
    decreases g.rem(i), 1nat,
{
    reveal(Gram::object);
    reveal(Gram::comma_list);
    if g.kind(i) == Token::LBrace {
        sound_comma_list(g, ListKind::Props, i + 1);
        let l = g.comma_list(ListKind::Props, i + 1);
        if g.okl(i + 1, l) && g.kind(l.next) == Token::RBrace {
            lemma_parts(l.tree(), g.zts);
            lemma_list(g.object(i).tree(), l.tree().kids, g.zts);
        }
    }
}

pub(crate) proof fn sound_prop(g: Gram, i: int)
    requires
        0 <= i,
    ensures
        sound(g, i, g.prop(i)),
    decreases g.rem(i), 1nat,
{
    reveal(Gram::prop);
    reveal(Gram::assign);
    reveal(Token::spec_is_ident_like);
    if g.kind(i).is_ident_like() && g.kind(i + 1) != Token::Colon {
        lemma_leaf(g.ident_at(i), g.zts);
    } else {
        lemma_prop_name(g, i);
        let n = g.prop_name(i);
        if g.ok(i, n) && g.kind(n.next) == Token::Colon {
            sound_assign(g, n.next + 1);
            let a = g.assign(n.next + 1);
            if g.ok(n.next + 1, a) {
                lemma_wf2(g.prop(i).tree(), n.tree(), a.tree(), g.zts);
            }
        }
    }
}

pub(crate) proof fn sound_match_header(g: Gram, i: int)
    requires
        0 <= i,
        !odd(g.kind(i)),
    ensures
        g.match_header(i) matches Some(h) ==> {
            &&& sound(g, i, h)
            &&& h.res is Ok
            &&& g.kind(h.next) == Token::LBrace
            &&& arm_starter(g.kind(h.next + 1))
        },
    decreases g.rem(i), 1nat,
{
    reveal(Gram::match_header);
    reveal(Gram::expr);
    assert(all_fine(g, i, i + 1));
    if g.kind(i) != Token::Eof && g.kind(i + 1) == Token::LParen {
        sound_expr(g, i + 2);
        let d = g.expr(i + 2);
        if g.ok(i + 2, d) && g.kind(d.next) == Token::RParen {
            lemma_parens(g, i + 1, d.next);
        }
    }
}

pub(crate) proof fn sound_match_body(g: Gram, i: int, start: BytePos, d: Out)
    requires
        0 <= d.next,
        0 <= i,
        g.zts,
        d.res is Ok,
        sound(g, i, d),
        g.kind(d.next) == Token::LBrace,
        arm_starter(g.kind(d.next + 1)),
    ensures
        is_sound_expr(g, i, g.match_body(start, d)),
    decreases g.rem(d.next), 1nat,
{
    reveal(Gram::match_body);
    reveal(Gram::comma_list);
    lemma_arm_starter(g.kind(d.next + 1));
    sound_comma_list(g, ListKind::Arms, d.next + 1);
    let l = g.comma_list(ListKind::Arms, d.next + 1);
    if g.okl(d.next + 1, l) && g.kind(l.next) == Token::RBrace {
        lemma_match(g.match_body(start, d).tree(), d.tree(), l.tree());
    }
}

pub(crate) proof fn sound_arm(g: Gram, i: int)
    requires
        0 <= i,
        g.zts,
    ensures
        sound(g, i, g.arm(i)),
    decreases g.rem(i), 15nat,
{
    reveal(Gram::arm);
    reveal(Gram::arm_body);
    reveal(Gram::assign);
    reveal(Gram::expr_block);
    reveal(Gram::match_pattern);
    sound_match_pattern(g, i);
    let p = g.match_pattern(i);
    if g.ok(i, p) && g.kind(p.next) == Token::Arrow {
        sound_arm_body(g, p.next + 1);
        let b = g.arm_body(p.next + 1);
        if g.ok(p.next + 1, b) {
            lemma_wf2(g.arm(i).tree(), p.tree(), b.tree(), g.zts);
        }
    }
}

pub(crate) proof fn sound_arm_body(g: Gram, i: int)
    requires
        0 <= i,
        g.zts,
    ensures
        sound(g, i, g.arm_body(i)),
        g.arm_body(i).res matches Ok(t) ==> !(t.label is ZtsExprBlock && ambiguous_block(t)),
    decreases g.rem(i), 15nat,
{
    reveal(Gram::arm_body);
    reveal(Gram::assign);
    reveal(Gram::expr_block);
    if g.kind(i) != Token::LBrace {
        sound_assign(g, i);
    } else {
        sound_expr_block(g, i);
    }
}

pub(crate) proof fn sound_match_pattern(g: Gram, i: int)
    requires
        0 <= i,
        g.zts,
    ensures
        sound(g, i, g.match_pattern(i)),
    decreases g.rem(i), 3nat,
{
    reveal(Gram::match_pattern);
    reveal(Gram::object_pat);
    reveal(Token::spec_is_word);
    let k = g.kind(i);
    let t = g.match_pattern(i).tree();
    if k.is_word() && g.text(i) == "_"@ && g.kind(i + 1) == Token::Arrow {
        lemma_leaf(t, g.zts);
    } else if k == Token::Str || k == Token::Num || k == Token::True || k == Token::False || k
        == Token::Null {
        lemma_leaf(g.lit_at(i), g.zts);
        lemma_wf1(t, g.lit_at(i), g.zts);
    } else if k == Token::Minus {
        if g.kind(i + 1) == Token::Num {
            lemma_leaf(g.lit_at(i + 1), g.zts);
            lemma_wf1(t, g.lit_at(i + 1), g.zts);
        }
    } else if k.is_word() {
        lemma_leaf(g.ident_at(i), g.zts);
        sound_object_pat(g, i + 1);
        let b = g.object_pat(i + 1);
        if g.ok(i + 1, b) {
            lemma_wf2(t, g.ident_at(i), b.tree(), g.zts);
        }
    }
}

#[verifier::rlimit(30)]
pub(crate) proof fn sound_if_expr(g: Gram, i: int, start: BytePos)
    requires
        0 <= i,
        g.zts,
    ensures
        is_sound_expr(g, i, g.if_expr(i, start)),
        g.if_expr(i, start).res matches Ok(t) ==> t.label is ZtsIf,
    decreases g.rem(i), 1nat,
{
    reveal(Gram::if_expr);
    reveal(Gram::expr);
    reveal(Gram::expr_block);
    if g.kind(i) == Token::If && g.kind(i + 1) == Token::LParen {
        sound_expr(g, i + 2);
        let t = g.expr(i + 2);
        if g.ok(i + 2, t) && g.kind(t.next) == Token::RParen {
            lemma_parens(g, i + 1, t.next);
            sound_expr_block(g, t.next + 1);
            let c = g.expr_block(t.next + 1);
            if g.ok(t.next + 1, c) && g.kind(c.next) == Token::Else {
                if g.kind(c.next + 1) == Token::If {
                    sound_if_expr(g, c.next + 1, g.lo(c.next + 1));
                } else {
                    sound_expr_block(g, c.next + 1);
                }
                let a = if g.kind(c.next + 1) == Token::If {
                    g.if_expr(c.next + 1, g.lo(c.next + 1))
                } else {
                    g.expr_block(c.next + 1)
                };
                if g.ok(c.next + 1, a) {
                    lemma_if(g.if_expr(i, start).tree(), t.tree(), c.tree(), a.tree());
                }
            }
        }
    }
}

pub(crate) proof fn sound_expr_block(g: Gram, i: int)
    requires
        0 <= i,
        g.zts,
    ensures
        sound(g, i, g.expr_block(i)),
        g.expr_block(i).res matches Ok(t) ==> t.label is ZtsExprBlock,
    decreases g.rem(i), 3nat,
{
    reveal(Gram::expr_block);
    reveal(Gram::block);
    sound_block(g, i);
    let b = g.block(i);
    if g.ok(i, b) {
        lemma_block_shape(g, i);
        lemma_parts(b.tree(), true);
        lemma_parts(b.tree().kids[0], true);
        let ss = b.tree().kids[0].kids;
        if ss.len() > 0 && ss.last().label is ExprStmt {
            lemma_tail(g.expr_block(i).tree(), ss);
        }
    }
}

pub(crate) proof fn sound_any_enum(g: Gram, i: int, start: BytePos, is_const: bool, declare: bool)
    requires
        0 <= i,
    ensures
        sound(g, i, g.any_enum(i, start, is_const, declare)),
    decreases g.rem(i), 17nat,
{
    reveal(Gram::any_enum);
    reveal(Gram::ts_enum);
    reveal(Gram::zts_enum);
    if g.zts {
        sound_zts_enum(g, i, start, is_const, declare);
    } else {
        sound_ts_enum(g, i, start, is_const, declare);
    }
}

#[verifier::rlimit(30)]
pub(crate) proof fn sound_zts_enum(g: Gram, i: int, start: BytePos, is_const: bool, declare: bool)
    requires
        0 <= i,
        g.zts,
    ensures
        sound(g, i, g.zts_enum(i, start, is_const, declare)),
    decreases g.rem(i), 1nat,
{
    reveal(Gram::zts_enum);
    reveal(Gram::comma_list);
    reveal(Token::spec_is_word);
    let n = g.decl_name(i);
    lemma_const_enum(g.span(start, i));
    if !declare && g.ok(i, n) && g.kind(n.next) == Token::LBrace {
        lemma_leaf(g.ident_at(i), g.zts);
        sound_comma_list(g, ListKind::Variants, n.next + 1);
        let l = g.comma_list(ListKind::Variants, n.next + 1);
        if g.okl(n.next + 1, l) && g.kind(l.next) == Token::RBrace {
            lemma_wf2(
                g.zts_enum(i, start, is_const, declare).tree(),
                n.tree(),
                l.tree(),
                g.zts,
            );
        }
    }
}

pub(crate) proof fn sound_variant(g: Gram, i: int)
    requires
        0 <= i,
        g.zts,
    ensures
        sound(g, i, g.variant(i)),
    decreases g.rem(i), 1nat,
{
    reveal(Gram::variant);
    reveal(Gram::comma_list);
    reveal(Token::spec_is_word);
    let n = g.decl_name(i);
    if g.ok(i, n) && g.kind(n.next) == Token::LBrace {
        lemma_leaf(g.ident_at(i), g.zts);
        sound_comma_list(g, ListKind::Fields, n.next + 1);
        let l = g.comma_list(ListKind::Fields, n.next + 1);
        if g.okl(n.next + 1, l) && g.kind(l.next) == Token::RBrace {
            lemma_wf2(g.variant(i).tree(), n.tree(), l.tree(), g.zts);
        }
    }
}

pub(crate) proof fn sound_field(g: Gram, i: int)
    requires
        0 <= i,
        g.zts,
    ensures
        sound(g, i, g.field(i)),
{
    reveal(Gram::field);
    reveal(Token::spec_is_word);
    let n = g.name(i);
    if g.ok(i, n) && g.kind(n.next) == Token::Colon {
        lemma_leaf(n.tree(), g.zts);
        sound_ty(g, n.next + 1);
        let t = g.ty(n.next + 1);
        if g.ok(n.next + 1, t) {
            lemma_wf2(g.field(i).tree(), n.tree(), t.tree(), g.zts);
        }
    }
}

pub(crate) proof fn sound_newtype(g: Gram, i: int, start: BytePos, declare: bool)
    requires
        0 <= i,
        g.zts,
    ensures
        sound(g, i, g.newtype(i, start, declare)),
{
    reveal(Gram::newtype);
    reveal(Token::spec_is_word);
    let n = g.decl_name(i);
    if !declare && g.ok(i, n) && g.kind(n.next) == Token::Eq {
        lemma_leaf(g.ident_at(i), g.zts);
        sound_ty(g, n.next + 1);
        let t = g.ty(n.next + 1);
        if g.ok(n.next + 1, t) && g.semi(t.next) is Some {
            lemma_wf2(g.newtype(i, start, declare).tree(), n.tree(), t.tree(), g.zts);
        }
    }
}

#[verifier::rlimit(30)]
pub(crate) proof fn sound_ts_enum(g: Gram, i: int, start: BytePos, is_const: bool, declare: bool)
    requires
        0 <= i,
        !g.zts,
    ensures
        sound(g, i, g.ts_enum(i, start, is_const, declare)),
    decreases g.rem(i), 1nat,
{
    reveal(Gram::ts_enum);
    reveal(Gram::comma_list);
    reveal(Token::spec_is_word);
    let n = g.decl_name(i);
    if g.ok(i, n) && g.kind(n.next) == Token::LBrace {
        lemma_leaf(g.ident_at(i), g.zts);
        sound_comma_list(g, ListKind::TsMembers, n.next + 1);
        let l = g.comma_list(ListKind::TsMembers, n.next + 1);
        if g.okl(n.next + 1, l) && g.kind(l.next) == Token::RBrace {
            lemma_wf2(
                g.ts_enum(i, start, is_const, declare).tree(),
                n.tree(),
                l.tree(),
                g.zts,
            );
        }
    }
}

pub(crate) proof fn sound_ts_member(g: Gram, i: int)
    requires
        0 <= i,
    ensures
        sound(g, i, g.ts_member(i)),
    decreases g.rem(i), 1nat,
{
    reveal(Gram::ts_member);
    reveal(Gram::assign);
    lemma_prop_name(g, i);
    lemma_absent(g.zts);
    let n = g.prop_name(i);
    if g.ok(i, n) {
        if g.kind(n.next) != Token::Eq {
            lemma_wf2(g.ts_member(i).tree(), n.tree(), absent(), g.zts);
        } else {
            sound_assign(g, n.next + 1);
            let a = g.assign(n.next + 1);
            if g.ok(n.next + 1, a) {
                lemma_wf2(g.ts_member(i).tree(), n.tree(), a.tree(), g.zts);
            }
        }
    }
}

pub(crate) proof fn sound_block(g: Gram, i: int)
    requires
        0 <= i,
    ensures
        sound(g, i, g.block(i)),
    decreases g.rem(i), 1nat,
{
    reveal(Gram::block);
    reveal(Gram::stmts);
    if g.kind(i) == Token::LBrace {
        sound_stmts(g, i + 1);
        let l = g.stmts(i + 1);
        if g.okl(i + 1, l) && g.kind(l.next) == Token::RBrace {
            lemma_wf1(g.block(i).tree(), l.tree(), g.zts);
        }
    }
}

pub(crate) proof fn sound_stmts(g: Gram, i: int)
    requires
        0 <= i,
        i <= g.toks.len(),
    ensures
        sound_list(g, i, g.stmts(i)),
    decreases g.rem(i), 25nat,
{
    reveal(Gram::stmts);
    reveal(Gram::stmt);
    if g.kind(i) == Token::RBrace || g.kind(i) == Token::Eof {
        lemma_nothing(g.zts);
    } else {
        sound_stmt(g, i, true);
        let s = g.stmt(i, true);
        if g.ok(i, s) {
            sound_stmts(g, s.next);
            let m = g.stmts(s.next);
            if m.res is Ok {
                lemma_grow_front(s.tree(), m.tree().kids, g.zts);
                lemma_list(g.stmts(i).tree(), seq![s.tree()] + m.tree().kids, g.zts);
            }
        }
    }
}

pub(crate) proof fn sound_stmt(g: Gram, i: int, top: bool)
    requires
        0 <= i,
    ensures
        sound(g, i, g.stmt(i, top)),
    decreases g.rem(i), 21nat,
{
    reveal(Gram::stmt);
    reveal(Gram::any_enum);
    reveal(Gram::block);
    reveal(Gram::expr_stmt);
    reveal(Gram::for_stmt);
    reveal(Gram::if_stmt);
    reveal(Gram::var_stmt);
    reveal(Gram::while_stmt);
    let k = g.kind(i);
    if k == Token::LBrace {
        sound_block(g, i);
    } else if k == Token::Semi {
        lemma_leaf(g.stmt(i, top).tree(), g.zts);
    } else if k == Token::If {
        sound_if_stmt(g, i);
    } else if k == Token::While {
        sound_while_stmt(g, i);
    } else if k == Token::For {
        sound_for_stmt(g, i);
    } else if k == Token::Enum || k == Token::Const || k == Token::Let {
        if top {
            if k == Token::Enum {
                sound_any_enum(g, i + 1, g.lo(i), false, false);
            } else if k == Token::Const && g.kind(i + 1) == Token::Enum {
                sound_any_enum(g, i + 2, g.lo(i), true, false);
            } else {
                sound_var_stmt(g, i);
            }
        }
    } else if k == Token::Var {
        sound_var_stmt(g, i);
    } else {
        sound_expr_stmt(g, i, top);
    }
}

pub(crate) proof fn sound_head(g: Gram, i: int)
    requires
        0 <= i,
    ensures
        sound(g, i, g.head(i)),
    decreases g.rem(i), 1nat,
{
    reveal(Gram::head);
    reveal(Gram::expr);
    if g.kind(i) == Token::LParen {
        sound_expr(g, i + 1);
        let e = g.expr(i + 1);
        if g.ok(i + 1, e) && g.kind(e.next) == Token::RParen {
            lemma_parens(g, i, e.next);
        }
    }
}

pub(crate) proof fn sound_if_stmt(g: Gram, i: int)
    requires
        0 <= i,
    ensures
        sound(g, i, g.if_stmt(i)),
    decreases g.rem(i), 1nat,
{
    reveal(Gram::if_stmt);
    reveal(Gram::head);
    reveal(Gram::expr);
    reveal(Gram::stmt);
    lemma_absent(g.zts);
    if g.kind(i) == Token::If {
        sound_head(g, i + 1);
        let t = g.head(i + 1);
        if g.ok(i + 1, t) {
            sound_stmt(g, t.next, false);
            let c = g.stmt(t.next, false);
            if g.ok(t.next, c) {
                if g.kind(c.next) != Token::Else {
                    lemma_wf3(g.if_stmt(i).tree(), t.tree(), c.tree(), absent(), g.zts);
                } else {
                    sound_stmt(g, c.next + 1, false);
                    let a = g.stmt(c.next + 1, false);
                    if g.ok(c.next + 1, a) {
                        lemma_wf3(g.if_stmt(i).tree(), t.tree(), c.tree(), a.tree(), g.zts);
                    }
                }
            }
        }
    }
}

pub(crate) proof fn sound_while_stmt(g: Gram, i: int)
    requires
        0 <= i,
    ensures
        sound(g, i, g.while_stmt(i)),
    decreases g.rem(i), 1nat,
{
    reveal(Gram::while_stmt);
    reveal(Gram::head);
    reveal(Gram::expr);
    reveal(Gram::stmt);
    if g.kind(i) == Token::While {
        sound_head(g, i + 1);
        let t = g.head(i + 1);
        if g.ok(i + 1, t) {
            sound_stmt(g, t.next, false);
            let b = g.stmt(t.next, false);
            if g.ok(t.next, b) {
                lemma_wf2(g.while_stmt(i).tree(), t.tree(), b.tree(), g.zts);
            }
        }
    }
}

pub(crate) proof fn sound_opt_expr(g: Gram, i: int, stop: Token)
    requires
        0 <= i,
        stop != Token::Eof,
    ensures
        sound_part(g, i, g.opt_expr(i, stop)),
        g.opt_expr(i, stop).res is Ok ==> g.kind(g.opt_expr(i, stop).next) == stop,
    decreases g.rem(i), 17nat,
{
    reveal(Gram::opt_expr);
    reveal(Gram::expr);
    lemma_absent(g.zts);
    if g.kind(i) != stop {
        sound_expr(g, i);
    }
}

pub(crate) proof fn sound_for_init(g: Gram, i: int)
    requires
        0 <= i,
    ensures
        sound_part(g, i, g.for_init(i)),
        g.for_init(i).res is Ok ==> g.kind(g.for_init(i).next) == Token::Semi,
    decreases g.rem(i), 19nat,
{
    reveal(Gram::for_init);
    reveal(Gram::opt_expr);
    reveal(Gram::var_decl);
    if var_kind(g.kind(i)) is Some {
        sound_var_decl(g, i);
    } else {
        sound_opt_expr(g, i, Token::Semi);
    }
}

#[verifier::rlimit(30)]
pub(crate) proof fn sound_for_stmt(g: Gram, i: int)
    requires
        0 <= i,
    ensures
        sound(g, i, g.for_stmt(i)),
    decreases g.rem(i), 1nat,
{
    reveal(Gram::for_stmt);
    reveal(Gram::for_init);
    reveal(Gram::opt_expr);
    reveal(Gram::stmt);
    if g.kind(i) == Token::For && g.kind(i + 1) == Token::LParen {
        sound_for_init(g, i + 2);
        let n = g.for_init(i + 2);
        if n.res is Ok {
            sound_opt_expr(g, n.next + 1, Token::Semi);
            let t = g.opt_expr(n.next + 1, Token::Semi);
            if t.res is Ok {
                sound_opt_expr(g, t.next + 1, Token::RParen);
                let u = g.opt_expr(t.next + 1, Token::RParen);
                if u.res is Ok {
                    lemma_parens(g, i + 1, u.next);
                    sound_stmt(g, u.next + 1, false);
                    let b = g.stmt(u.next + 1, false);
                    if g.ok(u.next + 1, b) {
                        lemma_wf4(
                            g.for_stmt(i).tree(),
                            n.tree(),
                            t.tree(),
                            u.tree(),
                            b.tree(),
                            g.zts,
                        );
                    }
                }
            }
        }
    }
}

pub(crate) proof fn sound_var_decl(g: Gram, i: int)
    requires
        0 <= i,
    ensures
        sound(g, i, g.var_decl(i)),
        g.var_decl(i).res matches Ok(t) ==> t.label is Var,
    decreases g.rem(i), 1nat,
{
    reveal(Gram::var_decl);
    reveal(Gram::declarators);
    reveal(var_kind);
    if var_kind(g.kind(i)) is Some {
        sound_declarators(g, i + 1);
        let l = g.declarators(i + 1);
        if g.okl(i + 1, l) {
            lemma_parts(l.tree(), g.zts);
            lemma_list(g.var_decl(i).tree(), l.tree().kids, g.zts);
        }
    }
}

pub(crate) proof fn sound_declarators(g: Gram, i: int)
    requires
        0 <= i,
    ensures
        sound_list(g, i, g.declarators(i)),
    decreases g.rem(i), 11nat,
{
    reveal(Gram::declarators);
    reveal(Gram::declarator);
    sound_declarator(g, i);
    let d = g.declarator(i);
    if g.ok(i, d) {
        lemma_grow_front(d.tree(), Seq::empty(), g.zts);
        assert(seq![d.tree()] + Seq::<Tree>::empty() =~= seq![d.tree()]);
        lemma_list(list(seq![d.tree()]), seq![d.tree()], g.zts);
        if g.kind(d.next) == Token::Comma {
            sound_declarators(g, d.next + 1);
            let m = g.declarators(d.next + 1);
            if m.res is Ok {
                lemma_grow_front(d.tree(), m.tree().kids, g.zts);
                lemma_list(g.declarators(i).tree(), seq![d.tree()] + m.tree().kids, g.zts);
            }
        }
    }
}

pub(crate) proof fn sound_declarator(g: Gram, i: int)
    requires
        0 <= i,
    ensures
        sound(g, i, g.declarator(i)),
    decreases g.rem(i), 9nat,
{
    reveal(Gram::declarator);
    reveal(Gram::assign);
    reveal(Gram::binding);
    lemma_absent(g.zts);
    sound_binding(g, i);
    let b = g.binding(i);
    if g.ok(i, b) {
        if g.kind(b.next) != Token::Eq {
            lemma_wf2(g.declarator(i).tree(), b.tree(), absent(), g.zts);
        } else {
            sound_assign(g, b.next + 1);
            let a = g.assign(b.next + 1);
            if g.ok(b.next + 1, a) {
                lemma_wf2(g.declarator(i).tree(), b.tree(), a.tree(), g.zts);
            }
        }
    }
}

pub(crate) proof fn sound_var_stmt(g: Gram, i: int)
    requires
        0 <= i,
    ensures
        sound(g, i, g.var_stmt(i)),
    decreases g.rem(i), 3nat,
{
    reveal(Gram::var_stmt);
    reveal(Gram::var_decl);
    sound_var_decl(g, i);
    let v = g.var_decl(i);
    if g.ok(i, v) && g.semi(v.next) is Some {
        lemma_parts(v.tree(), g.zts);
        lemma_list(g.var_stmt(i).tree(), v.tree().kids, g.zts);
    }
}

#[verifier::rlimit(30)]
pub(crate) proof fn sound_expr_stmt(g: Gram, i: int, top: bool)
    requires
        0 <= i,
    ensures
        sound(g, i, g.expr_stmt(i, top)),
    decreases g.rem(i), 19nat,
{
    reveal(Gram::expr_stmt);
    reveal(Gram::any_enum);
    reveal(Gram::expr);
    reveal(Gram::stmt);
    sound_expr(g, i);
    let e = g.expr(i);
    if g.ok(i, e) {
        if e.tree().label is Ident && g.kind(e.next) == Token::Colon {
            sound_stmt(g, e.next + 1, false);
            let b = g.stmt(e.next + 1, false);
            if g.ok(e.next + 1, b) {
                lemma_wf2(g.expr_stmt(i, top).tree(), e.tree(), b.tree(), g.zts);
            }
        } else if top && is_ident_named(e.tree(), "declare"@) && !g.nl(e.next) && g.kind(e.next)
            == Token::Enum {
            sound_any_enum(g, e.next + 1, g.lo(i), false, true);
        } else if top && is_ident_named(e.tree(), "declare"@) && !g.nl(e.next) && g.kind(e.next)
            == Token::Const && g.kind(e.next + 1) == Token::Enum {
            sound_any_enum(g, e.next + 2, g.lo(i), true, true);
        } else if top && is_ident_named(e.tree(), "declare"@) && !g.nl(e.next) && g.newtype_ahead(
            e.next,
        ) {
            reveal(Gram::newtype_ahead);
            reveal(Token::spec_is_ident_like);
            sound_newtype(g, e.next + 1, g.lo(i), true);
        } else if g.zts && top && is_ident_named(e.tree(), "newtype"@) && !g.nl(e.next) && g.kind(
            e.next,
        ).is_ident_like() {
            sound_newtype(g, e.next, g.lo(i), false);
        } else if g.semi(e.next) is Some {
            lemma_wf1(g.expr_stmt(i, top).tree(), e.tree(), g.zts);
        }
    }
}

pub(crate) proof fn sound_items(g: Gram, i: int)
    requires
        0 <= i,
        i <= g.toks.len(),
    ensures
        sound_list(g, i, g.items(i)),
        g.items(i).res is Ok ==> g.kind(g.items(i).next) == Token::Eof,
    decreases g.rem(i),
{
    reveal(Gram::items);
    if g.kind(i) == Token::Eof {
        lemma_nothing(g.zts);
    } else {
        sound_item(g, i);
        let s = g.item(i);
        if g.ok(i, s) {
            sound_items(g, s.next);
            let m = g.items(s.next);
            if m.res is Ok {
                lemma_grow_front(s.tree(), m.tree().kids, g.zts);
                lemma_list(g.items(i).tree(), seq![s.tree()] + m.tree().kids, g.zts);
            }
        }
    }
}

pub(crate) proof fn sound_item(g: Gram, i: int)
    requires
        0 <= i,
    ensures
        sound(g, i, g.item(i)),
{
    reveal(Gram::item);
    if g.kind(i) == Token::Export {
        sound_export(g, i);
    } else {
        sound_stmt(g, i, true);
    }
}

pub(crate) proof fn sound_export(g: Gram, i: int)
    requires
        0 <= i,
        g.kind(i) == Token::Export,
    ensures
        sound(g, i, g.export(i)),
{
    reveal(Gram::export);
    if g.kind(i + 1) == Token::Default {
        sound_assign(g, i + 2);
        let e = g.assign(i + 2);
        if g.ok(i + 2, e) && g.semi(e.next) is Some {
            lemma_wf1(g.export(i).tree(), e.tree(), g.zts);
        }
    } else {
        sound_export_decl(g, i + 1);
        let d = g.export_decl(i + 1);
        if g.ok(i + 1, d) {
            lemma_wf1(g.export(i).tree(), d.tree(), g.zts);
        }
    }
}

pub(crate) proof fn sound_export_decl(g: Gram, i: int)
    requires
        0 <= i,
    ensures
        sound(g, i, g.export_decl(i)),
{
    reveal(Gram::export_decl);
    let k = g.kind(i);
    if k == Token::Enum {
        sound_any_enum(g, i + 1, g.lo(i), false, false);
    } else if k == Token::Const && g.kind(i + 1) == Token::Enum {
        sound_any_enum(g, i + 2, g.lo(i), true, false);
    } else if var_kind(k) is Some {
        sound_var_stmt(g, i);
    } else if g.newtype_ahead(i) {
        reveal(Gram::newtype_ahead);
        reveal(Token::spec_is_ident_like);
        sound_newtype(g, i + 1, g.lo(i), false);
    }
}

} // verus!
