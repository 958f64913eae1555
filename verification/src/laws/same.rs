//! The law that zts is a superset of TypeScript, phrase by phrase: `same_x` is
//! about the phrase `x` of the grammar.
use crate::error::Error;
use crate::grammar::{
    assign_op, assignable, binary_op, good, is_ident_named, is_lit, precedence, right_precedence,
    template_start, var_kind, Gram, ListKind, Out,
};
use crate::laws::both::{
    blocked, held, held_list, held_step, kept, kept_list, kept_step, lemma_annotated, lemma_args,
    lemma_assign_op, lemma_binary_op, lemma_blocked, lemma_call, lemma_enum, lemma_header,
    lemma_match_word, lemma_newtype_ahead, lemma_not, lemma_prefix_op, lemma_respanned,
    lemma_stuck_bin, lemma_stuck_subscript, lemma_var_kind, match_ahead, ne1, ne2, ne3, ne4,
    ne_front, ne_list, ne_push, no_enum, off, on, plain_list, worded,
};
use crate::laws::shape::{group_sound, is_sound_expr};
use crate::laws::sound::{
    lemma_pat_shape, sound_array, sound_arrow, sound_arrow_body, sound_arrow_params, sound_assign,
    sound_bin, sound_bin_rest, sound_bin_step, sound_binding, sound_block, sound_call,
    sound_comma_list, sound_cond, sound_declarator, sound_declarators, sound_export,
    sound_export_decl, sound_expr, sound_expr_stmt, sound_for_init, sound_for_stmt, sound_head,
    sound_if_stmt, sound_item, sound_items, sound_more_exprs, sound_object, sound_object_pat,
    sound_opt_expr, sound_param, sound_paren, sound_pat, sound_pat_elem, sound_pat_prop,
    sound_primary, sound_prop, sound_stmt, sound_stmts, sound_subscript, sound_subscripts,
    sound_subscripts_rest, sound_tpl, sound_ty, sound_unary, sound_var_decl, sound_var_stmt,
    sound_while_stmt,
};
use crate::span::BytePos;
use crate::token::{Tok, Token};
use crate::tree::{absent, ident_name, kids1, list, node, Label, Tree};
use vstd::prelude::*;

verus! {

broadcast use {group_sound, lemma_blocked};

proof fn same_ty(toks: Seq<Tok>, i: int)
    requires
        0 <= i,
        worded(toks),
    ensures
        off(toks).ty(i) == on(toks).ty(i),
    decreases off(toks).rem(i), 7nat,
{
    reveal(Gram::ty);
    reveal(Gram::more_types);
    reveal(Gram::ty_postfix);
    let g = off(toks);
    let z = on(toks);
    same_ty_postfix(toks, i);
    let a = g.ty_postfix(i);
    if g.ok(i, a) && g.kind(a.next) == Token::Pipe {
        same_more_types(toks, a.next);
    }
}

proof fn same_more_types(toks: Seq<Tok>, i: int)
    requires
        0 <= i,
        worded(toks),
    ensures
        off(toks).more_types(i) == on(toks).more_types(i),
    decreases off(toks).rem(i), 1nat,
{
    reveal(Gram::more_types);
    reveal(Gram::ty_postfix);
    let g = off(toks);
    let z = on(toks);
    if g.kind(i) == Token::Pipe {
        same_ty_postfix(toks, i + 1);
        let a = g.ty_postfix(i + 1);
        if g.ok(i + 1, a) {
            same_more_types(toks, a.next);
        }
    }
}

proof fn same_ty_postfix(toks: Seq<Tok>, i: int)
    requires
        0 <= i,
        worded(toks),
    ensures
        off(toks).ty_postfix(i) == on(toks).ty_postfix(i),
    decreases off(toks).rem(i), 5nat,
{
    reveal(Gram::ty_postfix);
    reveal(Gram::ty_primary);
    let g = off(toks);
    let z = on(toks);
    same_ty_primary(toks, i);
    let a = g.ty_primary(i);
    if g.ok(i, a) {
        same_ty_suffix(toks, g.lo(i), a);
    }
}

proof fn same_ty_suffix(toks: Seq<Tok>, start: BytePos, a: Out)
    requires
        0 <= a.next,
        worded(toks),
    ensures
        off(toks).ty_suffix(start, a) == on(toks).ty_suffix(start, a),
    decreases off(toks).rem(a.next), 1nat,
{
    reveal(Gram::ty_suffix);
    let g = off(toks);
    let z = on(toks);
    if g.kind(a.next) == Token::LBracket && !g.nl(a.next) && g.kind(a.next + 1)
        == Token::RBracket {
        let t = node(Label::TsArray, g.span(start, a.next + 2), kids1(a.tree()));
        same_ty_suffix(toks, start, a.grown(t, a.next + 2));
    }
}

proof fn same_ty_primary(toks: Seq<Tok>, i: int)
    requires
        0 <= i,
        worded(toks),
    ensures
        off(toks).ty_primary(i) == on(toks).ty_primary(i),
    decreases off(toks).rem(i), 3nat,
{
    reveal(Gram::ty_primary);
    reveal(Gram::ty);
    let g = off(toks);
    let z = on(toks);
    if g.kind(i) == Token::LParen {
        same_ty(toks, i + 1);
    }
}

proof fn same_after_close(toks: Seq<Tok>, i: int, depth: int)
    ensures
        off(toks).after_close(i, depth) == on(toks).after_close(i, depth),
    decreases off(toks).rem(i),
{
    let g = off(toks);
    if g.kind(i) != Token::Eof {
        same_after_close(toks, i + 1, depth + 1);
        same_after_close(toks, i + 1, depth - 1);
        same_after_close(toks, i + 1, depth);
    }
}

proof fn same_arrow_ahead(toks: Seq<Tok>, i: int)
    ensures
        off(toks).arrow_ahead(i) == on(toks).arrow_ahead(i),
{
    reveal(Gram::arrow_ahead);
    same_after_close(toks, i + 1, 1);
}

proof fn same_pat(toks: Seq<Tok>, i: int)
    requires
        0 <= i,
        worded(toks),
    ensures
        kept(toks, i, off(toks).pat(i), on(toks).pat(i)),
    decreases off(toks).rem(i), 3nat,
{
    reveal(Gram::pat);
    reveal(Gram::object_pat);
    let g = off(toks);
    let z = on(toks);
    sound_pat(g, i);
    if g.kind(i) == Token::LBrace {
        same_object_pat(toks, i);
    }
}

proof fn same_object_pat(toks: Seq<Tok>, i: int)
    requires
        0 <= i,
        worded(toks),
    ensures
        kept(toks, i, off(toks).object_pat(i), on(toks).object_pat(i)),
    decreases off(toks).rem(i), 1nat,
{
    reveal(Gram::object_pat);
    reveal(Gram::comma_list);
    let g = off(toks);
    let z = on(toks);
    sound_object_pat(g, i);
    if g.kind(i) == Token::LBrace {
        same_comma_list(toks, ListKind::PatProps, i + 1);
        let l = g.comma_list(ListKind::PatProps, i + 1);
        if g.object_pat(i).res is Ok && no_enum(g.object_pat(i).tree()) {
            ne2(g.object_pat(i).tree(), l.tree(), absent());
        }
    }
}

proof fn same_pat_prop(toks: Seq<Tok>, i: int)
    requires
        0 <= i,
        worded(toks),
    ensures
        held(toks, i, off(toks).pat_prop(i), on(toks).pat_prop(i)),
    decreases off(toks).rem(i), 1nat,
{
    reveal(Gram::pat_prop);
    reveal(Gram::assign);
    reveal(Gram::pat);
    reveal(Gram::pat_elem);
    let g = off(toks);
    let z = on(toks);
    sound_pat_prop(g, i);
    let o = g.pat_prop(i);
    let t = o.tree();
    if g.kind(i) == Token::DotDotDot {
        same_pat(toks, i + 1);
        if o.res is Ok && no_enum(t) {
            ne1(t, g.pat(i + 1).tree());
        }
    } else if g.kind(i).is_word() && g.kind(i + 1) == Token::Colon {
        same_pat_elem(toks, i + 2);
        if o.res is Ok && no_enum(t) {
            ne2(t, ident_name(g.text(i), g.span_at(i)), g.pat_elem(i + 2).tree());
        }
    } else if g.kind(i).is_ident_like() && g.kind(i + 1) == Token::Eq {
        same_assign(toks, i + 2);
        if o.res is Ok && no_enum(t) {
            ne2(t, g.binding_at(i), g.assign(i + 2).tree());
        }
    }
}

proof fn same_with_default(toks: Seq<Tok>, i: int, start: BytePos, p: Out)
    requires
        0 <= p.next,
        worded(toks),
        p.res is Ok,
        off(toks).ok(i, p),
    ensures
        held(toks, i, off(toks).with_default(start, p), on(toks).with_default(start, p)),
        off(toks).with_default(start, p).res is Ok && no_enum(
            off(toks).with_default(start, p).tree(),
        ) ==> no_enum(p.tree()),
        off(toks).kind(p.next) != Token::Eq ==> off(toks).with_default(start, p) == p,
        off(toks).with_default(start, p) != p ==> off(toks).kind(p.next) == Token::Eq,
    decreases off(toks).rem(p.next), 1nat,
{
    reveal(Gram::with_default);
    reveal(Gram::assign);
    let g = off(toks);
    let z = on(toks);
    let o = g.with_default(start, p);
    if g.kind(p.next) == Token::Eq {
        sound_assign(g, p.next + 1);
        same_assign(toks, p.next + 1);
        if o.res is Ok && no_enum(o.tree()) {
            ne2(o.tree(), p.tree(), g.assign(p.next + 1).tree());
        }
    }
}

proof fn same_pat_elem(toks: Seq<Tok>, i: int)
    requires
        0 <= i,
        worded(toks),
    ensures
        held(toks, i, off(toks).pat_elem(i), on(toks).pat_elem(i)),
    decreases off(toks).rem(i), 5nat,
{
    reveal(Gram::pat_elem);
    reveal(Gram::pat);
    reveal(Gram::with_default);
    reveal(Gram::assign);
    let g = off(toks);
    let z = on(toks);
    sound_pat_elem(g, i);
    same_pat(toks, i);
    let p = g.pat(i);
    if g.ok(i, p) {
        same_with_default(toks, i, g.lo(i), p);
    }
}

proof fn same_param(toks: Seq<Tok>, i: int)
    requires
        0 <= i,
        worded(toks),
    ensures
        held(toks, i, off(toks).param(i), on(toks).param(i)),
    decreases off(toks).rem(i), 7nat,
{
    reveal(Gram::param);
    reveal(Gram::binding);
    reveal(Gram::with_default);
    reveal(Gram::assign);
    let g = off(toks);
    let z = on(toks);
    sound_param(g, i);
    same_binding(toks, i);
    let p = g.binding(i);
    if g.ok(i, p) {
        same_with_default(toks, i, g.lo(i), p);
    }
}

proof fn same_binding(toks: Seq<Tok>, i: int)
    requires
        0 <= i,
        worded(toks),
    ensures
        kept(toks, i, off(toks).binding(i), on(toks).binding(i)),
    decreases off(toks).rem(i), 5nat,
{
    reveal(Gram::binding);
    reveal(Gram::pat);
    let g = off(toks);
    let z = on(toks);
    sound_binding(g, i);
    same_pat(toks, i);
    let p = g.pat(i);
    if g.ok(i, p) && g.kind(p.next) == Token::Colon {
        same_ty(toks, p.next + 1);
        sound_ty(g, p.next + 1);
        if g.binding(i).res is Ok && no_enum(g.binding(i).tree()) {
            lemma_pat_shape(g, i);
            let t = g.ty(p.next + 1);
            let ann = node(Label::TsTypeAnn, g.span(g.lo(p.next), t.next), kids1(t.tree()));
            lemma_annotated(p.tree(), g.binding(i).tree(), ann);
        }
    }
}

proof fn same_elem(toks: Seq<Tok>, k: ListKind, i: int)
    requires
        0 <= i,
        worded(toks),
        plain_list(k),
    ensures
        held(toks, i, off(toks).elem(k, i), on(toks).elem(k, i)),
    decreases off(toks).rem(i), 17nat,
{
    let g = off(toks);
    let z = on(toks);
    g.lemma_elem(k, i);
    z.lemma_elem(k, i);
    match k {
        ListKind::Args | ListKind::Elems => same_assign(toks, i),
        ListKind::Props => same_prop(toks, i),
        ListKind::Params => same_param(toks, i),
        ListKind::PatProps => same_pat_prop(toks, i),
        _ => {},
    }
}

proof fn same_comma_list(toks: Seq<Tok>, k: ListKind, i: int)
    requires
        0 <= i,
        worded(toks),
        plain_list(k),
    ensures
        held_list(toks, i, off(toks).comma_list(k, i), on(toks).comma_list(k, i)),
    decreases off(toks).rem(i), 19nat,
{
    reveal(Gram::comma_list);
    reveal(Gram::elem);
    let g = off(toks);
    let z = on(toks);
    sound_comma_list(g, k, i);
    let o = g.comma_list(k, i);
    if g.kind(i) != k.close() {
        same_elem(toks, k, i);
        let e = g.elem(k, i);
        if g.ok(i, e) {
            if g.kind(e.next) == Token::Comma {
                same_comma_list(toks, k, e.next + 1);
                let m = g.comma_list(k, e.next + 1);
                sound_comma_list(g, k, e.next + 1);
                if o.res is Ok && no_enum(o.tree()) {
                    ne_front(o.tree(), e.tree(), m.tree());
                }
            } else if o.res is Ok && no_enum(o.tree()) {
                assert(o.tree().kids =~= seq![e.tree()] + Seq::<Tree>::empty());
                ne_front(o.tree(), e.tree(), list(Seq::empty()));
            }
        }
    }
}

proof fn same_expr(toks: Seq<Tok>, i: int)
    requires
        0 <= i,
        worded(toks),
    ensures
        held(toks, i, off(toks).expr(i), on(toks).expr(i)),
    decreases off(toks).rem(i), 15nat,
{
    let g = off(toks);
    let z = on(toks);
    sound_expr(g, i);
    g.lemma_expr(i);
    z.lemma_expr(i);
    same_assign(toks, i);
    let a = g.assign(i);
    if g.ok(i, a) && g.kind(a.next) == Token::Comma {
        same_more_exprs(toks, a.next);
        sound_more_exprs(g, a.next);
        let o = g.expr(i);
        if o.res is Ok && no_enum(o.tree()) {
            ne_front(o.tree(), a.tree(), g.more_exprs(a.next).tree());
        }
    }
}

proof fn same_more_exprs(toks: Seq<Tok>, i: int)
    requires
        0 <= i,
        worded(toks),
        i <= toks.len(),
    ensures
        held_list(toks, i, off(toks).more_exprs(i), on(toks).more_exprs(i)),
    decreases off(toks).rem(i), 1nat,
{
    let g = off(toks);
    let z = on(toks);
    sound_more_exprs(g, i);
    g.lemma_more_exprs(i);
    z.lemma_more_exprs(i);
    if g.kind(i) == Token::Comma {
        same_assign(toks, i + 1);
        let a = g.assign(i + 1);
        if g.ok(i + 1, a) {
            same_more_exprs(toks, a.next);
            sound_more_exprs(g, a.next);
            g.lemma_more_exprs(a.next);
            let o = g.more_exprs(i);
            if o.res is Ok && no_enum(o.tree()) {
                ne_front(o.tree(), a.tree(), g.more_exprs(a.next).tree());
            }
        }
    }
}

proof fn same_assign(toks: Seq<Tok>, i: int)
    requires
        0 <= i,
        worded(toks),
    ensures
        held(toks, i, off(toks).assign(i), on(toks).assign(i)),
    decreases off(toks).rem(i), 13nat,
{
    reveal(Gram::assign);
    reveal(Gram::arrow);
    reveal(Gram::cond);
    let g = off(toks);
    let z = on(toks);
    sound_assign(g, i);
    same_arrow_ahead(toks, i);
    if g.arrow_ahead(i) {
        same_arrow(toks, i);
    } else {
        same_cond(toks, i);
        let a = g.cond(i);
        let o = g.assign(i);
        if g.ok(i, a) && assign_op(g.kind(a.next)) is Some && assignable(a.tree()) {
            lemma_assign_op(g.kind(a.next));
            same_assign(toks, a.next + 1);
            if o.res is Ok && no_enum(o.tree()) {
                ne2(o.tree(), a.tree(), g.assign(a.next + 1).tree());
            }
        }
    }
}

proof fn same_arrow_params(toks: Seq<Tok>, i: int)
    requires
        0 <= i,
        worded(toks),
        off(toks).arrow_ahead(i),
    ensures
        kept_list(toks, i, off(toks).arrow_params(i), on(toks).arrow_params(i)),
    decreases off(toks).rem(i), 1nat,
{
    reveal(Gram::arrow_params);
    reveal(Gram::comma_list);
    let g = off(toks);
    let z = on(toks);
    sound_arrow_params(g, i);
    if g.kind(i) == Token::LParen {
        same_comma_list(toks, ListKind::Params, i + 1);
    }
}

proof fn same_arrow(toks: Seq<Tok>, i: int)
    requires
        0 <= i,
        worded(toks),
        off(toks).arrow_ahead(i),
    ensures
        held(toks, i, off(toks).arrow(i), on(toks).arrow(i)),
    decreases off(toks).rem(i), 11nat,
{
    reveal(Gram::arrow);
    reveal(Gram::arrow_body);
    reveal(Gram::assign);
    reveal(Gram::block);
    reveal(Gram::arrow_params);
    reveal(Gram::comma_list);
    let g = off(toks);
    let z = on(toks);
    sound_arrow(g, i);
    sound_arrow_params(g, i);
    same_arrow_params(toks, i);
    let p = g.arrow_params(i);
    if g.ok(i, p) && g.kind(p.next) == Token::Arrow {
        same_arrow_body(toks, p.next + 1);
        let o = g.arrow(i);
        if o.res is Ok && no_enum(o.tree()) {
            ne2(o.tree(), p.tree(), g.arrow_body(p.next + 1).tree());
        }
    }
}

proof fn same_arrow_body(toks: Seq<Tok>, i: int)
    requires
        0 <= i,
        worded(toks),
    ensures
        held(toks, i, off(toks).arrow_body(i), on(toks).arrow_body(i)),
    decreases off(toks).rem(i), 15nat,
{
    reveal(Gram::arrow_body);
    reveal(Gram::assign);
    reveal(Gram::block);
    let g = off(toks);
    let z = on(toks);
    sound_arrow_body(g, i);
    if g.kind(i) == Token::LBrace {
        same_block(toks, i);
    } else {
        same_assign(toks, i);
    }
}

proof fn same_cond(toks: Seq<Tok>, i: int)
    requires
        0 <= i,
        worded(toks),
    ensures
        held(toks, i, off(toks).cond(i), on(toks).cond(i)),
    decreases off(toks).rem(i), 11nat,
{
    reveal(Gram::cond);
    reveal(Gram::assign);
    reveal(Gram::bin);
    let g = off(toks);
    let z = on(toks);
    sound_cond(g, i);
    same_bin(toks, i, 0);
    let t = g.bin(i, 0);
    if g.ok(i, t) && g.kind(t.next) == Token::Question {
        same_assign(toks, t.next + 1);
        let c = g.assign(t.next + 1);
        if g.ok(t.next + 1, c) && g.kind(c.next) == Token::Colon {
            same_assign(toks, c.next + 1);
            let o = g.cond(i);
            if o.res is Ok && no_enum(o.tree()) {
                ne3(o.tree(), t.tree(), c.tree(), g.assign(c.next + 1).tree());
            }
        }
    }
}

proof fn same_bin(toks: Seq<Tok>, i: int, min: int)
    requires
        0 <= i,
        worded(toks),
    ensures
        held(toks, i, off(toks).bin(i, min), on(toks).bin(i, min)),
    decreases off(toks).rem(i), 9nat,
{
    let g = off(toks);
    let z = on(toks);
    sound_bin(g, i, min);
    g.lemma_bin(i, min);
    z.lemma_bin(i, min);
    same_unary(toks, i);
    let a = g.unary(i);
    if g.ok(i, a) {
        sound_unary(g, i);
        same_bin_rest(toks, i, g.lo(i), a, min);
    }
}

proof fn same_bin_rest(toks: Seq<Tok>, i: int, start: BytePos, a: Out, min: int)
    requires
        0 <= a.next,
        worded(toks),
        0 <= i,
        a.res is Ok,
        is_sound_expr(off(toks), i, a),
    ensures
        held(toks, i, off(toks).bin_rest(start, a, min), on(toks).bin_rest(start, a, min)),
        off(toks).bin_rest(start, a, min).res is Ok && no_enum(
            off(toks).bin_rest(start, a, min).tree(),
        ) ==> no_enum(a.tree()),
        blocked(off(toks), a.next) ==> off(toks).bin_rest(start, a, min) == a,
    decreases off(toks).rem(a.next), 3nat,
{
    let g = off(toks);
    let z = on(toks);
    g.lemma_bin_rest(start, a, min);
    z.lemma_bin_rest(start, a, min);
    sound_bin_rest(g, i, start, a, min);
    sound_bin_step(g, start, a.tree(), a.next, min);
    if blocked(g, a.next) {
        lemma_stuck_bin(g, start, a.tree(), a.next, min);
    }
    same_bin_step(toks, start, a.tree(), a.next, min);
    if let Some(s) = g.bin_step(start, a.tree(), a.next, min) {
        let b = s.after(a);
        if g.ok(a.next, b) {
            same_bin_rest(toks, i, start, b, min);
        }
    }
}

proof fn same_bin_step(toks: Seq<Tok>, start: BytePos, t: Tree, i: int, min: int)
    requires
        0 <= i,
        worded(toks),
    ensures
        held_step(
            toks,
            i,
            t,
            off(toks).bin_step(start, t, i, min),
            on(toks).bin_step(start, t, i, min),
        ),
    decreases off(toks).rem(i), 1nat,
{
    reveal(Gram::bin_step);
    reveal(Gram::bin);
    let g = off(toks);
    let z = on(toks);
    lemma_binary_op(g.kind(i));
    let k = g.kind(i);
    let s = g.bin_step(start, t, i, min);
    if (k == Token::As || k == Token::Satisfies) && !g.nl(i) && min < 7 {
        same_ty(toks, i + 1);
        sound_ty(g, i + 1);
        if s->0.res is Ok && no_enum(s->0.tree()) {
            ne2(s->0.tree(), t, g.ty(i + 1).tree());
        }
    } else if let Some(op) = binary_op(k) {
        if precedence(op) > min {
            same_bin(toks, i + 1, right_precedence(op));
            if s->0.res is Ok && no_enum(s->0.tree()) {
                ne2(s->0.tree(), t, g.bin(i + 1, right_precedence(op)).tree());
            }
        }
    }
}

proof fn same_unary(toks: Seq<Tok>, i: int)
    requires
        0 <= i,
        worded(toks),
    ensures
        held(toks, i, off(toks).unary(i), on(toks).unary(i)),
    decreases off(toks).rem(i), 7nat,
{
    reveal(Gram::unary);
    reveal(Gram::subscripts);
    let g = off(toks);
    let z = on(toks);
    sound_unary(g, i);
    lemma_prefix_op(toks, i);
    match g.prefix_op(i) {
        None => {
            same_subscripts(toks, i);
            if z.prefix_op(i) is Some {
                lemma_not(toks, i);
            }
        },
        Some(op) => {
            same_unary(toks, i + 1);
            let o = g.unary(i);
            if o.res is Ok && no_enum(o.tree()) {
                ne1(o.tree(), g.unary(i + 1).tree());
            }
        },
    }
}

proof fn same_subscripts(toks: Seq<Tok>, i: int)
    requires
        0 <= i,
        worded(toks),
    ensures
        held(toks, i, off(toks).subscripts(i), on(toks).subscripts(i)),
    decreases off(toks).rem(i), 5nat,
{
    let g = off(toks);
    let z = on(toks);
    sound_subscripts(g, i);
    g.lemma_subscripts(i);
    z.lemma_subscripts(i);
    same_primary(toks, i);
    let a = g.primary(i);
    if g.ok(i, a) {
        sound_primary(g, i);
        same_subscripts_rest(toks, i, g.lo(i), a);
        if match_ahead(toks, i) {
            same_match(toks, i);
        }
    }
}

proof fn same_subscripts_rest(toks: Seq<Tok>, i: int, start: BytePos, a: Out)
    requires
        0 <= a.next,
        worded(toks),
        0 <= i,
        a.res is Ok,
        is_sound_expr(off(toks), i, a),
    ensures
        held(toks, i, off(toks).subscripts_rest(start, a), on(toks).subscripts_rest(start, a)),
        off(toks).subscripts_rest(start, a).res is Ok && no_enum(
            off(toks).subscripts_rest(start, a).tree(),
        ) ==> no_enum(a.tree()),
        blocked(off(toks), a.next) ==> off(toks).subscripts_rest(start, a) == a,
    decreases off(toks).rem(a.next), 5nat,
{
    let g = off(toks);
    let z = on(toks);
    g.lemma_subscripts_rest(start, a);
    z.lemma_subscripts_rest(start, a);
    sound_subscripts_rest(g, i, start, a);
    sound_subscript(g, start, a.tree(), a.next);
    if blocked(g, a.next) {
        lemma_stuck_subscript(g, start, a.tree(), a.next);
    }
    same_subscript(toks, start, a.tree(), a.next);
    if let Some(s) = g.subscript(start, a.tree(), a.next) {
        let b = s.after(a);
        if g.ok(a.next, b) {
            same_subscripts_rest(toks, i, start, b);
        }
    }
}

proof fn same_computed(toks: Seq<Tok>, start: BytePos, t: Tree, i: int)
    requires
        0 <= i,
        worded(toks),
        off(toks).kind(i) == Token::LBracket,
    ensures
        kept_step(toks, i, t, off(toks).subscript(start, t, i), on(toks).subscript(start, t, i)),
    decreases off(toks).rem(i), 2nat,
{
    reveal(Gram::subscript);
    reveal(Gram::expr);
    let g = off(toks);
    let z = on(toks);
    same_expr(toks, i + 1);
    let e = g.expr(i + 1);
    let o = g.subscript(start, t, i)->0;
    if o.res is Ok && no_enum(o.tree()) {
        let p = node(Label::ComputedProp, g.span(g.lo(i), e.next + 1), kids1(e.tree()));
        ne2(o.tree(), t, p);
        ne1(p, e.tree());
    }
}

proof fn same_call(toks: Seq<Tok>, start: BytePos, t: Tree, i: int)
    requires
        0 <= i,
        worded(toks),
        off(toks).kind(i) == Token::LParen,
    ensures
        kept_step(toks, i, t, off(toks).subscript(start, t, i), on(toks).subscript(start, t, i)),
    decreases off(toks).rem(i), 2nat,
{
    reveal(Gram::subscript);
    reveal(Gram::comma_list);
    let g = off(toks);
    let z = on(toks);
    same_comma_list(toks, ListKind::Args, i + 1);
    let o = g.subscript(start, t, i)->0;
    if o.res is Ok && no_enum(o.tree()) {
        ne2(o.tree(), t, g.comma_list(ListKind::Args, i + 1).tree());
    }
}

proof fn same_tagged(toks: Seq<Tok>, start: BytePos, t: Tree, i: int)
    requires
        0 <= i,
        worded(toks),
        template_start(off(toks).kind(i)),
    ensures
        kept_step(toks, i, t, off(toks).subscript(start, t, i), on(toks).subscript(start, t, i)),
    decreases off(toks).rem(i), 2nat,
{
    reveal(Gram::subscript);
    reveal(Gram::tpl);
    let g = off(toks);
    same_tpl(toks, i);
    let o = g.subscript(start, t, i)->0;
    if o.res is Ok && no_enum(o.tree()) {
        ne2(o.tree(), t, g.tpl(i).tree());
    }
}

proof fn same_suffix(toks: Seq<Tok>, start: BytePos, t: Tree, i: int)
    requires
        0 <= i,
        worded(toks),
        off(toks).kind(i) != Token::LBracket && off(toks).kind(i) != Token::LParen,
        !template_start(off(toks).kind(i)),
    ensures
        kept_step(toks, i, t, off(toks).subscript(start, t, i), on(toks).subscript(start, t, i)),
    decreases off(toks).rem(i), 2nat,
{
    reveal(Gram::subscript);
    let g = off(toks);
    let z = on(toks);
    reveal(Token::spec_is_word);
    if let Some(o) = g.subscript(start, t, i) {
        if o.res is Ok && no_enum(o.tree()) {
            if g.kind(i) == Token::Dot {
                ne2(o.tree(), t, g.name(i + 1).tree());
            } else {
                ne1(o.tree(), t);
            }
        }
    }
}

proof fn same_subscript(toks: Seq<Tok>, start: BytePos, t: Tree, i: int)
    requires
        0 <= i,
        worded(toks),
    ensures
        kept_step(toks, i, t, off(toks).subscript(start, t, i), on(toks).subscript(start, t, i)),
    decreases off(toks).rem(i), 3nat,
{
    let g = off(toks);
    let z = on(toks);
    if g.kind(i) == Token::LBracket {
        same_computed(toks, start, t, i);
    } else if g.kind(i) == Token::LParen {
        same_call(toks, start, t, i);
    } else if template_start(g.kind(i)) {
        same_tagged(toks, start, t, i);
    } else {
        same_suffix(toks, start, t, i);
    }
}

proof fn same_primary(toks: Seq<Tok>, i: int)
    requires
        0 <= i,
        worded(toks),
    ensures
        !match_ahead(toks, i) ==> kept(toks, i, off(toks).primary(i), on(toks).primary(i)),
        match_ahead(toks, i) ==> off(toks).primary(i) == good(off(toks).ident_at(i), i + 1),
        off(toks).primary(i).res is Ok ==> off(toks).ok(i, off(toks).primary(i)),
    decreases off(toks).rem(i), 3nat,
{
    reveal(Gram::tpl);
    reveal(Gram::primary);
    reveal(Gram::array);
    reveal(Gram::match_header);
    reveal(Gram::object);
    reveal(Gram::paren);
    let g = off(toks);
    let z = on(toks);
    sound_primary(g, i);
    reveal(Gram::match_keyword);
    assert(!Token::If.is_ident_like() && !is_lit(Token::If)) by {
        reveal(Token::spec_is_ident_like);
        reveal(is_lit);
    }
    assert(Token::Ident.is_ident_like()) by {
        reveal(Token::spec_is_ident_like);
    }
    let k = g.kind(i);
    if match_ahead(toks, i) {
        lemma_match_word(toks, i);
    } else if k == Token::LParen {
        same_paren(toks, i);
    } else if k == Token::LBracket {
        same_array(toks, i);
    } else if k == Token::LBrace {
        same_object(toks, i);
    } else if template_start(k) {
        same_tpl(toks, i);
    }
}

proof fn same_tpl(toks: Seq<Tok>, i: int)
    requires
        0 <= i,
        worded(toks),
    ensures
        kept(toks, i, off(toks).tpl(i), on(toks).tpl(i)),
    decreases off(toks).rem(i), 1nat,
{
    let g = off(toks);
    let z = on(toks);
    g.lemma_tpl(i);
    z.lemma_tpl(i);
    sound_tpl(g, i);
    if g.kind(i) == Token::TemplateHead {
        same_tpl_rest(
            toks,
            g.lo(i),
            Seq::empty(),
            seq![g.quasi_at(i)],
            i + 1,
            Seq::empty(),
        );
    }
}

proof fn same_tpl_rest(
    toks: Seq<Tok>,
    start: BytePos,
    es: Seq<Tree>,
    qs: Seq<Tree>,
    i: int,
    errs: Seq<Error>,
)
    requires
        0 <= i,
        worded(toks),
    ensures
        ({
            let o = off(toks).tpl_rest(start, es, qs, i, errs);
            o.res is Ok && no_enum(o.tree()) ==> {
                &&& on(toks).tpl_rest(start, es, qs, i, errs) == o
                &&& no_enum(list(es))
            }
        }),
    decreases off(toks).rem(i), 17nat,
{
    let g = off(toks);
    let z = on(toks);
    g.lemma_tpl_rest(start, es, qs, i, errs);
    z.lemma_tpl_rest(start, es, qs, i, errs);
    same_expr(toks, i);
    sound_expr(g, i);
    let e = g.expr(i);
    if g.ok(i, e) {
        let o = g.tpl_rest(start, es, qs, i, errs);
        let es2 = es.push(e.tree());
        let qs2 = qs.push(g.quasi_at(e.next));
        if g.kind(e.next) == Token::TemplateTail {
            if o.res is Ok && no_enum(o.tree()) {
                ne2(o.tree(), list(es2), list(qs2));
                ne_push(es, e.tree());
            }
        } else if g.kind(e.next) == Token::TemplateMiddle {
            same_tpl_rest(toks, start, es2, qs2, e.next + 1, errs + e.errs);
            if o.res is Ok && no_enum(o.tree()) {
                ne_push(es, e.tree());
            }
        }
    }
}

proof fn same_paren(toks: Seq<Tok>, i: int)
    requires
        0 <= i,
        worded(toks),
    ensures
        kept(toks, i, off(toks).paren(i), on(toks).paren(i)),
    decreases off(toks).rem(i), 1nat,
{
    reveal(Gram::paren);
    reveal(Gram::expr);
    let g = off(toks);
    let z = on(toks);
    sound_paren(g, i);
    if g.kind(i) == Token::LParen {
        same_expr(toks, i + 1);
        let o = g.paren(i);
        if o.res is Ok && no_enum(o.tree()) {
            ne1(o.tree(), g.expr(i + 1).tree());
        }
    }
}

proof fn same_array(toks: Seq<Tok>, i: int)
    requires
        0 <= i,
        worded(toks),
    ensures
        kept(toks, i, off(toks).array(i), on(toks).array(i)),
    decreases off(toks).rem(i), 1nat,
{
    reveal(Gram::array);
    reveal(Gram::comma_list);
    let g = off(toks);
    let z = on(toks);
    sound_array(g, i);
    if g.kind(i) == Token::LBracket {
        same_comma_list(toks, ListKind::Elems, i + 1);
        sound_comma_list(g, ListKind::Elems, i + 1);
        let l = g.comma_list(ListKind::Elems, i + 1);
        let o = g.array(i);
        if o.res is Ok && no_enum(o.tree()) {
            ne_list(o.tree(), l.tree());
        }
    }
}

proof fn same_object(toks: Seq<Tok>, i: int)
    requires
        0 <= i,
        worded(toks),
    ensures
        kept(toks, i, off(toks).object(i), on(toks).object(i)),
    decreases off(toks).rem(i), 1nat,
{
    reveal(Gram::object);
    reveal(Gram::comma_list);
    let g = off(toks);
    let z = on(toks);
    sound_object(g, i);
    if g.kind(i) == Token::LBrace {
        same_comma_list(toks, ListKind::Props, i + 1);
        sound_comma_list(g, ListKind::Props, i + 1);
        let l = g.comma_list(ListKind::Props, i + 1);
        let o = g.object(i);
        if o.res is Ok && no_enum(o.tree()) {
            ne_list(o.tree(), l.tree());
        }
    }
}

proof fn same_prop(toks: Seq<Tok>, i: int)
    requires
        0 <= i,
        worded(toks),
    ensures
        held(toks, i, off(toks).prop(i), on(toks).prop(i)),
    decreases off(toks).rem(i), 1nat,
{
    reveal(Gram::prop);
    reveal(Gram::assign);
    let g = off(toks);
    let z = on(toks);
    sound_prop(g, i);
    if !(g.kind(i).is_ident_like() && g.kind(i + 1) != Token::Colon) {
        let n = g.prop_name(i);
        if g.ok(i, n) && g.kind(n.next) == Token::Colon {
            same_assign(toks, n.next + 1);
            let o = g.prop(i);
            if o.res is Ok && no_enum(o.tree()) {
                ne2(o.tree(), n.tree(), g.assign(n.next + 1).tree());
            }
        }
    }
}

proof fn same_block(toks: Seq<Tok>, i: int)
    requires
        0 <= i,
        worded(toks),
    ensures
        kept(toks, i, off(toks).block(i), on(toks).block(i)),
    decreases off(toks).rem(i), 1nat,
{
    reveal(Gram::block);
    reveal(Gram::stmts);
    let g = off(toks);
    let z = on(toks);
    sound_block(g, i);
    if g.kind(i) == Token::LBrace {
        same_stmts(toks, i + 1);
        let o = g.block(i);
        if o.res is Ok && no_enum(o.tree()) {
            ne1(o.tree(), g.stmts(i + 1).tree());
        }
    }
}

proof fn same_stmts(toks: Seq<Tok>, i: int)
    requires
        0 <= i,
        worded(toks),
        i <= toks.len(),
    ensures
        kept_list(toks, i, off(toks).stmts(i), on(toks).stmts(i)),
    decreases off(toks).rem(i), 25nat,
{
    reveal(Gram::stmts);
    reveal(Gram::stmt);
    let g = off(toks);
    let z = on(toks);
    sound_stmts(g, i);
    if !(g.kind(i) == Token::RBrace || g.kind(i) == Token::Eof) {
        same_stmt(toks, i, true);
        let s = g.stmt(i, true);
        if g.ok(i, s) {
            same_stmts(toks, s.next);
            sound_stmts(g, s.next);
            let o = g.stmts(i);
            if o.res is Ok && no_enum(o.tree()) {
                ne_front(o.tree(), s.tree(), g.stmts(s.next).tree());
            }
        }
    }
}

proof fn same_stmt(toks: Seq<Tok>, i: int, top: bool)
    requires
        0 <= i,
        worded(toks),
    ensures
        kept(toks, i, off(toks).stmt(i, top), on(toks).stmt(i, top)),
    decreases off(toks).rem(i), 21nat,
{
    reveal(Gram::stmt);
    reveal(Gram::any_enum);
    reveal(Gram::block);
    reveal(Gram::expr_stmt);
    reveal(Gram::for_stmt);
    reveal(Gram::if_stmt);
    reveal(Gram::var_stmt);
    reveal(Gram::while_stmt);
    let g = off(toks);
    let z = on(toks);
    sound_stmt(g, i, top);
    let k = g.kind(i);
    if k == Token::LBrace {
        same_block(toks, i);
    } else if k == Token::If {
        same_if_stmt(toks, i);
    } else if k == Token::While {
        same_while_stmt(toks, i);
    } else if k == Token::For {
        same_for_stmt(toks, i);
    } else if k == Token::Enum || k == Token::Const || k == Token::Let {
        if top {
            if k == Token::Enum {
                lemma_enum(toks, i + 1, g.lo(i), false, false);
            } else if k == Token::Const && g.kind(i + 1) == Token::Enum {
                lemma_enum(toks, i + 2, g.lo(i), true, false);
            } else {
                same_var_stmt(toks, i);
            }
        }
    } else if k == Token::Var {
        same_var_stmt(toks, i);
    } else if k != Token::Semi {
        same_expr_stmt(toks, i, top);
    }
}

proof fn same_head(toks: Seq<Tok>, i: int)
    requires
        0 <= i,
        worded(toks),
    ensures
        kept(toks, i, off(toks).head(i), on(toks).head(i)),
    decreases off(toks).rem(i), 1nat,
{
    reveal(Gram::head);
    reveal(Gram::expr);
    let g = off(toks);
    let z = on(toks);
    sound_head(g, i);
    if g.kind(i) == Token::LParen {
        same_expr(toks, i + 1);
    }
}

proof fn same_if_stmt(toks: Seq<Tok>, i: int)
    requires
        0 <= i,
        worded(toks),
    ensures
        kept(toks, i, off(toks).if_stmt(i), on(toks).if_stmt(i)),
    decreases off(toks).rem(i), 1nat,
{
    reveal(Gram::if_stmt);
    reveal(Gram::head);
    reveal(Gram::expr);
    reveal(Gram::stmt);
    let g = off(toks);
    let z = on(toks);
    sound_if_stmt(g, i);
    let o = g.if_stmt(i);
    if g.kind(i) == Token::If {
        same_head(toks, i + 1);
        let t = g.head(i + 1);
        if g.ok(i + 1, t) {
            same_stmt(toks, t.next, false);
            let c = g.stmt(t.next, false);
            if g.ok(t.next, c) {
                if g.kind(c.next) != Token::Else {
                    if o.res is Ok && no_enum(o.tree()) {
                        ne3(o.tree(), t.tree(), c.tree(), absent());
                    }
                } else {
                    same_stmt(toks, c.next + 1, false);
                    if o.res is Ok && no_enum(o.tree()) {
                        ne3(o.tree(), t.tree(), c.tree(), g.stmt(c.next + 1, false).tree());
                    }
                }
            }
        }
    }
}

proof fn same_while_stmt(toks: Seq<Tok>, i: int)
    requires
        0 <= i,
        worded(toks),
    ensures
        kept(toks, i, off(toks).while_stmt(i), on(toks).while_stmt(i)),
    decreases off(toks).rem(i), 1nat,
{
    reveal(Gram::while_stmt);
    reveal(Gram::head);
    reveal(Gram::expr);
    reveal(Gram::stmt);
    let g = off(toks);
    let z = on(toks);
    sound_while_stmt(g, i);
    let o = g.while_stmt(i);
    if g.kind(i) == Token::While {
        same_head(toks, i + 1);
        let t = g.head(i + 1);
        if g.ok(i + 1, t) {
            same_stmt(toks, t.next, false);
            if o.res is Ok && no_enum(o.tree()) {
                ne2(o.tree(), t.tree(), g.stmt(t.next, false).tree());
            }
        }
    }
}

proof fn same_opt_expr(toks: Seq<Tok>, i: int, stop: Token)
    requires
        0 <= i,
        worded(toks),
        stop == Token::Semi || stop == Token::RParen,
    ensures
        kept_list(toks, i, off(toks).opt_expr(i, stop), on(toks).opt_expr(i, stop)),
    decreases off(toks).rem(i), 17nat,
{
    reveal(Gram::opt_expr);
    reveal(Gram::expr);
    let g = off(toks);
    let z = on(toks);
    sound_opt_expr(g, i, stop);
    if g.kind(i) != stop {
        same_expr(toks, i);
    }
}

proof fn same_for_init(toks: Seq<Tok>, i: int)
    requires
        0 <= i,
        worded(toks),
    ensures
        kept_list(toks, i, off(toks).for_init(i), on(toks).for_init(i)),
    decreases off(toks).rem(i), 19nat,
{
    reveal(Gram::for_init);
    reveal(Gram::opt_expr);
    reveal(Gram::var_decl);
    let g = off(toks);
    let z = on(toks);
    sound_for_init(g, i);
    if var_kind(g.kind(i)) is Some {
        same_var_decl(toks, i);
    } else {
        same_opt_expr(toks, i, Token::Semi);
    }
}

proof fn same_for_stmt(toks: Seq<Tok>, i: int)
    requires
        0 <= i,
        worded(toks),
    ensures
        kept(toks, i, off(toks).for_stmt(i), on(toks).for_stmt(i)),
    decreases off(toks).rem(i), 1nat,
{
    reveal(Gram::for_stmt);
    reveal(Gram::for_init);
    reveal(Gram::opt_expr);
    reveal(Gram::stmt);
    let g = off(toks);
    let z = on(toks);
    sound_for_stmt(g, i);
    let o = g.for_stmt(i);
    if g.kind(i) == Token::For && g.kind(i + 1) == Token::LParen {
        same_for_init(toks, i + 2);
        sound_for_init(g, i + 2);
        let n = g.for_init(i + 2);
        if n.res is Ok {
            same_opt_expr(toks, n.next + 1, Token::Semi);
            sound_opt_expr(g, n.next + 1, Token::Semi);
            let t = g.opt_expr(n.next + 1, Token::Semi);
            if t.res is Ok {
                same_opt_expr(toks, t.next + 1, Token::RParen);
                sound_opt_expr(g, t.next + 1, Token::RParen);
                let u = g.opt_expr(t.next + 1, Token::RParen);
                if u.res is Ok {
                    same_stmt(toks, u.next + 1, false);
                    if o.res is Ok && no_enum(o.tree()) {
                        ne4(
                            o.tree(),
                            n.tree(),
                            t.tree(),
                            u.tree(),
                            g.stmt(u.next + 1, false).tree(),
                        );
                    }
                }
            }
        }
    }
}

proof fn same_var_decl(toks: Seq<Tok>, i: int)
    requires
        0 <= i,
        worded(toks),
    ensures
        held(toks, i, off(toks).var_decl(i), on(toks).var_decl(i)),
    decreases off(toks).rem(i), 1nat,
{
    reveal(Gram::var_decl);
    reveal(Gram::declarators);
    let g = off(toks);
    let z = on(toks);
    sound_var_decl(g, i);
    lemma_var_kind(g.kind(i));
    if var_kind(g.kind(i)) is Some {
        same_declarators(toks, i + 1);
        sound_declarators(g, i + 1);
        let o = g.var_decl(i);
        if o.res is Ok && no_enum(o.tree()) {
            ne_list(o.tree(), g.declarators(i + 1).tree());
        }
    }
}

proof fn same_declarators(toks: Seq<Tok>, i: int)
    requires
        0 <= i,
        worded(toks),
    ensures
        held_list(toks, i, off(toks).declarators(i), on(toks).declarators(i)),
    decreases off(toks).rem(i), 11nat,
{
    reveal(Gram::declarators);
    reveal(Gram::declarator);
    let g = off(toks);
    let z = on(toks);
    sound_declarators(g, i);
    same_declarator(toks, i);
    let d = g.declarator(i);
    let o = g.declarators(i);
    if g.ok(i, d) {
        if g.kind(d.next) == Token::Comma {
            same_declarators(toks, d.next + 1);
            sound_declarators(g, d.next + 1);
            if o.res is Ok && no_enum(o.tree()) {
                ne_front(o.tree(), d.tree(), g.declarators(d.next + 1).tree());
            }
        } else if o.res is Ok && no_enum(o.tree()) {
            assert(o.tree().kids =~= seq![d.tree()] + Seq::<Tree>::empty());
            ne_front(o.tree(), d.tree(), list(Seq::empty()));
        }
    }
}

proof fn same_declarator(toks: Seq<Tok>, i: int)
    requires
        0 <= i,
        worded(toks),
    ensures
        held(toks, i, off(toks).declarator(i), on(toks).declarator(i)),
    decreases off(toks).rem(i), 9nat,
{
    reveal(Gram::declarator);
    reveal(Gram::assign);
    reveal(Gram::binding);
    let g = off(toks);
    let z = on(toks);
    sound_declarator(g, i);
    same_binding(toks, i);
    let b = g.binding(i);
    let o = g.declarator(i);
    if g.ok(i, b) {
        if g.kind(b.next) != Token::Eq {
            if o.res is Ok && no_enum(o.tree()) {
                ne2(o.tree(), b.tree(), absent());
            }
        } else {
            same_assign(toks, b.next + 1);
            if o.res is Ok && no_enum(o.tree()) {
                ne2(o.tree(), b.tree(), g.assign(b.next + 1).tree());
            }
        }
    }
}

proof fn same_var_stmt(toks: Seq<Tok>, i: int)
    requires
        0 <= i,
        worded(toks),
    ensures
        kept(toks, i, off(toks).var_stmt(i), on(toks).var_stmt(i)),
    decreases off(toks).rem(i), 3nat,
{
    reveal(Gram::var_stmt);
    reveal(Gram::var_decl);
    let g = off(toks);
    let z = on(toks);
    sound_var_stmt(g, i);
    same_var_decl(toks, i);
    let v = g.var_decl(i);
    let o = g.var_stmt(i);
    if g.ok(i, v) && o.res is Ok && no_enum(o.tree()) {
        lemma_respanned(v.tree(), o.tree());
    }
}

proof fn same_expr_stmt(toks: Seq<Tok>, i: int, top: bool)
    requires
        0 <= i,
        worded(toks),
    ensures
        kept(toks, i, off(toks).expr_stmt(i, top), on(toks).expr_stmt(i, top)),
    decreases off(toks).rem(i), 19nat,
{
    reveal(Gram::expr_stmt);
    reveal(Gram::any_enum);
    reveal(Gram::expr);
    reveal(Gram::stmt);
    let g = off(toks);
    let z = on(toks);
    sound_expr_stmt(g, i, top);
    same_expr(toks, i);
    let e = g.expr(i);
    let o = g.expr_stmt(i, top);
    if g.ok(i, e) && o.res is Ok && no_enum(o.tree()) {
        lemma_newtype_ahead(toks, e.next);
        if e.tree().label is Ident && g.kind(e.next) == Token::Colon {
            same_stmt(toks, e.next + 1, false);
            ne2(o.tree(), e.tree(), g.stmt(e.next + 1, false).tree());
        } else if top && is_ident_named(e.tree(), "declare"@) && !g.nl(e.next) && g.kind(e.next)
            == Token::Enum {
            lemma_enum(toks, e.next + 1, g.lo(i), false, true);
        } else if top && is_ident_named(e.tree(), "declare"@) && !g.nl(e.next) && g.kind(e.next)
            == Token::Const && g.kind(e.next + 1) == Token::Enum {
            lemma_enum(toks, e.next + 2, g.lo(i), true, true);
        } else if g.semi(e.next) is Some {
            ne1(o.tree(), e.tree());
        }
    }
}

pub(crate) proof fn same_items(toks: Seq<Tok>, i: int)
    requires
        0 <= i,
        worded(toks),
        i <= toks.len(),
    ensures
        kept_list(toks, i, off(toks).items(i), on(toks).items(i)),
    decreases off(toks).rem(i),
{
    reveal(Gram::items);
    let g = off(toks);
    let z = on(toks);
    sound_items(g, i);
    if !(g.kind(i) == Token::Eof) {
        same_item(toks, i);
        let s = g.item(i);
        if g.ok(i, s) {
            same_items(toks, s.next);
            sound_items(g, s.next);
            let o = g.items(i);
            if o.res is Ok && no_enum(o.tree()) {
                ne_front(o.tree(), s.tree(), g.items(s.next).tree());
            }
        }
    }
}

proof fn same_item(toks: Seq<Tok>, i: int)
    requires
        0 <= i,
        worded(toks),
    ensures
        kept(toks, i, off(toks).item(i), on(toks).item(i)),
{
    reveal(Gram::item);
    let g = off(toks);
    let z = on(toks);
    sound_item(g, i);
    if g.kind(i) == Token::Export {
        same_export(toks, i);
    } else {
        same_stmt(toks, i, true);
    }
}

proof fn same_export(toks: Seq<Tok>, i: int)
    requires
        0 <= i,
        worded(toks),
        off(toks).kind(i) == Token::Export,
    ensures
        kept(toks, i, off(toks).export(i), on(toks).export(i)),
{
    reveal(Gram::export);
    let g = off(toks);
    let z = on(toks);
    sound_export(g, i);
    let o = g.export(i);
    if g.kind(i + 1) == Token::Default {
        same_assign(toks, i + 2);
        if o.res is Ok && no_enum(o.tree()) {
            ne1(o.tree(), g.assign(i + 2).tree());
        }
    } else {
        same_export_decl(toks, i + 1);
        if o.res is Ok && no_enum(o.tree()) {
            ne1(o.tree(), g.export_decl(i + 1).tree());
        }
    }
}

proof fn same_export_decl(toks: Seq<Tok>, i: int)
    requires
        0 <= i,
        worded(toks),
    ensures
        kept(toks, i, off(toks).export_decl(i), on(toks).export_decl(i)),
{
    reveal(Gram::export_decl);
    let g = off(toks);
    let z = on(toks);
    sound_export_decl(g, i);
    let k = g.kind(i);
    lemma_newtype_ahead(toks, i);
    if k == Token::Enum {
        lemma_enum(toks, i + 1, g.lo(i), false, false);
    } else if k == Token::Const && g.kind(i + 1) == Token::Enum {
        lemma_enum(toks, i + 2, g.lo(i), true, false);
    } else if var_kind(k) is Some {
        same_var_stmt(toks, i);
    }
}

/// Where zts reads a match expression, TypeScript reads a call with a `{` behind
/// it on the same line.
proof fn same_match(toks: Seq<Tok>, i: int)
    requires
        0 <= i,
        worded(toks),
        match_ahead(toks, i),
        off(toks).primary(i) == good(off(toks).ident_at(i), i + 1),
        off(toks).ok(i, off(toks).primary(i)),
    ensures
        held(toks, i, off(toks).subscripts(i), on(toks).subscripts(i)),
    decreases off(toks).rem(i), 4nat,
{
    let g = off(toks);
    let z = on(toks);
    let start = g.lo(i);
    let a = g.primary(i);
    g.lemma_subscripts(i);
    sound_subscripts(g, i);
    sound_primary(g, i);
    g.lemma_subscripts_rest(start, a);
    lemma_header(toks, i);
    sound_call(g, start, a.tree(), i + 1);
    let s = g.subscript(start, a.tree(), i + 1);
    lemma_call(g, start, a.tree(), i + 1);
    let l = g.comma_list(ListKind::Args, i + 2);
    let b = s->0.after(a);
    if g.ok(i + 1, b) {
        same_subscripts_rest(toks, i, start, b);
        let o = g.subscripts(i);
        if o.res is Ok && no_enum(o.tree()) {
            ne2(b.tree(), a.tree(), l.tree());
            same_comma_list(toks, ListKind::Args, i + 2);
            lemma_args(z, i + 2);
        }
    }
}

} // verus!
