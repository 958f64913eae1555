//! Two texts that are alike up to a token read alike up to that token, phrase by
//! phrase: `alike_x` is about the phrase `x` of the grammar.
use crate::error::Error;
use crate::grammar::{
    arm_starter, assign_op, binary_op, is_ident_named, is_lit, right_precedence, template_start,
    unary_op, var_kind, Gram, ListKind, Out,
};
use crate::laws::shape::{all_fine, group_sound, is_sound_expr, sound, well_formed, zts_list};
use crate::laws::sound::{
    sound_any_enum, sound_arm_body, sound_arrow, sound_arrow_body, sound_arrow_params,
    sound_assign, sound_bin, sound_bin_rest, sound_bin_step, sound_binding, sound_block,
    sound_comma_list, sound_cond, sound_declarator, sound_declarators, sound_elem, sound_expr,
    sound_expr_block, sound_expr_stmt, sound_for_init, sound_head, sound_if_expr,
    sound_match_header, sound_match_pattern, sound_more_exprs, sound_more_types, sound_newtype,
    sound_opt_expr, sound_pat, sound_pat_elem, sound_pat_prop, sound_primary, sound_prop,
    sound_stmt, sound_stmts, sound_subscript, sound_subscripts_rest, sound_tpl, sound_ts_member,
    sound_ty, sound_ty_postfix, sound_ty_primary, sound_unary, sound_var_decl, sound_with_default,
};
use crate::span::BytePos;
use crate::token::Token;
use crate::tree::{kids1, node, Label, Tree};
use vstd::prelude::*;

verus! {

/// Two texts that are alike up to the token at `n`, which is a comma or a closing
/// brace in either.
pub open spec fn alike(g: Gram, h: Gram, n: int) -> bool {
    &&& g.zts == h.zts
    &&& 0 <= n < g.toks.len()
    &&& n < h.toks.len()
    &&& forall|k: int| 0 <= k < n ==> #[trigger] g.toks[k] == h.toks[k]
    &&& g.kind(n) == Token::Comma || g.kind(n) == Token::RBrace
    &&& h.kind(n) == Token::Comma || h.kind(n) == Token::RBrace
}

/// Whether a phrase that ends at `n` or before reads the same in both texts.
pub(crate) open spec fn reads_alike(n: int, a: Out, b: Out) -> bool {
    a.res is Ok && a.next <= n ==> b == a
}

/// Whether a phrase that ends before `n` reads the same in both texts.
pub(crate) open spec fn reads_before(n: int, a: Out, b: Out) -> bool {
    a.res is Ok && a.next < n ==> b == a
}

/// No phrase goes on with a comma or a closing brace.
proof fn lemma_ends(g: Gram, h: Gram, n: int)
    requires
        alike(g, h, n),
    ensures
        ends(g.kind(n)),
        ends(h.kind(n)),
{
    reveal(binary_op);
    reveal(assign_op);
    reveal(unary_op);
    reveal(var_kind);
    reveal(is_lit);
    reveal(Token::spec_is_word);
    reveal(Token::spec_is_ident_like);
}

/// Whether a token is no operator, no word and no literal.
spec fn ends(t: Token) -> bool {
    &&& binary_op(t) is None
    &&& assign_op(t) is None
    &&& unary_op(t) is None
    &&& var_kind(t) is None
    &&& !is_lit(t)
    &&& !t.is_word()
    &&& !t.is_ident_like()
}

proof fn alike_ty(g: Gram, h: Gram, i: int, n: int)
    requires
        0 <= i,
        alike(g, h, n),
    ensures
        reads_alike(n, g.ty(i), h.ty(i)),
    decreases g.rem(i), 3nat,
{
    reveal(Gram::ty);
    reveal(Gram::ty_postfix);
    reveal(Gram::more_types);
    sound_ty(g, i);
    sound_ty_postfix(g, i);
    let a = g.ty_postfix(i);
    if g.ty(i).res is Ok && g.ty(i).next <= n {
        if g.kind(a.next) == Token::Pipe {
            sound_more_types(g, a.next);
            alike_more_types(g, h, a.next, n);
        }
        alike_ty_postfix(g, h, i, n);
        lemma_alike_at(g, h, i, n);
        lemma_alike_at(g, h, a.next, n);
        lemma_alike_end(g, h, g.ty(i).next, n);
    }
}

proof fn alike_more_types(g: Gram, h: Gram, i: int, n: int)
    requires
        0 <= i <= g.toks.len(),
        alike(g, h, n),
    ensures
        reads_alike(n, g.more_types(i), h.more_types(i)),
    decreases g.rem(i), 0nat,
{
    reveal(Gram::more_types);
    reveal(Gram::ty_postfix);
    if g.more_types(i).res is Ok && g.more_types(i).next <= n {
        sound_more_types(g, i);
        lemma_alike_at(g, h, i, n);
        if g.kind(i) == Token::Pipe {
            sound_ty_postfix(g, i + 1);
            let a = g.ty_postfix(i + 1);
            sound_more_types(g, a.next);
            alike_more_types(g, h, a.next, n);
            alike_ty_postfix(g, h, i + 1, n);
        }
    }
}

proof fn alike_ty_postfix(g: Gram, h: Gram, i: int, n: int)
    requires
        0 <= i,
        alike(g, h, n),
    ensures
        reads_alike(n, g.ty_postfix(i), h.ty_postfix(i)),
    decreases g.rem(i), 2nat,
{
    reveal(Gram::ty_postfix);
    reveal(Gram::ty_primary);
    reveal(Gram::ty_suffix);
    sound_ty_primary(g, i);
    let a = g.ty_primary(i);
    if g.ok(i, a) {
        alike_ty_suffix(g, h, g.lo(i), a, n);
        alike_ty_primary(g, h, i, n);
        if g.ty_postfix(i).res is Ok && g.ty_postfix(i).next <= n {
            lemma_alike_at(g, h, i, n);
        }
    }
}

proof fn alike_ty_suffix(g: Gram, h: Gram, start: BytePos, a: Out, n: int)
    requires
        0 <= a.next,
        alike(g, h, n),
    ensures
        reads_alike(n, g.ty_suffix(start, a), h.ty_suffix(start, a)),
        g.ty_suffix(start, a).res is Ok ==> a.next <= g.ty_suffix(start, a).next,
    decreases g.rem(a.next), 0nat,
{
    reveal(Gram::ty_suffix);
    if g.kind(a.next) == Token::LBracket && !g.nl(a.next) && g.kind(a.next + 1)
        == Token::RBracket {
        let t = node(Label::TsArray, g.span(start, a.next + 2), kids1(a.tree()));
        alike_ty_suffix(g, h, start, a.grown(t, a.next + 2), n);
        if g.ty_suffix(start, a).res is Ok && g.ty_suffix(start, a).next <= n {
            lemma_alike_at(g, h, a.next, n);
            lemma_alike_at(g, h, a.next + 1, n);
            lemma_alike_end(g, h, a.next + 2, n);
        }
    } else if a.next <= n {
        lemma_alike_at(g, h, a.next, n);
    }
}

proof fn alike_ty_primary(g: Gram, h: Gram, i: int, n: int)
    requires
        0 <= i,
        alike(g, h, n),
    ensures
        reads_alike(n, g.ty_primary(i), h.ty_primary(i)),
    decreases g.rem(i), 1nat,
{
    reveal(Gram::ty_primary);
    reveal(Gram::ty);
    if g.ty_primary(i).res is Ok && g.ty_primary(i).next <= n {
        sound_ty_primary(g, i);
        lemma_alike_at(g, h, i, n);
        if g.kind(i) == Token::LParen {
            sound_ty(g, i + 1);
            alike_ty(g, h, i + 1, n);
            lemma_alike_at(g, h, g.ty(i + 1).next, n);
        }
        lemma_alike_end(g, h, g.ty_primary(i).next, n);
    }
}

/// What is the same of a token in both texts.
pub(crate) proof fn lemma_alike_at(g: Gram, h: Gram, i: int, n: int)
    requires
        alike(g, h, n),
        0 <= i <= n,
    ensures
        i < n ==> {
            &&& g.kind(i) == h.kind(i)
            &&& g.text(i) == h.text(i)
            &&& g.nl(i) == h.nl(i)
            &&& g.span_at(i) == h.span_at(i)
            &&& g.lo(i) == h.lo(i)
        },
        i == n ==> {
            &&& h.kind(i) == Token::Comma || h.kind(i) == Token::RBrace
            &&& g.kind(i) == Token::Comma || g.kind(i) == Token::RBrace
        },
{
    if i < n {
        assert(g.toks[i] == h.toks[i]);
    }
}

/// A phrase ends at the same place in both texts.
pub(crate) proof fn lemma_alike_end(g: Gram, h: Gram, i: int, n: int)
    requires
        alike(g, h, n),
        0 <= i <= n,
    ensures
        g.end(i) == h.end(i),
{
    if 0 < i {
        assert(g.toks[i - 1] == h.toks[i - 1]);
    }
}

proof fn alike_pat(g: Gram, h: Gram, i: int, n: int)
    requires
        0 <= i,
        alike(g, h, n),
    ensures
        reads_alike(n, g.pat(i), h.pat(i)),
    decreases n - i, 3nat,
{
    reveal(Gram::pat);
    reveal(Gram::object_pat);
    reveal(Token::spec_is_ident_like);
    let o = g.pat(i);
    if o.res is Ok && o.next <= n {
        sound_pat(g, i);
        if g.kind(i) == Token::LBrace {
            alike_object_pat(g, h, i, n);
        }
    }
}

proof fn alike_object_pat(g: Gram, h: Gram, i: int, n: int)
    requires
        0 <= i,
        alike(g, h, n),
    ensures
        reads_alike(n, g.object_pat(i), h.object_pat(i)),
    decreases n - i, 1nat,
{
    reveal(Gram::object_pat);
    reveal(Gram::comma_list);
    let o = g.object_pat(i);
    if o.res is Ok && o.next <= n {
        sound_comma_list(g, ListKind::PatProps, i + 1);
        alike_comma_list(g, h, ListKind::PatProps, i + 1, n);
    }
}

proof fn alike_pat_prop(g: Gram, h: Gram, i: int, n: int)
    requires
        0 <= i,
        alike(g, h, n),
    ensures
        reads_alike(n, g.pat_prop(i), h.pat_prop(i)),
    decreases n - i, 1nat,
{
    reveal(Gram::pat_prop);
    reveal(Gram::assign);
    reveal(Gram::pat);
    reveal(Gram::pat_elem);
    reveal(Token::spec_is_word);
    reveal(Token::spec_is_ident_like);
    let o = g.pat_prop(i);
    if o.res is Ok && o.next <= n {
        sound_pat_prop(g, i);
        if g.kind(i) == Token::DotDotDot {
            sound_pat(g, i + 1);
            alike_pat(g, h, i + 1, n);
        } else if g.kind(i).is_word() && g.kind(i + 1) == Token::Colon {
            sound_pat_elem(g, i + 2);
            alike_pat_elem(g, h, i + 2, n);
        } else if g.kind(i + 1) == Token::Eq {
            sound_assign(g, i + 2);
            alike_assign(g, h, i + 2, n);
        }
    }
}

proof fn alike_with_default(g: Gram, h: Gram, i: int, start: BytePos, p: Out, n: int)
    requires
        0 <= p.next,
        0 <= i,
        p.res is Ok,
        sound(g, i, p),
        alike(g, h, n),
    ensures
        reads_alike(n, g.with_default(start, p), h.with_default(start, p)),
    decreases n - p.next, 1nat,
{
    reveal(Gram::with_default);
    reveal(Gram::assign);
    let o = g.with_default(start, p);
    if o.res is Ok && o.next <= n {
        if g.kind(p.next) == Token::Eq {
            sound_assign(g, p.next + 1);
            alike_assign(g, h, p.next + 1, n);
        }
    }
}

proof fn alike_pat_elem(g: Gram, h: Gram, i: int, n: int)
    requires
        0 <= i,
        alike(g, h, n),
    ensures
        reads_alike(n, g.pat_elem(i), h.pat_elem(i)),
    decreases n - i, 5nat,
{
    reveal(Gram::pat_elem);
    reveal(Gram::pat);
    reveal(Gram::with_default);
    reveal(Gram::assign);
    let o = g.pat_elem(i);
    if o.res is Ok && o.next <= n {
        let p = g.pat(i);
        sound_pat(g, i);
        sound_with_default(g, i, g.lo(i), p);
        alike_pat(g, h, i, n);
        alike_with_default(g, h, i, g.lo(i), p, n);
    }
}

proof fn alike_param(g: Gram, h: Gram, i: int, n: int)
    requires
        0 <= i,
        alike(g, h, n),
    ensures
        reads_alike(n, g.param(i), h.param(i)),
    decreases n - i, 7nat,
{
    reveal(Gram::param);
    reveal(Gram::binding);
    reveal(Gram::with_default);
    reveal(Gram::assign);
    let o = g.param(i);
    if o.res is Ok && o.next <= n {
        let p = g.binding(i);
        sound_binding(g, i);
        sound_with_default(g, i, g.lo(i), p);
        alike_binding(g, h, i, n);
        alike_with_default(g, h, i, g.lo(i), p, n);
    }
}

proof fn alike_binding(g: Gram, h: Gram, i: int, n: int)
    requires
        0 <= i,
        alike(g, h, n),
    ensures
        reads_alike(n, g.binding(i), h.binding(i)),
    decreases n - i, 5nat,
{
    reveal(Gram::binding);
    reveal(Gram::pat);
    let o = g.binding(i);
    if o.res is Ok && o.next <= n {
        let p = g.pat(i);
        sound_pat(g, i);
        if g.kind(p.next) == Token::Colon {
            sound_ty(g, p.next + 1);
            alike_ty(g, h, p.next + 1, n);
        }
        alike_pat(g, h, i, n);
    }
}

pub(crate) proof fn alike_elem(g: Gram, h: Gram, k: ListKind, i: int, n: int)
    requires
        0 <= i,
        zts_list(k) ==> g.zts,
        alike(g, h, n),
    ensures
        reads_alike(n, g.elem(k, i), h.elem(k, i)),
    decreases n - i, 17nat,
{
    g.lemma_elem(k, i);
    h.lemma_elem(k, i);
    let o = g.elem(k, i);
    if o.res is Ok && o.next <= n {
        sound_elem(g, k, i);
        match k {
            ListKind::Args | ListKind::Elems => alike_assign(g, h, i, n),
            ListKind::Props => alike_prop(g, h, i, n),
            ListKind::Params => alike_param(g, h, i, n),
            ListKind::PatProps => alike_pat_prop(g, h, i, n),
            ListKind::Arms => alike_arm(g, h, i, n),
            ListKind::Variants => alike_variant(g, h, i, n),
            ListKind::Fields => alike_field(g, h, i, n),
            ListKind::TsMembers => alike_ts_member(g, h, i, n),
        }
    }
}

proof fn alike_comma_list(g: Gram, h: Gram, k: ListKind, i: int, n: int)
    requires
        0 <= i,
        zts_list(k) ==> g.zts,
        alike(g, h, n),
    ensures
        reads_before(n, g.comma_list(k, i), h.comma_list(k, i)),
    decreases n - i, 19nat,
{
    reveal(Gram::comma_list);
    reveal(Gram::elem);
    let o = g.comma_list(k, i);
    if o.res is Ok && o.next < n {
        sound_comma_list(g, k, i);
        if g.kind(i) != k.close() {
            let e = g.elem(k, i);
            sound_elem(g, k, i);
            if g.kind(e.next) == Token::Comma {
                sound_comma_list(g, k, e.next + 1);
                alike_comma_list(g, h, k, e.next + 1, n);
            }
            alike_elem(g, h, k, i, n);
        }
    }
}

proof fn alike_expr(g: Gram, h: Gram, i: int, n: int)
    requires
        0 <= i,
        alike(g, h, n),
    ensures
        reads_before(n, g.expr(i), h.expr(i)),
    decreases n - i, 15nat,
{
    g.lemma_expr(i);
    h.lemma_expr(i);
    let o = g.expr(i);
    if o.res is Ok && o.next < n {
        let a = g.assign(i);
        sound_assign(g, i);
        if g.kind(a.next) == Token::Comma {
            sound_more_exprs(g, a.next);
            alike_more_exprs(g, h, a.next, n);
        }
        alike_assign(g, h, i, n);
    }
}

proof fn alike_more_exprs(g: Gram, h: Gram, i: int, n: int)
    requires
        0 <= i,
        i <= g.toks.len(),
        alike(g, h, n),
    ensures
        reads_before(n, g.more_exprs(i), h.more_exprs(i)),
    decreases n - i, 1nat,
{
    g.lemma_more_exprs(i);
    h.lemma_more_exprs(i);
    let o = g.more_exprs(i);
    if o.res is Ok && o.next < n {
        if g.kind(i) == Token::Comma {
            let a = g.assign(i + 1);
            sound_assign(g, i + 1);
            sound_more_exprs(g, a.next);
            alike_more_exprs(g, h, a.next, n);
            alike_assign(g, h, i + 1, n);
        }
    }
}

/// The bracket that closes a parenthesis is the same in both texts, where it
/// stands before `n`.
proof fn alike_after_close(g: Gram, h: Gram, i: int, depth: int, n: int)
    requires
        0 <= i,
        alike(g, h, n),
        g.after_close(i, depth) <= n,
    ensures
        i <= g.after_close(i, depth),
        h.after_close(i, depth) == g.after_close(i, depth),
    decreases g.rem(i),
{
    lemma_after_close(g, i, depth);
    if g.kind(i) == Token::LParen {
        alike_after_close(g, h, i + 1, depth + 1, n);
    } else if g.kind(i) == Token::RParen {
        if depth > 1 {
            alike_after_close(g, h, i + 1, depth - 1, n);
        }
    } else if g.kind(i) != Token::Eof {
        alike_after_close(g, h, i + 1, depth, n);
    }
}

proof fn lemma_after_close(g: Gram, i: int, depth: int)
    ensures
        i <= g.after_close(i, depth),
        g.kind(i) != Token::Eof ==> i < g.after_close(i, depth),
    decreases g.rem(i),
{
    if g.kind(i) != Token::Eof {
        lemma_after_close(g, i + 1, depth + 1);
        lemma_after_close(g, i + 1, depth - 1);
        lemma_after_close(g, i + 1, depth);
    }
}

/// A parenthesis is closed behind what it holds.
pub(crate) proof fn lemma_closed(g: Gram, i: int, j: int)
    requires
        0 <= i <= j,
        all_fine(g, i, j),
        g.kind(j) == Token::RParen,
    ensures
        g.after_close(i, 1) == j + 1,
{
    reveal(all_fine);
    assert(g.after_close(i, 1) == g.after_close(j, 1));
}

/// An expression that starts with a parenthesis holds the one that closes it.
proof fn lemma_paren_closed(g: Gram, i: int)
    requires
        0 <= i,
        g.kind(i) == Token::LParen,
        g.cond(i).res is Ok,
    ensures
        g.after_close(i + 1, 1) <= g.cond(i).next,
{
    sound_cond(g, i);
    sound_bin(g, i, 0);
    sound_unary(g, i);
    sound_primary(g, i);
    assert(g.bin(i, 0).res is Ok && g.bin(i, 0).next <= g.cond(i).next) by {
        reveal(Gram::cond);
        reveal(Gram::assign);
        reveal(Gram::bin);
        let t = g.bin(i, 0);
        if g.kind(t.next) == Token::Question {
            sound_assign(g, t.next + 1);
            let c = g.assign(t.next + 1);
            sound_assign(g, c.next + 1);
        }
    }
    g.lemma_bin(i, 0);
    sound_bin_rest(g, i, g.lo(i), g.unary(i), 0);
    assert(g.unary(i) == g.subscripts(i)) by {
        reveal(Gram::unary);
        reveal(Gram::subscripts);
        reveal(Gram::prefix_op);
        reveal(Gram::not_operator);
        reveal(Token::spec_is_word);
        reveal(unary_op);
    }
    g.lemma_subscripts(i);
    sound_subscripts_rest(g, i, g.lo(i), g.primary(i));
    g.lemma_primary(i);
    assert(g.primary(i) == g.paren(i)) by {
        reveal(Gram::match_keyword);
        reveal(Token::spec_is_ident_like);
        reveal(Token::spec_is_word);
        reveal(is_lit);
    }
    reveal(Gram::paren);
    reveal(Gram::expr);
    sound_expr(g, i + 1);
    lemma_closed(g, i + 1, g.expr(i + 1).next);
}

/// An arrow function that starts with a parenthesis holds the one that closes it.
proof fn lemma_arrow_closed(g: Gram, i: int)
    requires
        0 <= i,
        g.kind(i) == Token::LParen,
        g.arrow_ahead(i),
        g.arrow(i).res is Ok,
    ensures
        g.after_close(i + 1, 1) <= g.arrow(i).next,
{
    reveal(Gram::arrow);
    reveal(Gram::arrow_params);
    reveal(Gram::arrow_body);
    reveal(Gram::comma_list);
    let p = g.arrow_params(i);
    sound_arrow_params(g, i);
    sound_arrow_body(g, p.next + 1);
    sound_comma_list(g, ListKind::Params, i + 1);
    lemma_closed(g, i + 1, g.comma_list(ListKind::Params, i + 1).next);
}

proof fn alike_arrow_ahead(g: Gram, h: Gram, i: int, n: int)
    requires
        0 <= i < n,
        alike(g, h, n),
        g.kind(i) == Token::LParen ==> g.after_close(i + 1, 1) <= n,
    ensures
        g.arrow_ahead(i) == h.arrow_ahead(i),
{
    reveal(Gram::arrow_ahead);
    if g.kind(i) == Token::LParen {
        alike_after_close(g, h, i + 1, 1, n);
    }
}

proof fn alike_assign(g: Gram, h: Gram, i: int, n: int)
    requires
        0 <= i,
        alike(g, h, n),
    ensures
        reads_alike(n, g.assign(i), h.assign(i)),
    decreases n - i, 13nat,
{
    reveal(Gram::assign);
    reveal(Gram::arrow);
    reveal(Gram::cond);
    reveal(assign_op);
    lemma_ends(g, h, n);
    let o = g.assign(i);
    if o.res is Ok && o.next <= n {
        sound_assign(g, i);
        if g.arrow_ahead(i) {
            sound_arrow(g, i);
            if g.kind(i) == Token::LParen {
                lemma_arrow_closed(g, i);
            }
            alike_arrow(g, h, i, n);
        } else {
            let a = g.cond(i);
            sound_cond(g, i);
            if assign_op(g.kind(a.next)) is Some {
                sound_assign(g, a.next + 1);
                alike_assign(g, h, a.next + 1, n);
            }
            if g.kind(i) == Token::LParen {
                lemma_paren_closed(g, i);
            }
            alike_cond(g, h, i, n);
        }
        alike_arrow_ahead(g, h, i, n);
    }
}

proof fn alike_arrow_params(g: Gram, h: Gram, i: int, n: int)
    requires
        0 <= i,
        g.arrow_ahead(i),
        alike(g, h, n),
    ensures
        reads_alike(n, g.arrow_params(i), h.arrow_params(i)),
    decreases n - i, 1nat,
{
    reveal(Gram::arrow_params);
    reveal(Gram::comma_list);
    reveal(Gram::arrow_ahead);
    reveal(Token::spec_is_ident_like);
    let o = g.arrow_params(i);
    if o.res is Ok && o.next <= n {
        if g.kind(i) == Token::LParen {
            sound_comma_list(g, ListKind::Params, i + 1);
            alike_comma_list(g, h, ListKind::Params, i + 1, n);
        }
    }
}

proof fn alike_arrow(g: Gram, h: Gram, i: int, n: int)
    requires
        0 <= i,
        g.arrow_ahead(i),
        alike(g, h, n),
    ensures
        reads_alike(n, g.arrow(i), h.arrow(i)),
    decreases n - i, 11nat,
{
    reveal(Gram::arrow);
    reveal(Gram::arrow_body);
    reveal(Gram::assign);
    reveal(Gram::block);
    reveal(Gram::arrow_params);
    reveal(Gram::comma_list);
    let o = g.arrow(i);
    if o.res is Ok && o.next <= n {
        let p = g.arrow_params(i);
        sound_arrow_params(g, i);
        sound_arrow_body(g, p.next + 1);
        alike_arrow_params(g, h, i, n);
        alike_arrow_body(g, h, p.next + 1, n);
    }
}

proof fn alike_arrow_body(g: Gram, h: Gram, i: int, n: int)
    requires
        0 <= i,
        alike(g, h, n),
    ensures
        reads_alike(n, g.arrow_body(i), h.arrow_body(i)),
    decreases n - i, 15nat,
{
    reveal(Gram::arrow_body);
    reveal(Gram::assign);
    reveal(Gram::block);
    let o = g.arrow_body(i);
    if o.res is Ok && o.next <= n {
        sound_arrow_body(g, i);
        if g.kind(i) == Token::LBrace {
            alike_block(g, h, i, n);
        } else {
            alike_assign(g, h, i, n);
        }
    }
}

proof fn alike_cond(g: Gram, h: Gram, i: int, n: int)
    requires
        0 <= i,
        alike(g, h, n),
    ensures
        reads_alike(n, g.cond(i), h.cond(i)),
    decreases n - i, 11nat,
{
    reveal(Gram::cond);
    reveal(Gram::assign);
    reveal(Gram::bin);
    let o = g.cond(i);
    if o.res is Ok && o.next <= n {
        let t = g.bin(i, 0);
        sound_bin(g, i, 0);
        if g.kind(t.next) == Token::Question {
            let c = g.assign(t.next + 1);
            sound_assign(g, t.next + 1);
            sound_assign(g, c.next + 1);
            alike_assign(g, h, c.next + 1, n);
            alike_assign(g, h, t.next + 1, n);
        }
        alike_bin(g, h, i, 0, n);
    }
}

proof fn alike_bin(g: Gram, h: Gram, i: int, min: int, n: int)
    requires
        0 <= i,
        alike(g, h, n),
    ensures
        reads_alike(n, g.bin(i, min), h.bin(i, min)),
    decreases n - i, 9nat,
{
    g.lemma_bin(i, min);
    h.lemma_bin(i, min);
    let o = g.bin(i, min);
    if o.res is Ok && o.next <= n {
        let a = g.unary(i);
        sound_unary(g, i);
        sound_bin_rest(g, i, g.lo(i), a, min);
        alike_unary(g, h, i, n);
        alike_bin_rest(g, h, i, g.lo(i), a, min, n);
    }
}

proof fn alike_bin_rest(g: Gram, h: Gram, i: int, start: BytePos, a: Out, min: int, n: int)
    requires
        0 <= a.next,
        0 <= i,
        a.res is Ok,
        is_sound_expr(g, i, a),
        alike(g, h, n),
    ensures
        reads_alike(n, g.bin_rest(start, a, min), h.bin_rest(start, a, min)),
    decreases n - a.next, 3nat,
{
    g.lemma_bin_rest(start, a, min);
    h.lemma_bin_rest(start, a, min);
    broadcast use group_sound;
    let o = g.bin_rest(start, a, min);
    if o.res is Ok && o.next <= n {
        sound_bin_rest(g, i, start, a, min);
        sound_bin_step(g, start, a.tree(), a.next, min);
        if let Some(s) = g.bin_step(start, a.tree(), a.next, min) {
            let b = s.after(a);
            sound_bin_rest(g, i, start, b, min);
            alike_bin_rest(g, h, i, start, b, min, n);
        }
        alike_bin_step(g, h, start, a.tree(), a.next, min, n);
    }
}

proof fn alike_bin_step(g: Gram, h: Gram, start: BytePos, t: Tree, i: int, min: int, n: int)
    requires
        0 <= i,
        well_formed(t, g.zts),
        alike(g, h, n),
        i <= n,
    ensures
        match g.bin_step(start, t, i, min) {
            Some(s) => s.res is Ok && s.next <= n ==> h.bin_step(start, t, i, min) == Some(s),
            None => h.bin_step(start, t, i, min) is None,
        },
    decreases n - i, 1nat,
{
    reveal(Gram::bin_step);
    reveal(Gram::bin);
    reveal(binary_op);
    lemma_ends(g, h, n);
    sound_bin_step(g, start, t, i, min);
    if let Some(s) = g.bin_step(start, t, i, min) {
        if s.res is Ok && s.next <= n {
            let k = g.kind(i);
            if (k == Token::As || k == Token::Satisfies) && !g.nl(i) && min < 7 {
                sound_ty(g, i + 1);
                alike_ty(g, h, i + 1, n);
            } else if let Some(op) = binary_op(k) {
                sound_bin(g, i + 1, right_precedence(op));
                alike_bin(g, h, i + 1, right_precedence(op), n);
            }
        }
    }
}

proof fn alike_unary(g: Gram, h: Gram, i: int, n: int)
    requires
        0 <= i,
        alike(g, h, n),
    ensures
        reads_alike(n, g.unary(i), h.unary(i)),
    decreases n - i, 7nat,
{
    reveal(Gram::unary);
    reveal(Gram::subscripts);
    reveal(Gram::prefix_op);
    reveal(Gram::not_operator);
    reveal(Token::spec_is_word);
    reveal(unary_op);
    lemma_ends(g, h, n);
    let o = g.unary(i);
    if o.res is Ok && o.next <= n {
        sound_unary(g, i);
        match g.prefix_op(i) {
            None => alike_subscripts(g, h, i, n),
            Some(op) => {
                sound_unary(g, i + 1);
                alike_unary(g, h, i + 1, n);
            },
        }
    }
}

/// The parenthesis behind the word at an index is closed in an `if` expression.
proof fn lemma_if_closed(g: Gram, i: int, start: BytePos)
    requires
        0 <= i,
        g.zts,
        g.if_expr(i, start).res is Ok,
    ensures
        g.after_close(i + 2, 1) <= g.if_expr(i, start).next,
{
    reveal(Gram::if_expr);
    reveal(Gram::expr);
    reveal(Gram::expr_block);
    let d = g.expr(i + 2);
    sound_expr(g, i + 2);
    lemma_closed(g, i + 2, d.next);
    let c = g.expr_block(d.next + 1);
    sound_expr_block(g, d.next + 1);
    sound_expr_block(g, c.next + 1);
    sound_if_expr(g, c.next + 1, g.lo(c.next + 1));
}

/// The parenthesis behind the word `match` is closed in the header.
pub(crate) proof fn lemma_header_closed(g: Gram, i: int)
    requires
        0 <= i,
    ensures
        g.match_header(i) matches Some(d) ==> g.after_close(i + 2, 1) == d.next,
{
    reveal(Gram::match_header);
    reveal(Gram::expr);
    if g.match_header(i) is Some {
        sound_expr(g, i + 2);
        lemma_closed(g, i + 2, g.expr(i + 2).next);
    }
}

/// The parenthesis of a call is closed in the call.
proof fn lemma_call_closed(g: Gram, start: BytePos, t: Tree, i: int)
    requires
        0 <= i,
        g.kind(i) == Token::LParen,
    ensures
        g.subscript(start, t, i) matches Some(s) && (s.res is Ok ==> g.after_close(i + 1, 1)
            == s.next),
{
    reveal(Gram::subscript);
    reveal(Gram::comma_list);
    let l = g.comma_list(ListKind::Args, i + 1);
    sound_comma_list(g, ListKind::Args, i + 1);
    if l.res is Ok && g.kind(l.next) == Token::RParen {
        lemma_closed(g, i + 1, l.next);
    }
}

/// The parenthesis behind the word `match` is closed in the expression that
/// starts with the word.
proof fn lemma_match_closed(g: Gram, i: int)
    requires
        0 <= i,
        g.match_keyword(i),
        g.subscripts(i).res is Ok,
    ensures
        g.after_close(i + 2, 1) <= g.subscripts(i).next,
{
    broadcast use group_sound;

    reveal(Gram::match_keyword);
    reveal(Token::spec_is_word);
    let a = g.primary(i);
    g.lemma_primary(i);
    g.lemma_subscripts(i);
    sound_primary(g, i);
    sound_subscripts_rest(g, i, g.lo(i), a);
    sound_match_header(g, i);
    if g.kind(i) == Token::If {
        lemma_if_closed(g, i, g.lo(i));
    } else if let Some(d) = g.match_header(i) {
        lemma_header_closed(g, i);
        lemma_match_end(g, g.lo(i), d);
    } else {
        g.lemma_subscripts_rest(g.lo(i), a);
        sound_subscript(g, g.lo(i), a.tree(), i + 1);
        lemma_call_closed(g, g.lo(i), a.tree(), i + 1);
        let s = g.subscript(g.lo(i), a.tree(), i + 1)->0;
        sound_subscripts_rest(g, i, g.lo(i), s.after(a));
    }
}

/// A match expression ends behind its header.
pub(crate) proof fn lemma_match_end(g: Gram, start: BytePos, d: Out)
    requires
        0 <= d.next,
        g.zts,
        g.match_body(start, d).res is Ok,
    ensures
        d.next < g.match_body(start, d).next,
{
    reveal(Gram::match_body);
    reveal(Gram::comma_list);
    sound_comma_list(g, ListKind::Arms, d.next + 1);
}

proof fn alike_subscripts(g: Gram, h: Gram, i: int, n: int)
    requires
        0 <= i,
        alike(g, h, n),
    ensures
        reads_alike(n, g.subscripts(i), h.subscripts(i)),
    decreases n - i, 5nat,
{
    g.lemma_subscripts(i);
    h.lemma_subscripts(i);
    let o = g.subscripts(i);
    if o.res is Ok && o.next <= n {
        let a = g.primary(i);
        sound_primary(g, i);
        sound_subscripts_rest(g, i, g.lo(i), a);
        if g.match_keyword(i) {
            lemma_match_closed(g, i);
        }
        alike_primary(g, h, i, n);
        alike_subscripts_rest(g, h, i, g.lo(i), a, n);
    }
}

proof fn alike_subscripts_rest(g: Gram, h: Gram, i: int, start: BytePos, a: Out, n: int)
    requires
        0 <= a.next,
        0 <= i,
        a.res is Ok,
        is_sound_expr(g, i, a),
        alike(g, h, n),
    ensures
        reads_alike(n, g.subscripts_rest(start, a), h.subscripts_rest(start, a)),
    decreases n - a.next, 5nat,
{
    g.lemma_subscripts_rest(start, a);
    h.lemma_subscripts_rest(start, a);
    broadcast use group_sound;
    let o = g.subscripts_rest(start, a);
    if o.res is Ok && o.next <= n {
        sound_subscripts_rest(g, i, start, a);
        sound_subscript(g, start, a.tree(), a.next);
        if let Some(s) = g.subscript(start, a.tree(), a.next) {
            let b = s.after(a);
            sound_subscripts_rest(g, i, start, b);
            alike_subscripts_rest(g, h, i, start, b, n);
        }
        alike_subscript(g, h, start, a.tree(), a.next, n);
    }
}

proof fn alike_subscript(g: Gram, h: Gram, start: BytePos, t: Tree, i: int, n: int)
    requires
        0 <= i,
        well_formed(t, g.zts),
        alike(g, h, n),
        i <= n,
    ensures
        match g.subscript(start, t, i) {
            Some(s) => s.res is Ok && s.next <= n ==> h.subscript(start, t, i) == Some(s),
            None => h.subscript(start, t, i) is None,
        },
    decreases n - i, 3nat,
{
    reveal(Gram::subscript);
    reveal(Gram::expr);
    reveal(Gram::comma_list);
    reveal(Gram::tpl);
    lemma_ends(g, h, n);
    sound_subscript(g, start, t, i);
    if let Some(s) = g.subscript(start, t, i) {
        if s.res is Ok && s.next <= n {
            if g.kind(i) == Token::LBracket {
                sound_expr(g, i + 1);
                alike_expr(g, h, i + 1, n);
            } else if g.kind(i) == Token::LParen {
                sound_comma_list(g, ListKind::Args, i + 1);
                alike_comma_list(g, h, ListKind::Args, i + 1, n);
            } else if template_start(g.kind(i)) {
                sound_tpl(g, i);
                alike_tpl(g, h, i, n);
            }
        }
    }
}

proof fn alike_primary(g: Gram, h: Gram, i: int, n: int)
    requires
        0 <= i,
        alike(g, h, n),
        g.match_keyword(i) ==> g.after_close(i + 2, 1) <= n,
    ensures
        reads_alike(n, g.primary(i), h.primary(i)),
    decreases n - i, 3nat,
{
    g.lemma_primary(i);
    h.lemma_primary(i);
    reveal(Gram::match_keyword);
    lemma_ends(g, h, n);
    let o = g.primary(i);
    if o.res is Ok && o.next <= n {
        let k = g.kind(i);
        sound_primary(g, i);
        if g.zts && k == Token::If {
            alike_if_expr(g, h, i, g.lo(i), n);
        } else if g.match_keyword(i) {
            reveal(Token::spec_is_word);
            alike_after_close(g, h, i + 2, 1, n);
            alike_match_header(g, h, i, n);
            alike_match_header(h, g, i, n);
            if g.match_header(i) is Some {
                sound_match_header(g, i);
                lemma_match_end(g, g.lo(i), g.match_header(i)->0);
                alike_match_body(g, h, i, g.lo(i), g.match_header(i)->0, n);
            }
        } else if k == Token::LParen {
            alike_paren(g, h, i, n);
        } else if k == Token::LBracket {
            alike_array(g, h, i, n);
        } else if k == Token::LBrace {
            alike_object(g, h, i, n);
        } else if template_start(k) {
            alike_tpl(g, h, i, n);
        }
    }
}

proof fn alike_tpl(g: Gram, h: Gram, i: int, n: int)
    requires
        0 <= i,
        alike(g, h, n),
    ensures
        reads_alike(n, g.tpl(i), h.tpl(i)),
    decreases n - i, 1nat,
{
    g.lemma_tpl(i);
    h.lemma_tpl(i);
    let o = g.tpl(i);
    if o.res is Ok && o.next <= n {
        if g.kind(i) == Token::TemplateHead {
            let qs = seq![g.quasi_at(i)];
            lemma_tpl_rest_end(g, g.lo(i), Seq::empty(), qs, i + 1, Seq::empty());
            alike_tpl_rest(g, h, g.lo(i), Seq::empty(), qs, i + 1, Seq::empty(), n);
        }
    }
}

proof fn lemma_tpl_rest_end(
    g: Gram,
    start: BytePos,
    es: Seq<Tree>,
    qs: Seq<Tree>,
    i: int,
    errs: Seq<Error>,
)
    requires
        0 <= i,
    ensures
        ({
            let o = g.tpl_rest(start, es, qs, i, errs);
            o.res is Ok ==> i < o.next
        }),
    decreases g.rem(i),
{
    g.lemma_tpl_rest(start, es, qs, i, errs);
    sound_expr(g, i);
    let e = g.expr(i);
    if g.ok(i, e) && g.kind(e.next) == Token::TemplateMiddle {
        lemma_tpl_rest_end(
            g,
            start,
            es.push(e.tree()),
            qs.push(g.quasi_at(e.next)),
            e.next + 1,
            errs + e.errs,
        );
    }
}

proof fn alike_tpl_rest(
    g: Gram,
    h: Gram,
    start: BytePos,
    es: Seq<Tree>,
    qs: Seq<Tree>,
    i: int,
    errs: Seq<Error>,
    n: int,
)
    requires
        0 <= i,
        alike(g, h, n),
    ensures
        reads_alike(n, g.tpl_rest(start, es, qs, i, errs), h.tpl_rest(start, es, qs, i, errs)),
    decreases n - i, 17nat,
{
    g.lemma_tpl_rest(start, es, qs, i, errs);
    h.lemma_tpl_rest(start, es, qs, i, errs);
    let o = g.tpl_rest(start, es, qs, i, errs);
    if o.res is Ok && o.next <= n {
        sound_expr(g, i);
        let e = g.expr(i);
        if g.kind(e.next) == Token::TemplateMiddle {
            let es2 = es.push(e.tree());
            let qs2 = qs.push(g.quasi_at(e.next));
            lemma_tpl_rest_end(g, start, es2, qs2, e.next + 1, errs + e.errs);
            alike_tpl_rest(g, h, start, es2, qs2, e.next + 1, errs + e.errs, n);
        }
        alike_expr(g, h, i, n);
        assert(g.quasi_at(e.next) == h.quasi_at(e.next));
    }
}

proof fn alike_paren(g: Gram, h: Gram, i: int, n: int)
    requires
        0 <= i,
        alike(g, h, n),
    ensures
        reads_alike(n, g.paren(i), h.paren(i)),
    decreases n - i, 1nat,
{
    reveal(Gram::paren);
    reveal(Gram::expr);
    let o = g.paren(i);
    if o.res is Ok && o.next <= n {
        sound_expr(g, i + 1);
        alike_expr(g, h, i + 1, n);
    }
}

proof fn alike_array(g: Gram, h: Gram, i: int, n: int)
    requires
        0 <= i,
        alike(g, h, n),
    ensures
        reads_alike(n, g.array(i), h.array(i)),
    decreases n - i, 1nat,
{
    reveal(Gram::array);
    reveal(Gram::comma_list);
    let o = g.array(i);
    if o.res is Ok && o.next <= n {
        sound_comma_list(g, ListKind::Elems, i + 1);
        alike_comma_list(g, h, ListKind::Elems, i + 1, n);
    }
}

proof fn alike_object(g: Gram, h: Gram, i: int, n: int)
    requires
        0 <= i,
        alike(g, h, n),
    ensures
        reads_alike(n, g.object(i), h.object(i)),
    decreases n - i, 1nat,
{
    reveal(Gram::object);
    reveal(Gram::comma_list);
    let o = g.object(i);
    if o.res is Ok && o.next <= n {
        sound_comma_list(g, ListKind::Props, i + 1);
        alike_comma_list(g, h, ListKind::Props, i + 1, n);
    }
}

proof fn alike_prop(g: Gram, h: Gram, i: int, n: int)
    requires
        0 <= i,
        alike(g, h, n),
    ensures
        reads_alike(n, g.prop(i), h.prop(i)),
    decreases n - i, 1nat,
{
    reveal(Gram::prop);
    reveal(Gram::assign);
    reveal(Token::spec_is_ident_like);
    let o = g.prop(i);
    if o.res is Ok && o.next <= n {
        sound_prop(g, i);
        if !(g.kind(i).is_ident_like() && g.kind(i + 1) != Token::Colon) {
            sound_assign(g, i + 2);
            alike_assign(g, h, i + 2, n);
        }
    }
}

/// A header of a match expression reads alike, where the parenthesis of the
/// discriminant is closed before `n`.
pub(crate) proof fn alike_match_header(g: Gram, h: Gram, i: int, n: int)
    requires
        0 <= i,
        alike(g, h, n),
        g.after_close(i + 2, 1) <= n,
    ensures
        g.match_header(i) is Some ==> h.match_header(i) == g.match_header(i),
    decreases n - i, 1nat,
{
    reveal(Gram::match_header);
    reveal(Gram::expr);
    lemma_ends(g, h, n);
    if g.match_header(i) is Some {
        let d = g.expr(i + 2);
        sound_expr(g, i + 2);
        lemma_closed(g, i + 2, d.next);
        alike_expr(g, h, i + 2, n);
    }
}

proof fn alike_match_body(g: Gram, h: Gram, i: int, start: BytePos, d: Out, n: int)
    requires
        0 <= d.next,
        0 <= i,
        g.zts,
        d.res is Ok,
        sound(g, i, d),
        g.kind(d.next) == Token::LBrace,
        arm_starter(g.kind(d.next + 1)),
        alike(g, h, n),
    ensures
        reads_alike(n, g.match_body(start, d), h.match_body(start, d)),
    decreases n - d.next, 1nat,
{
    reveal(Gram::match_body);
    reveal(Gram::comma_list);
    let o = g.match_body(start, d);
    if o.res is Ok && o.next <= n {
        sound_comma_list(g, ListKind::Arms, d.next + 1);
        alike_comma_list(g, h, ListKind::Arms, d.next + 1, n);
    }
}

proof fn alike_arm(g: Gram, h: Gram, i: int, n: int)
    requires
        0 <= i,
        g.zts,
        alike(g, h, n),
    ensures
        reads_alike(n, g.arm(i), h.arm(i)),
    decreases n - i, 15nat,
{
    reveal(Gram::arm);
    reveal(Gram::arm_body);
    reveal(Gram::assign);
    reveal(Gram::expr_block);
    reveal(Gram::match_pattern);
    let o = g.arm(i);
    if o.res is Ok && o.next <= n {
        let p = g.match_pattern(i);
        sound_match_pattern(g, i);
        sound_arm_body(g, p.next + 1);
        alike_match_pattern(g, h, i, n);
        alike_arm_body(g, h, p.next + 1, n);
    }
}

proof fn alike_arm_body(g: Gram, h: Gram, i: int, n: int)
    requires
        0 <= i,
        g.zts,
        alike(g, h, n),
    ensures
        reads_alike(n, g.arm_body(i), h.arm_body(i)),
    decreases n - i, 15nat,
{
    reveal(Gram::arm_body);
    reveal(Gram::assign);
    reveal(Gram::expr_block);
    let o = g.arm_body(i);
    if o.res is Ok && o.next <= n {
        sound_arm_body(g, i);
        if g.kind(i) != Token::LBrace {
            alike_assign(g, h, i, n);
        } else {
            alike_expr_block(g, h, i, n);
        }
    }
}

proof fn alike_match_pattern(g: Gram, h: Gram, i: int, n: int)
    requires
        0 <= i,
        g.zts,
        alike(g, h, n),
    ensures
        reads_alike(n, g.match_pattern(i), h.match_pattern(i)),
    decreases n - i, 3nat,
{
    reveal(Gram::match_pattern);
    reveal(Gram::object_pat);
    reveal(Token::spec_is_word);
    lemma_ends(g, h, n);
    let o = g.match_pattern(i);
    if o.res is Ok && o.next <= n {
        sound_match_pattern(g, i);
        alike_object_pat(g, h, i + 1, n);
    }
}

proof fn alike_if_expr(g: Gram, h: Gram, i: int, start: BytePos, n: int)
    requires
        0 <= i,
        g.zts,
        alike(g, h, n),
    ensures
        reads_alike(n, g.if_expr(i, start), h.if_expr(i, start)),
    decreases n - i, 1nat,
{
    reveal(Gram::if_expr);
    reveal(Gram::expr);
    reveal(Gram::expr_block);
    let o = g.if_expr(i, start);
    if o.res is Ok && o.next <= n {
        let t = g.expr(i + 2);
        sound_expr(g, i + 2);
        let c = g.expr_block(t.next + 1);
        sound_expr_block(g, t.next + 1);
        if g.kind(c.next + 1) == Token::If {
            sound_if_expr(g, c.next + 1, g.lo(c.next + 1));
            alike_if_expr(g, h, c.next + 1, g.lo(c.next + 1), n);
        } else {
            sound_expr_block(g, c.next + 1);
            alike_expr_block(g, h, c.next + 1, n);
        }
        alike_expr_block(g, h, t.next + 1, n);
        alike_expr(g, h, i + 2, n);
    }
}

proof fn alike_expr_block(g: Gram, h: Gram, i: int, n: int)
    requires
        0 <= i,
        g.zts,
        alike(g, h, n),
    ensures
        reads_alike(n, g.expr_block(i), h.expr_block(i)),
    decreases n - i, 3nat,
{
    reveal(Gram::expr_block);
    reveal(Gram::block);
    let o = g.expr_block(i);
    if o.res is Ok && o.next <= n {
        sound_block(g, i);
        alike_block(g, h, i, n);
    }
}

proof fn alike_any_enum(
    g: Gram,
    h: Gram,
    i: int,
    start: BytePos,
    is_const: bool,
    declare: bool,
    n: int,
)
    requires
        0 <= i,
        alike(g, h, n),
    ensures
        reads_alike(
            n,
            g.any_enum(i, start, is_const, declare),
            h.any_enum(i, start, is_const, declare),
        ),
    decreases n - i, 17nat,
{
    reveal(Gram::any_enum);
    reveal(Gram::ts_enum);
    reveal(Gram::zts_enum);
    let o = g.any_enum(i, start, is_const, declare);
    if o.res is Ok && o.next <= n {
        sound_any_enum(g, i, start, is_const, declare);
        if g.zts {
            alike_zts_enum(g, h, i, start, is_const, declare, n);
        } else {
            alike_ts_enum(g, h, i, start, is_const, declare, n);
        }
    }
}

proof fn alike_zts_enum(
    g: Gram,
    h: Gram,
    i: int,
    start: BytePos,
    is_const: bool,
    declare: bool,
    n: int,
)
    requires
        0 <= i,
        g.zts,
        alike(g, h, n),
    ensures
        reads_alike(
            n,
            g.zts_enum(i, start, is_const, declare),
            h.zts_enum(i, start, is_const, declare),
        ),
    decreases n - i, 1nat,
{
    reveal(Gram::zts_enum);
    reveal(Gram::comma_list);
    reveal(Token::spec_is_word);
    lemma_ends(g, h, n);
    let o = g.zts_enum(i, start, is_const, declare);
    if o.res is Ok && o.next <= n {
        sound_comma_list(g, ListKind::Variants, i + 2);
        alike_comma_list(g, h, ListKind::Variants, i + 2, n);
    }
}

proof fn alike_variant(g: Gram, h: Gram, i: int, n: int)
    requires
        0 <= i,
        g.zts,
        alike(g, h, n),
    ensures
        reads_alike(n, g.variant(i), h.variant(i)),
    decreases n - i, 1nat,
{
    reveal(Gram::variant);
    reveal(Gram::comma_list);
    reveal(Token::spec_is_word);
    lemma_ends(g, h, n);
    let o = g.variant(i);
    if o.res is Ok && o.next <= n {
        sound_comma_list(g, ListKind::Fields, i + 2);
        alike_comma_list(g, h, ListKind::Fields, i + 2, n);
    }
}

proof fn alike_field(g: Gram, h: Gram, i: int, n: int)
    requires
        0 <= i,
        g.zts,
        alike(g, h, n),
    ensures
        reads_alike(n, g.field(i), h.field(i)),
{
    reveal(Gram::field);
    reveal(Token::spec_is_word);
    lemma_ends(g, h, n);
    let o = g.field(i);
    if o.res is Ok && o.next <= n {
        sound_ty(g, i + 2);
        alike_ty(g, h, i + 2, n);
    }
}

proof fn alike_newtype(g: Gram, h: Gram, i: int, start: BytePos, declare: bool, n: int)
    requires
        0 <= i,
        g.zts,
        alike(g, h, n),
    ensures
        reads_before(n, g.newtype(i, start, declare), h.newtype(i, start, declare)),
{
    reveal(Gram::newtype);
    reveal(Token::spec_is_word);
    lemma_ends(g, h, n);
    let o = g.newtype(i, start, declare);
    if o.res is Ok && o.next < n {
        sound_ty(g, i + 2);
        alike_ty(g, h, i + 2, n);
    }
}

proof fn alike_ts_enum(
    g: Gram,
    h: Gram,
    i: int,
    start: BytePos,
    is_const: bool,
    declare: bool,
    n: int,
)
    requires
        0 <= i,
        !g.zts,
        alike(g, h, n),
    ensures
        reads_alike(
            n,
            g.ts_enum(i, start, is_const, declare),
            h.ts_enum(i, start, is_const, declare),
        ),
    decreases n - i, 1nat,
{
    reveal(Gram::ts_enum);
    reveal(Gram::comma_list);
    reveal(Token::spec_is_word);
    lemma_ends(g, h, n);
    let o = g.ts_enum(i, start, is_const, declare);
    if o.res is Ok && o.next <= n {
        sound_comma_list(g, ListKind::TsMembers, i + 2);
        alike_comma_list(g, h, ListKind::TsMembers, i + 2, n);
    }
}

proof fn alike_ts_member(g: Gram, h: Gram, i: int, n: int)
    requires
        0 <= i,
        alike(g, h, n),
    ensures
        reads_alike(n, g.ts_member(i), h.ts_member(i)),
    decreases n - i, 1nat,
{
    reveal(Gram::ts_member);
    reveal(Gram::assign);
    let o = g.ts_member(i);
    if o.res is Ok && o.next <= n {
        sound_ts_member(g, i);
        if g.kind(i + 1) == Token::Eq {
            sound_assign(g, i + 2);
            alike_assign(g, h, i + 2, n);
        }
    }
}

proof fn alike_block(g: Gram, h: Gram, i: int, n: int)
    requires
        0 <= i,
        alike(g, h, n),
    ensures
        reads_alike(n, g.block(i), h.block(i)),
    decreases n - i, 1nat,
{
    reveal(Gram::block);
    reveal(Gram::stmts);
    let o = g.block(i);
    if o.res is Ok && o.next <= n {
        sound_stmts(g, i + 1);
        alike_stmts(g, h, i + 1, n);
    }
}

proof fn alike_stmts(g: Gram, h: Gram, i: int, n: int)
    requires
        0 <= i,
        i <= g.toks.len(),
        alike(g, h, n),
    ensures
        reads_before(n, g.stmts(i), h.stmts(i)),
    decreases n - i, 25nat,
{
    reveal(Gram::stmts);
    reveal(Gram::stmt);
    let o = g.stmts(i);
    if o.res is Ok && o.next < n {
        sound_stmts(g, i);
        if g.kind(i) != Token::RBrace && g.kind(i) != Token::Eof {
            let s = g.stmt(i, true);
            sound_stmt(g, i, true);
            sound_stmts(g, s.next);
            alike_stmts(g, h, s.next, n);
            alike_stmt(g, h, i, true, n);
        }
    }
}

proof fn alike_stmt(g: Gram, h: Gram, i: int, top: bool, n: int)
    requires
        0 <= i,
        alike(g, h, n),
    ensures
        reads_before(n, g.stmt(i, top), h.stmt(i, top)),
    decreases n - i, 21nat,
{
    reveal(Gram::stmt);
    reveal(Gram::any_enum);
    reveal(Gram::block);
    reveal(Gram::expr_stmt);
    reveal(Gram::for_stmt);
    reveal(Gram::if_stmt);
    reveal(Gram::var_stmt);
    reveal(Gram::while_stmt);
    let o = g.stmt(i, top);
    if o.res is Ok && o.next < n {
        let k = g.kind(i);
        sound_stmt(g, i, top);
        if k == Token::LBrace {
            alike_block(g, h, i, n);
        } else if k == Token::If {
            alike_if_stmt(g, h, i, n);
        } else if k == Token::While {
            alike_while_stmt(g, h, i, n);
        } else if k == Token::For {
            alike_for_stmt(g, h, i, n);
        } else if k == Token::Enum {
            sound_any_enum(g, i + 1, g.lo(i), false, false);
            alike_any_enum(g, h, i + 1, g.lo(i), false, false, n);
        } else if k == Token::Const && g.kind(i + 1) == Token::Enum {
            sound_any_enum(g, i + 2, g.lo(i), true, false);
            alike_any_enum(g, h, i + 2, g.lo(i), true, false, n);
        } else if k == Token::Const || k == Token::Let || k == Token::Var {
            alike_var_stmt(g, h, i, n);
        } else if k != Token::Semi {
            alike_expr_stmt(g, h, i, top, n);
        }
    }
}

proof fn alike_head(g: Gram, h: Gram, i: int, n: int)
    requires
        0 <= i,
        alike(g, h, n),
    ensures
        reads_alike(n, g.head(i), h.head(i)),
    decreases n - i, 1nat,
{
    reveal(Gram::head);
    reveal(Gram::expr);
    let o = g.head(i);
    if o.res is Ok && o.next <= n {
        sound_expr(g, i + 1);
        alike_expr(g, h, i + 1, n);
    }
}

proof fn alike_if_stmt(g: Gram, h: Gram, i: int, n: int)
    requires
        0 <= i,
        alike(g, h, n),
    ensures
        reads_before(n, g.if_stmt(i), h.if_stmt(i)),
    decreases n - i, 1nat,
{
    reveal(Gram::if_stmt);
    reveal(Gram::head);
    reveal(Gram::expr);
    reveal(Gram::stmt);
    let o = g.if_stmt(i);
    if o.res is Ok && o.next < n {
        let t = g.head(i + 1);
        sound_head(g, i + 1);
        let c = g.stmt(t.next, false);
        sound_stmt(g, t.next, false);
        if g.kind(c.next) == Token::Else {
            sound_stmt(g, c.next + 1, false);
            alike_stmt(g, h, c.next + 1, false, n);
        }
        alike_stmt(g, h, t.next, false, n);
        alike_head(g, h, i + 1, n);
    }
}

proof fn alike_while_stmt(g: Gram, h: Gram, i: int, n: int)
    requires
        0 <= i,
        alike(g, h, n),
    ensures
        reads_before(n, g.while_stmt(i), h.while_stmt(i)),
    decreases n - i, 1nat,
{
    reveal(Gram::while_stmt);
    reveal(Gram::head);
    reveal(Gram::expr);
    reveal(Gram::stmt);
    let o = g.while_stmt(i);
    if o.res is Ok && o.next < n {
        let t = g.head(i + 1);
        sound_head(g, i + 1);
        sound_stmt(g, t.next, false);
        alike_stmt(g, h, t.next, false, n);
        alike_head(g, h, i + 1, n);
    }
}

proof fn alike_opt_expr(g: Gram, h: Gram, i: int, stop: Token, n: int)
    requires
        0 <= i,
        stop != Token::Eof,
        alike(g, h, n),
    ensures
        reads_before(n, g.opt_expr(i, stop), h.opt_expr(i, stop)),
    decreases n - i, 17nat,
{
    reveal(Gram::opt_expr);
    reveal(Gram::expr);
    let o = g.opt_expr(i, stop);
    if o.res is Ok && o.next < n {
        if g.kind(i) != stop {
            sound_expr(g, i);
            alike_expr(g, h, i, n);
        }
    }
}

proof fn alike_for_init(g: Gram, h: Gram, i: int, n: int)
    requires
        0 <= i,
        alike(g, h, n),
    ensures
        reads_before(n, g.for_init(i), h.for_init(i)),
    decreases n - i, 19nat,
{
    reveal(Gram::for_init);
    reveal(Gram::opt_expr);
    reveal(Gram::var_decl);
    let o = g.for_init(i);
    if o.res is Ok && o.next < n {
        sound_for_init(g, i);
        if var_kind(g.kind(i)) is Some {
            sound_var_decl(g, i);
            alike_var_decl(g, h, i, n);
        } else {
            alike_opt_expr(g, h, i, Token::Semi, n);
        }
    }
}

#[verifier::rlimit(30)]
proof fn alike_for_stmt(g: Gram, h: Gram, i: int, n: int)
    requires
        0 <= i,
        alike(g, h, n),
    ensures
        reads_before(n, g.for_stmt(i), h.for_stmt(i)),
    decreases n - i, 1nat,
{
    reveal(Gram::for_stmt);
    reveal(Gram::for_init);
    reveal(Gram::opt_expr);
    reveal(Gram::stmt);
    let o = g.for_stmt(i);
    if o.res is Ok && o.next < n {
        let a = g.for_init(i + 2);
        sound_for_init(g, i + 2);
        let t = g.opt_expr(a.next + 1, Token::Semi);
        sound_opt_expr(g, a.next + 1, Token::Semi);
        let u = g.opt_expr(t.next + 1, Token::RParen);
        sound_opt_expr(g, t.next + 1, Token::RParen);
        sound_stmt(g, u.next + 1, false);
        alike_stmt(g, h, u.next + 1, false, n);
        alike_opt_expr(g, h, t.next + 1, Token::RParen, n);
        alike_opt_expr(g, h, a.next + 1, Token::Semi, n);
        alike_for_init(g, h, i + 2, n);
    }
}

proof fn alike_var_decl(g: Gram, h: Gram, i: int, n: int)
    requires
        0 <= i,
        alike(g, h, n),
    ensures
        reads_before(n, g.var_decl(i), h.var_decl(i)),
    decreases n - i, 1nat,
{
    reveal(Gram::var_decl);
    reveal(Gram::declarators);
    reveal(var_kind);
    let o = g.var_decl(i);
    if o.res is Ok && o.next < n {
        sound_declarators(g, i + 1);
        alike_declarators(g, h, i + 1, n);
    }
}

proof fn alike_declarators(g: Gram, h: Gram, i: int, n: int)
    requires
        0 <= i,
        alike(g, h, n),
    ensures
        reads_before(n, g.declarators(i), h.declarators(i)),
    decreases n - i, 11nat,
{
    reveal(Gram::declarators);
    reveal(Gram::declarator);
    let o = g.declarators(i);
    if o.res is Ok && o.next < n {
        let d = g.declarator(i);
        sound_declarator(g, i);
        if g.kind(d.next) == Token::Comma {
            sound_declarators(g, d.next + 1);
            alike_declarators(g, h, d.next + 1, n);
        }
        alike_declarator(g, h, i, n);
    }
}

proof fn alike_declarator(g: Gram, h: Gram, i: int, n: int)
    requires
        0 <= i,
        alike(g, h, n),
    ensures
        reads_alike(n, g.declarator(i), h.declarator(i)),
    decreases n - i, 9nat,
{
    reveal(Gram::declarator);
    reveal(Gram::assign);
    reveal(Gram::binding);
    let o = g.declarator(i);
    if o.res is Ok && o.next <= n {
        let b = g.binding(i);
        sound_binding(g, i);
        if g.kind(b.next) == Token::Eq {
            sound_assign(g, b.next + 1);
            alike_assign(g, h, b.next + 1, n);
        }
        alike_binding(g, h, i, n);
    }
}

proof fn alike_var_stmt(g: Gram, h: Gram, i: int, n: int)
    requires
        0 <= i,
        alike(g, h, n),
    ensures
        reads_before(n, g.var_stmt(i), h.var_stmt(i)),
    decreases n - i, 3nat,
{
    reveal(Gram::var_stmt);
    reveal(Gram::var_decl);
    let o = g.var_stmt(i);
    if o.res is Ok && o.next < n {
        sound_var_decl(g, i);
        alike_var_decl(g, h, i, n);
    }
}

proof fn alike_expr_stmt(g: Gram, h: Gram, i: int, top: bool, n: int)
    requires
        0 <= i,
        alike(g, h, n),
    ensures
        reads_before(n, g.expr_stmt(i, top), h.expr_stmt(i, top)),
    decreases n - i, 19nat,
{
    reveal(Gram::expr_stmt);
    reveal(Gram::any_enum);
    reveal(Gram::expr);
    reveal(Gram::stmt);
    reveal(Gram::newtype_ahead);
    reveal(Token::spec_is_ident_like);
    lemma_ends(g, h, n);
    let o = g.expr_stmt(i, top);
    if o.res is Ok && o.next < n {
        let e = g.expr(i);
        sound_expr(g, i);
        sound_expr_stmt(g, i, top);
        if e.tree().label is Ident && g.kind(e.next) == Token::Colon {
            sound_stmt(g, e.next + 1, false);
            alike_stmt(g, h, e.next + 1, false, n);
        } else if top && is_ident_named(e.tree(), "declare"@) && !g.nl(e.next) && g.kind(e.next)
            == Token::Enum {
            sound_any_enum(g, e.next + 1, g.lo(i), false, true);
            alike_any_enum(g, h, e.next + 1, g.lo(i), false, true, n);
        } else if top && is_ident_named(e.tree(), "declare"@) && !g.nl(e.next) && g.kind(e.next)
            == Token::Const && g.kind(e.next + 1) == Token::Enum {
            sound_any_enum(g, e.next + 2, g.lo(i), true, true);
            alike_any_enum(g, h, e.next + 2, g.lo(i), true, true, n);
        } else if top && is_ident_named(e.tree(), "declare"@) && !g.nl(e.next) && g.newtype_ahead(
            e.next,
        ) {
            sound_newtype(g, e.next + 1, g.lo(i), true);
            alike_newtype(g, h, e.next + 1, g.lo(i), true, n);
        } else if g.zts && top && is_ident_named(e.tree(), "newtype"@) && !g.nl(e.next) && g.kind(
            e.next,
        ).is_ident_like() {
            sound_newtype(g, e.next, g.lo(i), false);
            alike_newtype(g, h, e.next, g.lo(i), false, n);
        }
        alike_expr(g, h, i, n);
    }
}

} // verus!
