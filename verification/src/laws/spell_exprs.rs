//! What is accepted is what was written, for expressions: the tree of a
//! phrase stands for the tokens of the phrase. `spell_x` is about the phrase `x` of the
//! grammar.
use crate::ast::expr::BinaryOp;
use crate::error::Error;
use crate::grammar::{
    assign_op, binary_op, is_lit, precedence, right_precedence, template_start, unary_op, Gram,
    ListKind, Out,
};
use crate::laws::made::{
    made_array, made_arrow, made_assign, made_bin, made_call, made_computed_member,
    made_computed_prop, made_cond, made_key_value_prop, made_member, made_object, made_paren,
    made_seq_expr, made_short_arrow, made_tagged_tpl, made_ts_as, made_ts_non_null,
    made_ts_satisfies, made_unary,
};
use crate::laws::shape::{group_sound, is_sound_expr};
use crate::laws::sound::{
    sound_array, sound_arrow, sound_arrow_body, sound_arrow_params, sound_assign, sound_bin,
    sound_bin_rest, sound_bin_step, sound_block, sound_comma_list, sound_cond, sound_expr,
    sound_if_expr, sound_more_exprs, sound_object, sound_paren, sound_primary, sound_prop,
    sound_subscript, sound_subscripts, sound_subscripts_rest, sound_tpl, sound_ty, sound_unary,
};
use crate::laws::spell_parts::{spell_comma_list, spell_ty};
use crate::laws::spell_stmts::spell_block;
use crate::laws::spell_zts::{spell_if_expr, spell_match};
use crate::laws::spelling::{
    all_of_exprs, all_of_kind, begun, lemma_begun_push, lemma_begun_step, lemma_begun_woven,
    lemma_binding, lemma_ident, lemma_lit, lemma_made0, lemma_made_tpl, lemma_name,
    lemma_prop_name_spelled, lemma_rank, lemma_row_front, lemma_row_one, lemma_woven_end, level,
    of_kind, rank, row, spelled, woven, Sep,
};
use crate::span::BytePos;
use crate::token::Token;
use crate::tree::{kids1, node, Label, Tree};
use vstd::prelude::*;

verus! {

/// Whether the token at an index is no operator that binds more tightly than `min`.
pub open spec fn held(g: Gram, i: int, min: int) -> bool {
    &&& binary_op(g.kind(i)) matches Some(op) ==> level(op) <= min
    &&& (g.kind(i) == Token::As || g.kind(i) == Token::Satisfies) && !g.nl(i) ==> min >= 7
}

/// Whether what comes at an index, behind a left operand, does not belong to the right
/// operand in it.
pub open spec fn left_held(g: Gram, label: Label, i: int) -> bool {
    label matches Label::Bin { op } ==> held(
        g,
        i,
        if op == BinaryOp::Exp {
            10
        } else {
            level(op)
        },
    )
}

pub(crate) proof fn spell_expr(g: Gram, i: int)
    requires
        0 <= i,
    ensures
        ({
            let o = g.expr(i);
            o.res is Ok ==> {
                &&& spelled(g, o.tree(), i, o.next)
                &&& rank(o.tree().label) >= -2
            }
        }),
    decreases g.rem(i), 15nat,
{
    g.lemma_expr(i);
    let o = g.expr(i);
    let t = o.tree();
    if o.res is Ok {
        sound_expr(g, i);
        let a = g.assign(i);
        sound_assign(g, i);
        spell_assign(g, i);
        if g.kind(a.next) == Token::Comma {
            sound_more_exprs(g, a.next);
            spell_more_exprs(g, a.next);
            let m = g.more_exprs(a.next);
            lemma_row_front(g, a.tree(), m.tree().kids, Sep::Commas, i, a.next, a.next + 1, o.next);
            made_seq_expr(g, t, i, o.next);
        }
    }
}

pub(crate) proof fn spell_more_exprs(g: Gram, i: int)
    requires
        0 <= i,
        i <= g.toks.len(),
    ensures
        ({
            let o = g.more_exprs(i);
            o.res is Ok ==> {
                &&& row(
                    g,
                    o.tree().kids,
                    0,
                    Sep::Commas,
                    if g.kind(i) == Token::Comma {
                        i + 1
                    } else {
                        i
                    },
                    o.next,
                )
                &&& g.kind(i) == Token::Comma <==> o.tree().kids.len() > 0
                &&& all_of_kind(ListKind::Elems, o.tree().kids)
            }
        }),
    decreases g.rem(i), 1nat,
{
    g.lemma_more_exprs(i);
    let o = g.more_exprs(i);
    let t = o.tree();
    if o.res is Ok {
        sound_more_exprs(g, i);
        if g.kind(i) == Token::Comma {
            let a = g.assign(i + 1);
            sound_assign(g, i + 1);
            spell_assign(g, i + 1);
            sound_more_exprs(g, a.next);
            spell_more_exprs(g, a.next);
            let m = g.more_exprs(a.next);
            let c = if m.tree().kids.len() == 0 {
                a.next
            } else {
                a.next + 1
            };
            lemma_row_front(g, a.tree(), m.tree().kids, Sep::Commas, i + 1, a.next, c, o.next);
        } else {
            reveal(row);
        }
    }
}

pub(crate) proof fn spell_assign(g: Gram, i: int)
    requires
        0 <= i,
    ensures
        ({
            let o = g.assign(i);
            o.res is Ok ==> {
                &&& spelled(g, o.tree(), i, o.next)
                &&& rank(o.tree().label) >= -1
            }
        }),
    decreases g.rem(i), 13nat,
{
    reveal(Gram::assign);
    reveal(Gram::arrow);
    reveal(Gram::cond);
    reveal(assign_op);
    let o = g.assign(i);
    let t = o.tree();
    if o.res is Ok {
        sound_assign(g, i);
        lemma_rank(t.label);
        if g.arrow_ahead(i) {
            sound_arrow(g, i);
            spell_arrow(g, i);
        } else {
            let a = g.cond(i);
            sound_cond(g, i);
            spell_cond(g, i);
            if assign_op(g.kind(a.next)) is Some {
                sound_assign(g, a.next + 1);
                spell_assign(g, a.next + 1);
                made_assign(g, t, i, a.next, o.next);
            }
        }
    }
}

pub(crate) proof fn spell_arrow_params(g: Gram, i: int)
    requires
        0 <= i,
        g.arrow_ahead(i),
    ensures
        ({
            let o = g.arrow_params(i);
            let paren = g.kind(i) == Token::LParen;
            o.res is Ok ==> {
                &&& all_of_kind(ListKind::Params, o.tree().kids)
                &&& o.tree().label is List
                &&& paren ==> row(g, o.tree().kids, 0, Sep::Closed, i + 1, o.next - 1)
                &&& paren ==> g.kind(o.next - 1) == Token::RParen
                &&& !paren ==> row(g, o.tree().kids, 0, Sep::Closed, i, o.next)
            }
        }),
    decreases g.rem(i), 1nat,
{
    reveal(Gram::arrow_params);
    reveal(Gram::comma_list);
    reveal(Gram::arrow_ahead);
    reveal(Token::spec_is_ident_like);
    let o = g.arrow_params(i);
    if o.res is Ok {
        if g.kind(i) == Token::LParen {
            sound_comma_list(g, ListKind::Params, i + 1);
            spell_comma_list(g, ListKind::Params, i + 1);
        } else {
            lemma_binding(g, i);
            lemma_row_one(g, g.binding_at(i), Sep::Closed, i, i + 1);
        }
    }
}

pub(crate) proof fn spell_arrow(g: Gram, i: int)
    requires
        0 <= i,
        g.arrow_ahead(i),
    ensures
        ({
            let o = g.arrow(i);
            o.res is Ok ==> {
                &&& spelled(g, o.tree(), i, o.next)
                &&& o.tree().label is Arrow
            }
        }),
    decreases g.rem(i), 11nat,
{
    reveal(Gram::arrow);
    reveal(Gram::arrow_body);
    reveal(Gram::assign);
    reveal(Gram::block);
    reveal(Gram::arrow_params);
    reveal(Gram::comma_list);
    let o = g.arrow(i);
    let t = o.tree();
    if o.res is Ok {
        sound_arrow(g, i);
        let p = g.arrow_params(i);
        sound_arrow_params(g, i);
        spell_arrow_params(g, i);
        sound_arrow_body(g, p.next + 1);
        spell_arrow_body(g, p.next + 1);
        if g.kind(i) == Token::LParen {
            made_arrow(g, t, i, p.next - 1, o.next);
        } else {
            made_short_arrow(g, t, i, p.next, o.next);
        }
    }
}

pub(crate) proof fn spell_arrow_body(g: Gram, i: int)
    requires
        0 <= i,
    ensures
        ({
            let o = g.arrow_body(i);
            o.res is Ok ==> {
                &&& spelled(g, o.tree(), i, o.next)
                &&& o.tree().label is Block || rank(o.tree().label) >= -1
                &&& o.tree().label is Block <==> g.kind(i) == Token::LBrace
            }
        }),
    decreases g.rem(i), 15nat,
{
    reveal(Gram::arrow_body);
    reveal(Gram::assign);
    reveal(Gram::block);
    let o = g.arrow_body(i);
    let t = o.tree();
    if o.res is Ok {
        sound_arrow_body(g, i);
        lemma_rank(t.label);
        if g.kind(i) == Token::LBrace {
            sound_block(g, i);
            spell_block(g, i);
        } else {
            sound_assign(g, i);
            spell_assign(g, i);
        }
    }
}

pub(crate) proof fn spell_cond(g: Gram, i: int)
    requires
        0 <= i,
    ensures
        ({
            let o = g.cond(i);
            o.res is Ok ==> {
                &&& spelled(g, o.tree(), i, o.next)
                &&& rank(o.tree().label) >= 0
            }
        }),
    decreases g.rem(i), 11nat,
{
    reveal(Gram::cond);
    reveal(Gram::assign);
    reveal(Gram::bin);
    let o = g.cond(i);
    let t = o.tree();
    if o.res is Ok {
        sound_cond(g, i);
        let a = g.bin(i, 0);
        sound_bin(g, i, 0);
        spell_bin(g, i, 0);
        if g.kind(a.next) == Token::Question {
            let c = g.assign(a.next + 1);
            sound_assign(g, a.next + 1);
            spell_assign(g, a.next + 1);
            sound_assign(g, c.next + 1);
            spell_assign(g, c.next + 1);
            made_cond(g, t, i, a.next, c.next, o.next);
        }
    }
}

pub(crate) proof fn spell_bin(g: Gram, i: int, min: int)
    requires
        0 <= i,
        0 <= min < 11,
    ensures
        ({
            let o = g.bin(i, min);
            o.res is Ok ==> {
                &&& spelled(g, o.tree(), i, o.next)
                &&& rank(o.tree().label) > min
                &&& rank(o.tree().label) >= 1
                &&& held(g, o.next, min)
            }
        }),
    decreases g.rem(i), 9nat,
{
    g.lemma_bin(i, min);
    let o = g.bin(i, min);
    let t = o.tree();
    if o.res is Ok {
        sound_bin(g, i, min);
        let a = g.unary(i);
        sound_unary(g, i);
        spell_unary(g, i);
        lemma_rank(a.tree().label);
        sound_bin_rest(g, i, g.lo(i), a, min);
        spell_bin_rest(g, i, g.lo(i), a, min);
    }
}

pub(crate) proof fn spell_bin_rest(g: Gram, i: int, start: BytePos, a: Out, min: int)
    requires
        0 <= a.next,
        0 <= i,
        a.res is Ok,
        is_sound_expr(g, i, a),
        0 <= min < 11,
        start == g.lo(i),
        spelled(g, a.tree(), i, a.next),
        rank(a.tree().label) > min,
        left_held(g, a.tree().label, a.next),
    ensures
        ({
            let o = g.bin_rest(start, a, min);
            o.res is Ok ==> {
                &&& spelled(g, o.tree(), i, o.next)
                &&& rank(o.tree().label) > min
                &&& held(g, o.next, min)
            }
        }),
    decreases g.rem(a.next), 3nat,
{
    g.lemma_bin_rest(start, a, min);
    broadcast use group_sound;

    let o = g.bin_rest(start, a, min);
    let t = o.tree();
    if o.res is Ok {
        sound_bin_rest(g, i, start, a, min);
        sound_bin_step(g, start, a.tree(), a.next, min);
        spell_bin_step(g, i, start, a.tree(), a.next, min);
        if let Some(s) = g.bin_step(start, a.tree(), a.next, min) {
            let b = s.after(a);
            sound_bin_rest(g, i, start, b, min);
            spell_bin_rest(g, i, start, b, min);
        }
    }
}

pub(crate) proof fn spell_bin_step(g: Gram, i: int, start: BytePos, l: Tree, j: int, min: int)
    requires
        0 <= i < j,
        0 <= min,
        start == g.lo(i),
        spelled(g, l, i, j),
        rank(l.label) > 0,
        left_held(g, l.label, j),
    ensures
        match g.bin_step(start, l, j, min) {
            Some(o) => o.res is Ok ==> {
                &&& spelled(g, o.tree(), i, o.next)
                &&& rank(o.tree().label) > min
                &&& left_held(g, o.tree().label, o.next)
            },
            None => held(g, j, min),
        },
    decreases g.rem(j), 1nat,
{
    reveal(Gram::bin_step);
    reveal(Gram::bin);
    reveal(binary_op);
    reveal(precedence);
    reveal(right_precedence);
    reveal(level);
    lemma_rank(l.label);
    let k = g.kind(j);
    if let Some(o) = g.bin_step(start, l, j, min) {
        if o.res is Ok {
            let t = o.tree();
            if (k == Token::As || k == Token::Satisfies) && !g.nl(j) && min < 7 {
                sound_ty(g, j + 1);
                spell_ty(g, j + 1);
                if k == Token::As {
                    made_ts_as(g, t, i, j, o.next);
                } else {
                    made_ts_satisfies(g, t, i, j, o.next);
                }
            } else if let Some(op) = binary_op(k) {
                sound_bin(g, j + 1, right_precedence(op));
                spell_bin(g, j + 1, right_precedence(op));
                made_bin(g, t, i, j, o.next);
            }
        }
    }
}

pub(crate) proof fn spell_unary(g: Gram, i: int)
    requires
        0 <= i,
    ensures
        ({
            let o = g.unary(i);
            o.res is Ok ==> {
                &&& spelled(g, o.tree(), i, o.next)
                &&& rank(o.tree().label) >= 15
            }
        }),
    decreases g.rem(i), 7nat,
{
    reveal(Gram::unary);
    reveal(Gram::subscripts);
    reveal(Gram::prefix_op);
    reveal(Gram::not_operator);
    reveal(Token::spec_is_word);
    reveal(unary_op);
    let o = g.unary(i);
    let t = o.tree();
    if o.res is Ok {
        sound_unary(g, i);
        match g.prefix_op(i) {
            None => {
                sound_subscripts(g, i);
                spell_subscripts(g, i);
            },
            Some(op) => {
                sound_unary(g, i + 1);
                spell_unary(g, i + 1);
                made_unary(g, t, i, o.next);
            },
        }
    }
}

pub(crate) proof fn spell_subscripts(g: Gram, i: int)
    requires
        0 <= i,
    ensures
        ({
            let o = g.subscripts(i);
            o.res is Ok ==> {
                &&& spelled(g, o.tree(), i, o.next)
                &&& rank(o.tree().label) == 20
            }
        }),
    decreases g.rem(i), 5nat,
{
    g.lemma_subscripts(i);
    let o = g.subscripts(i);
    let t = o.tree();
    if o.res is Ok {
        sound_subscripts(g, i);
        let a = g.primary(i);
        sound_primary(g, i);
        spell_primary(g, i);
        sound_subscripts_rest(g, i, g.lo(i), a);
        spell_subscripts_rest(g, i, g.lo(i), a);
    }
}

pub(crate) proof fn spell_subscripts_rest(g: Gram, i: int, start: BytePos, a: Out)
    requires
        0 <= a.next,
        0 <= i,
        a.res is Ok,
        is_sound_expr(g, i, a),
        start == g.lo(i),
        spelled(g, a.tree(), i, a.next),
        rank(a.tree().label) == 20,
    ensures
        ({
            let o = g.subscripts_rest(start, a);
            o.res is Ok ==> {
                &&& spelled(g, o.tree(), i, o.next)
                &&& rank(o.tree().label) == 20
            }
        }),
    decreases g.rem(a.next), 5nat,
{
    g.lemma_subscripts_rest(start, a);
    broadcast use group_sound;

    let o = g.subscripts_rest(start, a);
    let t = o.tree();
    if o.res is Ok {
        sound_subscripts_rest(g, i, start, a);
        sound_subscript(g, start, a.tree(), a.next);
        spell_subscript(g, i, start, a.tree(), a.next);
        if let Some(s) = g.subscript(start, a.tree(), a.next) {
            let b = s.after(a);
            sound_subscripts_rest(g, i, start, b);
            spell_subscripts_rest(g, i, start, b);
        }
    }
}

pub(crate) proof fn spell_subscript(g: Gram, i: int, start: BytePos, l: Tree, j: int)
    requires
        0 <= i < j,
        start == g.lo(i),
        spelled(g, l, i, j),
        rank(l.label) == 20,
    ensures
        g.subscript(start, l, j) matches Some(o) ==> (o.res is Ok ==> {
            &&& spelled(g, o.tree(), i, o.next)
            &&& rank(o.tree().label) == 20
        }),
    decreases g.rem(j), 3nat,
{
    let k = g.kind(j);
    if k == Token::LBracket {
        spell_computed(g, i, start, l, j);
    } else if k == Token::LParen {
        spell_call(g, i, start, l, j);
    } else if template_start(k) {
        spell_tagged(g, i, start, l, j);
    } else {
        spell_suffix(g, i, start, l, j);
    }
}

#[verifier::rlimit(30)]
pub(crate) proof fn spell_computed(g: Gram, i: int, start: BytePos, l: Tree, j: int)
    requires
        0 <= i < j,
        start == g.lo(i),
        spelled(g, l, i, j),
        rank(l.label) == 20,
        g.kind(j) == Token::LBracket,
    ensures
        g.subscript(start, l, j) matches Some(o) ==> (o.res is Ok ==> {
            &&& spelled(g, o.tree(), i, o.next)
            &&& rank(o.tree().label) == 20
        }),
    decreases g.rem(j), 2nat,
{
    reveal(Gram::subscript);
    reveal(Gram::expr);
    let e = g.expr(j + 1);
    sound_expr(g, j + 1);
    spell_expr(g, j + 1);
    let o = g.subscript(start, l, j)->0;
    if o.res is Ok {
        let t = o.tree();
        let p = node(Label::ComputedProp, g.span(g.lo(j), e.next + 1), kids1(e.tree()));
        made_computed_prop(g, p, j, e.next);
        made_computed_member(g, t, i, j, o.next);
    }
}

pub(crate) proof fn spell_call(g: Gram, i: int, start: BytePos, l: Tree, j: int)
    requires
        0 <= i < j,
        start == g.lo(i),
        spelled(g, l, i, j),
        rank(l.label) == 20,
        g.kind(j) == Token::LParen,
    ensures
        g.subscript(start, l, j) matches Some(o) ==> (o.res is Ok ==> {
            &&& spelled(g, o.tree(), i, o.next)
            &&& rank(o.tree().label) == 20
        }),
    decreases g.rem(j), 2nat,
{
    reveal(Gram::subscript);
    reveal(Gram::comma_list);
    let a = g.comma_list(ListKind::Args, j + 1);
    sound_comma_list(g, ListKind::Args, j + 1);
    spell_comma_list(g, ListKind::Args, j + 1);
    let o = g.subscript(start, l, j)->0;
    if o.res is Ok {
        let t = o.tree();
        made_call(g, t, i, j, a.next);
    }
}

pub(crate) proof fn spell_tagged(g: Gram, i: int, start: BytePos, l: Tree, j: int)
    requires
        0 <= i < j,
        start == g.lo(i),
        spelled(g, l, i, j),
        rank(l.label) == 20,
        template_start(g.kind(j)),
    ensures
        g.subscript(start, l, j) matches Some(o) ==> (o.res is Ok ==> {
            &&& spelled(g, o.tree(), i, o.next)
            &&& rank(o.tree().label) == 20
        }),
    decreases g.rem(j), 2nat,
{
    reveal(Gram::subscript);
    reveal(Gram::tpl);
    sound_tpl(g, j);
    spell_tpl(g, j);
    let o = g.subscript(start, l, j)->0;
    if o.res is Ok {
        let t = o.tree();
        made_tagged_tpl(g, t, i, j, o.next);
    }
}

pub(crate) proof fn spell_suffix(g: Gram, i: int, start: BytePos, l: Tree, j: int)
    requires
        0 <= i < j,
        start == g.lo(i),
        spelled(g, l, i, j),
        rank(l.label) == 20,
        g.kind(j) != Token::LBracket && g.kind(j) != Token::LParen && !template_start(g.kind(j)),
    ensures
        g.subscript(start, l, j) matches Some(o) ==> (o.res is Ok ==> {
            &&& spelled(g, o.tree(), i, o.next)
            &&& rank(o.tree().label) == 20
        }),
    decreases g.rem(j), 2nat,
{
    reveal(Gram::subscript);
    reveal(Token::spec_is_word);
    if let Some(o) = g.subscript(start, l, j) {
        if o.res is Ok {
            let t = o.tree();
            if g.kind(j) == Token::Dot {
                lemma_name(g, j + 1);
                made_member(g, t, i, j, j + 2);
            } else {
                made_ts_non_null(g, t, i, j);
            }
        }
    }
}

pub(crate) proof fn spell_primary(g: Gram, i: int)
    requires
        0 <= i,
    ensures
        ({
            let o = g.primary(i);
            o.res is Ok ==> {
                &&& spelled(g, o.tree(), i, o.next)
                &&& rank(o.tree().label) == 20
            }
        }),
    decreases g.rem(i), 3nat,
{
    g.lemma_primary(i);
    lemma_rank(g.primary(i).tree().label);
    let o = g.primary(i);
    let t = o.tree();
    if o.res is Ok {
        sound_primary(g, i);
        let k = g.kind(i);
        if g.zts && k == Token::If {
            sound_if_expr(g, i, g.lo(i));
            spell_if_expr(g, i, g.lo(i));
        } else if g.match_keyword(i) && g.match_header(i) is Some && g.ok(i, g.match_header(i)->0) {
            spell_match(g, i);
        } else if k.is_ident_like() {
            reveal(Token::spec_is_ident_like);
            lemma_ident(g, i);
        } else if is_lit(k) {
            reveal(is_lit);
            lemma_lit(g, i);
        } else if k == Token::LParen {
            sound_paren(g, i);
            spell_paren(g, i);
        } else if k == Token::LBracket {
            sound_array(g, i);
            spell_array(g, i);
        } else if k == Token::LBrace {
            sound_object(g, i);
            spell_object(g, i);
        } else if template_start(k) {
            sound_tpl(g, i);
            spell_tpl(g, i);
        }
    }
}

pub(crate) proof fn spell_tpl(g: Gram, i: int)
    requires
        0 <= i,
    ensures
        ({
            let o = g.tpl(i);
            o.res is Ok ==> {
                &&& spelled(g, o.tree(), i, o.next)
                &&& o.tree().label is Tpl
            }
        }),
    decreases g.rem(i), 1nat,
{
    g.lemma_tpl(i);
    let o = g.tpl(i);
    let t = o.tree();
    if o.res is Ok {
        sound_tpl(g, i);
        let none: Seq<Tree> = Seq::empty();
        let qs = seq![g.quasi_at(i)];
        lemma_made0(g, g.quasi_at(i), i, i + 1);
        if g.kind(i) == Token::NoSubstitutionTemplate {
            assert(woven(g, t, 0, i, i + 1)) by {
                reveal(woven);
                reveal(spelled);
            }
            lemma_made_tpl(g, t, i, i + 1);
        } else {
            assert(begun(g, none, qs, 0, i, i + 1));
            spell_tpl_rest(g, i, g.lo(i), none, qs, i + 1, Seq::empty());
        }
    }
}

pub(crate) proof fn spell_tpl_rest(
    g: Gram,
    s: int,
    start: BytePos,
    es: Seq<Tree>,
    qs: Seq<Tree>,
    i: int,
    errs: Seq<Error>,
)
    requires
        0 <= s < i <= g.toks.len(),
        start == g.lo(s),
        qs.len() == es.len() + 1,
        begun(g, es, qs, es.len() as int, s, i),
        all_of_exprs(es),
    ensures
        ({
            let o = g.tpl_rest(start, es, qs, i, errs);
            o.res is Ok ==> {
                &&& spelled(g, o.tree(), s, o.next)
                &&& o.tree().label is Tpl
            }
        }),
    decreases g.rem(i), 17nat,
{
    g.lemma_tpl_rest(start, es, qs, i, errs);
    let o = g.tpl_rest(start, es, qs, i, errs);
    if o.res is Ok {
        let e = g.expr(i);
        sound_expr(g, i);
        spell_expr(g, i);
        let es2 = es.push(e.tree());
        let qs2 = qs.push(g.quasi_at(e.next));
        let n = es.len() as int;
        lemma_made0(g, g.quasi_at(e.next), e.next, e.next + 1);
        lemma_begun_push(g, es, qs, e.tree(), g.quasi_at(e.next), n, s, i);
        if g.kind(e.next) == Token::TemplateTail {
            let t = o.tree();
            lemma_begun_woven(g, es2, qs2, t, n, s, i);
            lemma_woven_end(g, t, s, i, e.next + 1);
            lemma_made_tpl(g, t, s, e.next + 1);
        } else {
            lemma_begun_step(g, es2, qs2, n + 1, s, i, e.next + 1);
            spell_tpl_rest(g, s, start, es2, qs2, e.next + 1, errs + e.errs);
        }
    }
}

pub(crate) proof fn spell_paren(g: Gram, i: int)
    requires
        0 <= i,
    ensures
        ({
            let o = g.paren(i);
            o.res is Ok ==> {
                &&& spelled(g, o.tree(), i, o.next)
                &&& o.tree().label is Paren
            }
        }),
    decreases g.rem(i), 1nat,
{
    reveal(Gram::paren);
    reveal(Gram::expr);
    let o = g.paren(i);
    let t = o.tree();
    if o.res is Ok {
        sound_paren(g, i);
        let e = g.expr(i + 1);
        sound_expr(g, i + 1);
        spell_expr(g, i + 1);
        made_paren(g, t, i, e.next);
    }
}

pub(crate) proof fn spell_array(g: Gram, i: int)
    requires
        0 <= i,
    ensures
        ({
            let o = g.array(i);
            o.res is Ok ==> {
                &&& spelled(g, o.tree(), i, o.next)
                &&& o.tree().label is Array
            }
        }),
    decreases g.rem(i), 1nat,
{
    reveal(Gram::array);
    reveal(Gram::comma_list);
    let o = g.array(i);
    let t = o.tree();
    if o.res is Ok {
        sound_array(g, i);
        let l = g.comma_list(ListKind::Elems, i + 1);
        sound_comma_list(g, ListKind::Elems, i + 1);
        spell_comma_list(g, ListKind::Elems, i + 1);
        made_array(g, t, i, l.next);
    }
}

pub(crate) proof fn spell_object(g: Gram, i: int)
    requires
        0 <= i,
    ensures
        ({
            let o = g.object(i);
            o.res is Ok ==> {
                &&& spelled(g, o.tree(), i, o.next)
                &&& o.tree().label is Object
            }
        }),
    decreases g.rem(i), 1nat,
{
    reveal(Gram::object);
    reveal(Gram::comma_list);
    let o = g.object(i);
    let t = o.tree();
    if o.res is Ok {
        sound_object(g, i);
        let l = g.comma_list(ListKind::Props, i + 1);
        sound_comma_list(g, ListKind::Props, i + 1);
        spell_comma_list(g, ListKind::Props, i + 1);
        made_object(g, t, i, l.next);
    }
}

pub(crate) proof fn spell_prop(g: Gram, i: int)
    requires
        0 <= i,
    ensures
        ({
            let o = g.prop(i);
            o.res is Ok ==> {
                &&& spelled(g, o.tree(), i, o.next)
                &&& of_kind(ListKind::Props, o.tree().label)
            }
        }),
    decreases g.rem(i), 1nat,
{
    reveal(Gram::prop);
    reveal(Gram::assign);
    reveal(Token::spec_is_ident_like);
    let o = g.prop(i);
    let t = o.tree();
    if o.res is Ok {
        sound_prop(g, i);
        if g.kind(i).is_ident_like() && g.kind(i + 1) != Token::Colon {
            lemma_ident(g, i);
        } else {
            lemma_prop_name_spelled(g, i);
            sound_assign(g, i + 2);
            spell_assign(g, i + 2);
            made_key_value_prop(g, t, i, i + 1, o.next);
        }
    }
}

} // verus!
