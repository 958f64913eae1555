//! What is accepted is what was written, for types, patterns and sequences: the tree of a
//! phrase stands for the tokens of the phrase. `spell_x` is about the phrase `x` of the
//! grammar.
use crate::grammar::{is_lit, keyword_type, Gram, ListKind, Out};
use crate::laws::made::{
    made_assign_pat, made_assign_pat_prop, made_bare_pat_prop, made_binding_ident,
    made_key_value_pat, made_object_pat, made_rest, made_ts_array, made_ts_keyword,
    made_ts_lit_type, made_ts_parenthesized, made_ts_type_ann, made_ts_type_ref, made_ts_union,
};
use crate::laws::shape::{group_sound, lemma_wf1, sound, zts_list};
use crate::laws::sound::{
    sound_assign, sound_binding, sound_comma_list, sound_elem, sound_more_types, sound_object_pat,
    sound_param, sound_pat, sound_pat_elem, sound_pat_prop, sound_ty, sound_ty_postfix,
    sound_ty_primary, sound_ty_suffix, sound_with_default,
};
use crate::laws::spell_exprs::{spell_assign, spell_prop};
use crate::laws::spell_stmts::spell_ts_member;
use crate::laws::spell_zts::{spell_arm, spell_field, spell_variant};
use crate::laws::spelling::{
    all_of_kind, is_target, lemma_absent_spelled, lemma_binding, lemma_ident, lemma_lit,
    lemma_name, lemma_row_front, lemma_row_one, of_kind, row, spelled, type_rank, Sep,
};
use crate::span::BytePos;
use crate::token::Token;
use crate::tree::{kids1, node, Label};
use vstd::prelude::*;

verus! {

pub(crate) proof fn spell_ty(g: Gram, i: int)
    requires
        0 <= i,
    ensures
        ({
            let o = g.ty(i);
            o.res is Ok ==> {
                &&& spelled(g, o.tree(), i, o.next)
                &&& type_rank(o.tree().label) >= 1
            }
        }),
    decreases g.rem(i), 7nat,
{
    reveal(Gram::ty);
    reveal(Gram::more_types);
    reveal(Gram::ty_postfix);
    let o = g.ty(i);
    let t = o.tree();
    if o.res is Ok {
        sound_ty(g, i);
        let a = g.ty_postfix(i);
        sound_ty_postfix(g, i);
        spell_ty_postfix(g, i);
        if g.kind(a.next) == Token::Pipe {
            sound_more_types(g, a.next);
            spell_more_types(g, a.next);
            let m = g.more_types(a.next);
            lemma_row_front(g, a.tree(), m.tree().kids, Sep::Pipes, i, a.next, a.next + 1, o.next);
            made_ts_union(g, t, i, o.next);
        }
    }
}

pub(crate) proof fn spell_more_types(g: Gram, i: int)
    requires
        0 <= i,
        i <= g.toks.len(),
    ensures
        ({
            let o = g.more_types(i);
            o.res is Ok ==> {
                &&& row(
                    g,
                    o.tree().kids,
                    0,
                    Sep::Pipes,
                    if g.kind(i) == Token::Pipe {
                        i + 1
                    } else {
                        i
                    },
                    o.next,
                )
                &&& g.kind(i) == Token::Pipe ==> o.tree().kids.len() > 0
                &&& forall|n: int|
                    0 <= n < o.tree().kids.len() ==> type_rank(
                        (#[trigger] o.tree().kids[n]).label,
                    ) == 2
            }
        }),
    decreases g.rem(i), 1nat,
{
    reveal(Gram::more_types);
    reveal(Gram::ty_postfix);
    let o = g.more_types(i);
    let t = o.tree();
    if o.res is Ok {
        sound_more_types(g, i);
        if g.kind(i) == Token::Pipe {
            let a = g.ty_postfix(i + 1);
            sound_ty_postfix(g, i + 1);
            spell_ty_postfix(g, i + 1);
            sound_more_types(g, a.next);
            spell_more_types(g, a.next);
            let m = g.more_types(a.next);
            let c = if m.tree().kids.len() == 0 {
                a.next
            } else {
                a.next + 1
            };
            lemma_row_front(g, a.tree(), m.tree().kids, Sep::Pipes, i + 1, a.next, c, o.next);
        } else {
            reveal(row);
        }
    }
}

pub(crate) proof fn spell_ty_postfix(g: Gram, i: int)
    requires
        0 <= i,
    ensures
        ({
            let o = g.ty_postfix(i);
            o.res is Ok ==> {
                &&& spelled(g, o.tree(), i, o.next)
                &&& type_rank(o.tree().label) == 2
            }
        }),
    decreases g.rem(i), 5nat,
{
    reveal(Gram::ty_postfix);
    reveal(Gram::ty_primary);
    let o = g.ty_postfix(i);
    let t = o.tree();
    if o.res is Ok {
        sound_ty_postfix(g, i);
        let a = g.ty_primary(i);
        sound_ty_primary(g, i);
        spell_ty_primary(g, i);
        sound_ty_suffix(g, i, g.lo(i), a);
        spell_ty_suffix(g, i, g.lo(i), a);
    }
}

pub(crate) proof fn spell_ty_suffix(g: Gram, i: int, start: BytePos, a: Out)
    requires
        0 <= a.next,
        0 <= i,
        a.res is Ok,
        sound(g, i, a),
        start == g.lo(i),
        spelled(g, a.tree(), i, a.next),
        type_rank(a.tree().label) == 2,
    ensures
        ({
            let o = g.ty_suffix(start, a);
            o.res is Ok ==> {
                &&& spelled(g, o.tree(), i, o.next)
                &&& type_rank(o.tree().label) == 2
            }
        }),
    decreases g.rem(a.next), 1nat,
{
    reveal(Gram::ty_suffix);
    let o = g.ty_suffix(start, a);
    let t = o.tree();
    if o.res is Ok {
        sound_ty_suffix(g, i, start, a);
        if g.kind(a.next) == Token::LBracket && !g.nl(a.next) {
            let y = node(Label::TsArray, g.span(start, a.next + 2), kids1(a.tree()));
            made_ts_array(g, y, i, a.next);
            let b = a.grown(y, a.next + 2);
            assert(sound(g, i, b)) by {
                broadcast use group_sound;
                lemma_wf1(y, a.tree(), g.zts);
            }
            sound_ty_suffix(g, i, start, b);
            spell_ty_suffix(g, i, start, b);
        }
    }
}

pub(crate) proof fn spell_ty_primary(g: Gram, i: int)
    requires
        0 <= i,
    ensures
        ({
            let o = g.ty_primary(i);
            o.res is Ok ==> {
                &&& spelled(g, o.tree(), i, o.next)
                &&& type_rank(o.tree().label) == 2
            }
        }),
    decreases g.rem(i), 3nat,
{
    reveal(Gram::ty_primary);
    reveal(Gram::ty);
    reveal(keyword_type);
    reveal(Token::spec_is_ident_like);
    let o = g.ty_primary(i);
    let t = o.tree();
    if o.res is Ok {
        sound_ty_primary(g, i);
        let k = g.kind(i);
        if k == Token::LParen {
            sound_ty(g, i + 1);
            spell_ty(g, i + 1);
            let a = g.ty(i + 1);
            made_ts_parenthesized(g, t, i, a.next);
        } else if k == Token::Str || k == Token::Num || k == Token::True || k == Token::False {
            reveal(is_lit);
            lemma_lit(g, i);
            made_ts_lit_type(g, t, i, i + 1);
        } else {
            reveal(keyword_type);
            reveal(Token::spec_is_ident_like);
            if keyword_type(k, g.text(i)) is Some {
                made_ts_keyword(g, t, i);
            } else {
                lemma_ident(g, i);
                made_ts_type_ref(g, t, i, i + 1);
            }
        }
    }
}

pub(crate) proof fn spell_pat(g: Gram, i: int)
    requires
        0 <= i,
    ensures
        ({
            let o = g.pat(i);
            o.res is Ok ==> {
                &&& spelled(g, o.tree(), i, o.next)
                &&& is_target(o.tree().label)
                &&& g.kind(i).is_ident_like() || o == g.object_pat(i)
            }
        }),
    decreases g.rem(i), 3nat,
{
    reveal(Gram::pat);
    reveal(Gram::object_pat);
    reveal(Token::spec_is_ident_like);
    let o = g.pat(i);
    let t = o.tree();
    if o.res is Ok {
        sound_pat(g, i);
        if g.kind(i).is_ident_like() {
            lemma_binding(g, i);
        } else {
            sound_object_pat(g, i);
            spell_object_pat(g, i);
        }
    }
}

pub(crate) proof fn spell_object_pat(g: Gram, i: int)
    requires
        0 <= i,
    ensures
        ({
            let o = g.object_pat(i);
            o.res is Ok ==> {
                &&& spelled(g, o.tree(), i, o.next)
                &&& o.tree().label is ObjectPat
            }
        }),
    decreases g.rem(i), 1nat,
{
    reveal(Gram::object_pat);
    reveal(Gram::comma_list);
    let o = g.object_pat(i);
    let t = o.tree();
    if o.res is Ok {
        sound_object_pat(g, i);
        let l = g.comma_list(ListKind::PatProps, i + 1);
        sound_comma_list(g, ListKind::PatProps, i + 1);
        spell_comma_list(g, ListKind::PatProps, i + 1);
        lemma_absent_spelled(g, o.next);
        made_object_pat(g, t, i, l.next, o.next);
    }
}

pub(crate) proof fn spell_pat_prop(g: Gram, i: int)
    requires
        0 <= i,
    ensures
        ({
            let o = g.pat_prop(i);
            o.res is Ok ==> {
                &&& spelled(g, o.tree(), i, o.next)
                &&& of_kind(ListKind::PatProps, o.tree().label)
            }
        }),
    decreases g.rem(i), 1nat,
{
    reveal(Gram::pat_prop);
    reveal(Gram::assign);
    reveal(Gram::pat);
    reveal(Gram::pat_elem);
    reveal(Token::spec_is_word);
    reveal(Token::spec_is_ident_like);
    let o = g.pat_prop(i);
    let t = o.tree();
    if o.res is Ok {
        sound_pat_prop(g, i);
        if g.kind(i) == Token::DotDotDot {
            sound_pat(g, i + 1);
            spell_pat(g, i + 1);
            made_rest(g, t, i, o.next);
        } else if g.kind(i).is_word() && g.kind(i + 1) == Token::Colon {
            sound_pat_elem(g, i + 2);
            spell_pat_elem(g, i + 2);
            lemma_name(g, i);
            made_key_value_pat(g, t, i, i + 1, o.next);
        } else if g.kind(i + 1) == Token::Eq {
            sound_assign(g, i + 2);
            spell_assign(g, i + 2);
            lemma_binding(g, i);
            made_assign_pat_prop(g, t, i, i + 1, o.next);
        } else {
            lemma_binding(g, i);
            lemma_absent_spelled(g, i + 1);
            made_bare_pat_prop(g, t, i, i + 1, i + 1);
        }
    }
}

pub(crate) proof fn spell_with_default(g: Gram, i: int, start: BytePos, p: Out)
    requires
        0 <= p.next,
        0 <= i,
        p.res is Ok,
        sound(g, i, p),
        start == g.lo(i),
        spelled(g, p.tree(), i, p.next),
        is_target(p.tree().label),
    ensures
        ({
            let o = g.with_default(start, p);
            o.res is Ok ==> {
                &&& spelled(g, o.tree(), i, o.next)
                &&& of_kind(ListKind::Params, o.tree().label)
            }
        }),
    decreases g.rem(p.next), 1nat,
{
    reveal(Gram::with_default);
    reveal(Gram::assign);
    let o = g.with_default(start, p);
    let t = o.tree();
    if o.res is Ok {
        sound_with_default(g, i, start, p);
        if g.kind(p.next) == Token::Eq {
            sound_assign(g, p.next + 1);
            spell_assign(g, p.next + 1);
            made_assign_pat(g, t, i, p.next, o.next);
        }
    }
}

pub(crate) proof fn spell_pat_elem(g: Gram, i: int)
    requires
        0 <= i,
    ensures
        ({
            let o = g.pat_elem(i);
            o.res is Ok ==> {
                &&& spelled(g, o.tree(), i, o.next)
                &&& of_kind(ListKind::Params, o.tree().label)
            }
        }),
    decreases g.rem(i), 5nat,
{
    reveal(Gram::pat_elem);
    reveal(Gram::pat);
    reveal(Gram::with_default);
    reveal(Gram::assign);
    let o = g.pat_elem(i);
    let t = o.tree();
    if o.res is Ok {
        sound_pat_elem(g, i);
        let p = g.pat(i);
        sound_pat(g, i);
        spell_pat(g, i);
        sound_with_default(g, i, g.lo(i), p);
        spell_with_default(g, i, g.lo(i), p);
    }
}

pub(crate) proof fn spell_param(g: Gram, i: int)
    requires
        0 <= i,
    ensures
        ({
            let o = g.param(i);
            o.res is Ok ==> {
                &&& spelled(g, o.tree(), i, o.next)
                &&& of_kind(ListKind::Params, o.tree().label)
            }
        }),
    decreases g.rem(i), 7nat,
{
    reveal(Gram::param);
    reveal(Gram::binding);
    reveal(Gram::with_default);
    reveal(Gram::assign);
    let o = g.param(i);
    let t = o.tree();
    if o.res is Ok {
        sound_param(g, i);
        let p = g.binding(i);
        sound_binding(g, i);
        spell_binding(g, i);
        sound_with_default(g, i, g.lo(i), p);
        spell_with_default(g, i, g.lo(i), p);
    }
}

pub(crate) proof fn spell_binding(g: Gram, i: int)
    requires
        0 <= i,
    ensures
        ({
            let o = g.binding(i);
            o.res is Ok ==> {
                &&& spelled(g, o.tree(), i, o.next)
                &&& is_target(o.tree().label)
            }
        }),
    decreases g.rem(i), 5nat,
{
    reveal(Gram::binding);
    reveal(Gram::pat);
    let o = g.binding(i);
    let t = o.tree();
    if o.res is Ok {
        sound_binding(g, i);
        let p = g.pat(i);
        sound_pat(g, i);
        spell_pat(g, i);
        if g.kind(p.next) == Token::Colon {
            sound_ty(g, p.next + 1);
            spell_ty(g, p.next + 1);
            let y = g.ty(p.next + 1);
            let ann = node(Label::TsTypeAnn, g.span(g.lo(p.next), y.next), kids1(y.tree()));
            made_ts_type_ann(g, ann, p.next, y.next);
            if g.kind(i).is_ident_like() {
                reveal(Token::spec_is_ident_like);
                lemma_ident(g, i);
                made_binding_ident(g, t, i, i + 1, o.next);
            } else {
                reveal(Gram::object_pat);
                reveal(Gram::comma_list);
                let l = g.comma_list(ListKind::PatProps, i + 1);
                sound_comma_list(g, ListKind::PatProps, i + 1);
                spell_comma_list(g, ListKind::PatProps, i + 1);
                made_object_pat(g, t, i, l.next, o.next);
            }
        }
    }
}

pub(crate) proof fn spell_elem(g: Gram, k: ListKind, i: int)
    requires
        0 <= i,
        zts_list(k) ==> g.zts,
    ensures
        ({
            let o = g.elem(k, i);
            o.res is Ok ==> {
                &&& spelled(g, o.tree(), i, o.next)
                &&& of_kind(k, o.tree().label)
            }
        }),
    decreases g.rem(i), 17nat,
{
    g.lemma_elem(k, i);
    let o = g.elem(k, i);
    let t = o.tree();
    if o.res is Ok {
        sound_elem(g, k, i);
        match k {
            ListKind::Args | ListKind::Elems => spell_assign(g, i),
            ListKind::Props => spell_prop(g, i),
            ListKind::Params => spell_param(g, i),
            ListKind::PatProps => spell_pat_prop(g, i),
            ListKind::Arms => spell_arm(g, i),
            ListKind::Variants => spell_variant(g, i),
            ListKind::Fields => spell_field(g, i),
            ListKind::TsMembers => spell_ts_member(g, i),
        }
    }
}

pub(crate) proof fn spell_comma_list(g: Gram, k: ListKind, i: int)
    requires
        0 <= i,
        zts_list(k) ==> g.zts,
    ensures
        ({
            let o = g.comma_list(k, i);
            o.res is Ok ==> {
                &&& row(g, o.tree().kids, 0, Sep::Closed, i, o.next)
                &&& all_of_kind(k, o.tree().kids)
            }
        }),
    decreases g.rem(i), 19nat,
{
    reveal(Gram::comma_list);
    reveal(Gram::elem);
    let o = g.comma_list(k, i);
    let t = o.tree();
    if o.res is Ok {
        sound_comma_list(g, k, i);
        if g.kind(i) == k.close() {
            reveal(row);
        } else {
            let e = g.elem(k, i);
            sound_elem(g, k, i);
            spell_elem(g, k, i);
            if g.kind(e.next) == Token::Comma {
                sound_comma_list(g, k, e.next + 1);
                spell_comma_list(g, k, e.next + 1);
                let m = g.comma_list(k, e.next + 1);
                let ts = m.tree().kids;
                lemma_row_front(g, e.tree(), ts, Sep::Closed, i, e.next, e.next + 1, o.next);
            } else {
                lemma_row_one(g, e.tree(), Sep::Closed, i, e.next);
            }
        }
    }
}

} // verus!
