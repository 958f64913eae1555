//! What is accepted is what was written, for what zts adds: the tree of a
//! phrase stands for the tokens of the phrase. `spell_x` is about the phrase `x` of the
//! grammar.
use crate::grammar::{is_lit, Gram, ListKind};
use crate::laws::made::{
    made_bare_zts_newtype, made_match, made_match_arm, made_match_lit, made_match_neg_lit,
    made_match_variant, made_match_wildcard, made_zts_enum, made_zts_enum_field,
    made_zts_enum_variant, made_zts_expr_block, made_zts_expr_block_semi, made_zts_if,
    made_zts_newtype,
};
use crate::laws::shape::lemma_arm_starter;
use crate::laws::sound::{
    sound_any_enum, sound_arm, sound_arm_body, sound_assign, sound_block, sound_comma_list,
    sound_expr, sound_expr_block, sound_field, sound_if_expr, sound_match_pattern, sound_newtype,
    sound_object_pat, sound_stmts, sound_ts_enum, sound_ty, sound_variant, sound_zts_enum,
};
use crate::laws::spell_exprs::{spell_assign, spell_expr};
use crate::laws::spell_parts::{spell_comma_list, spell_object_pat, spell_ty};
use crate::laws::spell_stmts::{spell_stmts, spell_ts_enum};
use crate::laws::spelling::{
    cuts, enum_words, lemma_expr_stmt, lemma_ident, lemma_lit, lemma_name, lemma_row_last, rank,
    row, spelled, stop, Sep,
};
use crate::span::BytePos;
use crate::token::Token;
use vstd::prelude::*;

verus! {

pub(crate) proof fn spell_match(g: Gram, i: int)
    requires
        0 <= i,
        g.match_keyword(i),
        g.match_header(i) is Some,
    ensures
        ({
            let o = g.match_body(g.lo(i), g.match_header(i)->0);
            o.res is Ok ==> {
                &&& spelled(g, o.tree(), i, o.next)
                &&& o.tree().label is Match
            }
        }),
    decreases g.rem(i), 1nat,
{
    reveal(Gram::match_keyword);
    reveal(Gram::match_header);
    reveal(Gram::match_body);
    reveal(Gram::expr);
    reveal(Gram::comma_list);
    reveal(Token::spec_is_word);
    let h = g.match_header(i)->0;
    let o = g.match_body(g.lo(i), h);
    if o.res is Ok {
        let t = o.tree();
        let d = g.expr(i + 2);
        sound_expr(g, i + 2);
        spell_expr(g, i + 2);
        lemma_arm_starter(g.kind(h.next + 1));
        let l = g.comma_list(ListKind::Arms, h.next + 1);
        sound_comma_list(g, ListKind::Arms, h.next + 1);
        spell_comma_list(g, ListKind::Arms, h.next + 1);
        made_match(g, t, i, d.next, l.next);
    }
}

pub(crate) proof fn spell_arm(g: Gram, i: int)
    requires
        0 <= i,
        g.zts,
    ensures
        ({
            let o = g.arm(i);
            o.res is Ok ==> {
                &&& spelled(g, o.tree(), i, o.next)
                &&& o.tree().label is MatchArm
            }
        }),
    decreases g.rem(i), 15nat,
{
    reveal(Gram::arm);
    reveal(Gram::arm_body);
    reveal(Gram::assign);
    reveal(Gram::expr_block);
    reveal(Gram::match_pattern);
    let o = g.arm(i);
    let t = o.tree();
    if o.res is Ok {
        sound_arm(g, i);
        let p = g.match_pattern(i);
        sound_match_pattern(g, i);
        spell_match_pattern(g, i);
        sound_arm_body(g, p.next + 1);
        spell_arm_body(g, p.next + 1);
        made_match_arm(g, t, i, p.next, o.next);
    }
}

pub(crate) proof fn spell_arm_body(g: Gram, i: int)
    requires
        0 <= i,
        g.zts,
    ensures
        ({
            let o = g.arm_body(i);
            o.res is Ok ==> {
                &&& spelled(g, o.tree(), i, o.next)
                &&& o.tree().label is ZtsExprBlock || rank(o.tree().label) >= -1
                &&& o.tree().label is ZtsExprBlock <==> g.kind(i) == Token::LBrace
            }
        }),
    decreases g.rem(i), 15nat,
{
    reveal(Gram::arm_body);
    reveal(Gram::assign);
    reveal(Gram::expr_block);
    let o = g.arm_body(i);
    let t = o.tree();
    if o.res is Ok {
        sound_arm_body(g, i);
        if g.kind(i) != Token::LBrace {
            sound_assign(g, i);
            spell_assign(g, i);
        } else {
            sound_expr_block(g, i);
            spell_expr_block(g, i);
        }
    }
}

pub(crate) proof fn spell_match_pattern(g: Gram, i: int)
    requires
        0 <= i,
        g.zts,
    ensures
        ({
            let o = g.match_pattern(i);
            o.res is Ok ==> {
                &&& spelled(g, o.tree(), i, o.next)
                &&& o.tree().label is MatchWildcard || o.tree().label is MatchLit
                    || o.tree().label is MatchVariant
            }
        }),
    decreases g.rem(i), 3nat,
{
    reveal(Gram::match_pattern);
    reveal(Gram::object_pat);
    reveal(Token::spec_is_word);
    let o = g.match_pattern(i);
    let t = o.tree();
    if o.res is Ok {
        sound_match_pattern(g, i);
        let k = g.kind(i);
        if k.is_word() && g.text(i) == "_"@ && g.kind(i + 1) == Token::Arrow {
            made_match_wildcard(g, t, i);
        } else if k == Token::Str || k == Token::Num || k == Token::True || k == Token::False || k
            == Token::Null {
            reveal(is_lit);
            lemma_lit(g, i);
            made_match_lit(g, t, i, i + 1);
        } else if k == Token::Minus {
            reveal(is_lit);
            lemma_lit(g, i + 1);
            made_match_neg_lit(g, t, i, i + 2);
        } else {
            lemma_ident(g, i);
            sound_object_pat(g, i + 1);
            spell_object_pat(g, i + 1);
            made_match_variant(g, t, i, i + 1, o.next);
        }
    }
}

#[verifier::rlimit(30)]
pub(crate) proof fn spell_if_expr(g: Gram, i: int, start: BytePos)
    requires
        0 <= i,
        g.zts,
        start == g.lo(i),
    ensures
        ({
            let o = g.if_expr(i, start);
            o.res is Ok ==> {
                &&& spelled(g, o.tree(), i, o.next)
                &&& o.tree().label is ZtsIf
            }
        }),
    decreases g.rem(i), 1nat,
{
    reveal(Gram::if_expr);
    reveal(Gram::expr);
    reveal(Gram::expr_block);
    let o = g.if_expr(i, start);
    let t = o.tree();
    if o.res is Ok {
        sound_if_expr(g, i, start);
        let c = g.expr(i + 2);
        sound_expr(g, i + 2);
        spell_expr(g, i + 2);
        let y = g.expr_block(c.next + 1);
        sound_expr_block(g, c.next + 1);
        spell_expr_block(g, c.next + 1);
        if g.kind(y.next + 1) == Token::If {
            sound_if_expr(g, y.next + 1, g.lo(y.next + 1));
            spell_if_expr(g, y.next + 1, g.lo(y.next + 1));
        } else {
            sound_expr_block(g, y.next + 1);
            spell_expr_block(g, y.next + 1);
        }
        made_zts_if(g, t, i, c.next, y.next, o.next);
    }
}

pub(crate) proof fn spell_expr_block(g: Gram, i: int)
    requires
        0 <= i,
        g.zts,
    ensures
        ({
            let o = g.expr_block(i);
            o.res is Ok ==> {
                &&& spelled(g, o.tree(), i, o.next)
                &&& o.tree().label is ZtsExprBlock
            }
        }),
    decreases g.rem(i), 3nat,
{
    reveal(Gram::expr_block);
    reveal(Gram::block);
    reveal(Gram::stmts);
    let o = g.expr_block(i);
    let t = o.tree();
    if o.res is Ok {
        sound_expr_block(g, i);
        sound_block(g, i);
        sound_stmts(g, i + 1);
        spell_stmts(g, i + 1);
        let l = g.stmts(i + 1);
        let ss = l.tree().kids;
        lemma_row_last(g, ss, 0, i + 1, l.next);
        let m = choose|m: int| #[trigger]
            cuts(m, m) && row(g, ss.drop_last(), 0, Sep::Nothing, i + 1, m) && spelled(
                g,
                ss.last(),
                m,
                l.next,
            );
        lemma_expr_stmt(g, ss.last(), m, l.next);
        let b = choose|b: int| #[trigger]
            cuts(b, b) && spelled(g, ss.last().kids[0], m, b) && stop(g, b, l.next);
        if b == l.next {
            made_zts_expr_block(g, t, i, m, b);
        } else {
            made_zts_expr_block_semi(g, t, i, m, b);
        }
    }
}

pub(crate) proof fn spell_any_enum(
    g: Gram,
    k: int,
    i: int,
    start: BytePos,
    is_const: bool,
    declare: bool,
)
    requires
        0 <= i,
        0 <= k < i,
        start == g.lo(k),
        enum_words(g, is_const, declare, k, i),
    ensures
        ({
            let o = g.any_enum(i, start, is_const, declare);
            o.res is Ok ==> {
                &&& spelled(g, o.tree(), k, o.next)
            }
        }),
    decreases g.rem(i), 17nat,
{
    reveal(Gram::any_enum);
    reveal(Gram::ts_enum);
    reveal(Gram::zts_enum);
    let o = g.any_enum(i, start, is_const, declare);
    let t = o.tree();
    if o.res is Ok {
        sound_any_enum(g, i, start, is_const, declare);
        if g.zts {
            sound_zts_enum(g, i, start, is_const, declare);
            spell_zts_enum(g, k, i, start, is_const, declare);
        } else {
            sound_ts_enum(g, i, start, is_const, declare);
            spell_ts_enum(g, k, i, start, is_const, declare);
        }
    }
}

pub(crate) proof fn spell_zts_enum(
    g: Gram,
    k: int,
    i: int,
    start: BytePos,
    is_const: bool,
    declare: bool,
)
    requires
        0 <= i,
        g.zts,
        0 <= k < i,
        start == g.lo(k),
        enum_words(g, is_const, declare, k, i),
    ensures
        ({
            let o = g.zts_enum(i, start, is_const, declare);
            o.res is Ok ==> {
                &&& spelled(g, o.tree(), k, o.next)
                &&& o.tree().label is ZtsEnum
            }
        }),
    decreases g.rem(i), 1nat,
{
    reveal(Gram::zts_enum);
    reveal(Gram::comma_list);
    reveal(Token::spec_is_word);
    let o = g.zts_enum(i, start, is_const, declare);
    let t = o.tree();
    if o.res is Ok {
        sound_zts_enum(g, i, start, is_const, declare);
        lemma_ident(g, i);
        let l = g.comma_list(ListKind::Variants, i + 2);
        sound_comma_list(g, ListKind::Variants, i + 2);
        spell_comma_list(g, ListKind::Variants, i + 2);
        made_zts_enum(g, t, k, i, i + 1, l.next);
    }
}

pub(crate) proof fn spell_variant(g: Gram, i: int)
    requires
        0 <= i,
        g.zts,
    ensures
        ({
            let o = g.variant(i);
            o.res is Ok ==> {
                &&& spelled(g, o.tree(), i, o.next)
                &&& o.tree().label is ZtsEnumVariant
            }
        }),
    decreases g.rem(i), 1nat,
{
    reveal(Gram::variant);
    reveal(Gram::comma_list);
    reveal(Token::spec_is_word);
    let o = g.variant(i);
    let t = o.tree();
    if o.res is Ok {
        sound_variant(g, i);
        lemma_ident(g, i);
        let l = g.comma_list(ListKind::Fields, i + 2);
        sound_comma_list(g, ListKind::Fields, i + 2);
        spell_comma_list(g, ListKind::Fields, i + 2);
        made_zts_enum_variant(g, t, i, i + 1, l.next);
    }
}

pub(crate) proof fn spell_field(g: Gram, i: int)
    requires
        0 <= i,
        g.zts,
    ensures
        ({
            let o = g.field(i);
            o.res is Ok ==> {
                &&& spelled(g, o.tree(), i, o.next)
                &&& o.tree().label is ZtsEnumField
            }
        }),
{
    reveal(Gram::field);
    reveal(Token::spec_is_word);
    let o = g.field(i);
    let t = o.tree();
    if o.res is Ok {
        sound_field(g, i);
        lemma_name(g, i);
        sound_ty(g, i + 2);
        spell_ty(g, i + 2);
        made_zts_enum_field(g, t, i, i + 1, o.next);
    }
}

pub(crate) proof fn spell_newtype(g: Gram, i: int, start: BytePos, declare: bool)
    requires
        0 <= i,
        g.zts,
        0 < i,
        start == g.lo(i - 1),
        g.kind(i - 1).is_word(),
        g.text(i - 1) == "newtype"@,
        !g.nl(i),
    ensures
        ({
            let o = g.newtype(i, start, declare);
            o.res is Ok ==> {
                &&& spelled(g, o.tree(), i - 1, o.next)
                &&& o.tree().label is ZtsNewtype
            }
        }),
{
    reveal(Gram::newtype);
    reveal(Token::spec_is_word);
    let o = g.newtype(i, start, declare);
    let t = o.tree();
    if o.res is Ok {
        sound_newtype(g, i, start, declare);
        lemma_ident(g, i);
        sound_ty(g, i + 2);
        spell_ty(g, i + 2);
        let y = g.ty(i + 2);
        if o.next == y.next {
            made_bare_zts_newtype(g, t, i - 1, i + 1, y.next);
        } else {
            made_zts_newtype(g, t, i - 1, i + 1, y.next);
        }
    }
}

} // verus!
