//! What is accepted is what was written.
//!
//! The tree that a phrase is given stands for the tokens of the phrase, each of them
//! and no others, in their order: written out again it gives the text back, but for
//! what does not matter. Its nodes span the text that they were read from, and its
//! operators group as tightly as they bind.
use crate::grammar::Gram;
use crate::laws::language::{accepted_modules_are_well_formed, language};
use crate::laws::lexing::end_comes_last;
use crate::laws::sound::{
    sound_arm, sound_expr, sound_expr_block, sound_field, sound_if_expr, sound_items,
    sound_match_pattern, sound_newtype, sound_variant, sound_zts_enum,
};
use crate::laws::spell_exprs::spell_expr;
use crate::laws::spell_parts::spell_ty;
use crate::laws::spell_stmts::spell_items;
use crate::laws::spell_zts::{
    spell_arm, spell_expr_block, spell_field, spell_if_expr, spell_match, spell_match_pattern,
    spell_newtype, spell_variant, spell_zts_enum,
};
use crate::laws::spelling::{enum_words, lemma_made_row, spelled};
use crate::token::Token;
use vstd::prelude::*;

verus! {

/// The tree of a module that is accepted stands for all tokens of the text.
pub proof fn modules_are_what_was_written(s: Seq<char>, zts: bool)
    requires
        language(s, zts).module(0).res is Ok,
    ensures
        ({
            let g = language(s, zts);
            let o = g.module(0);
            &&& spelled(g, o.tree(), 0, g.toks.len() - 1)
            &&& g.kind(g.toks.len() - 1) == Token::Eof
        }),
{
    let g = language(s, zts);
    let o = g.module(0);
    accepted_modules_are_well_formed(s, zts);
    end_comes_last(s, 0, zts, Seq::empty());
    sound_items(g, 0);
    spell_items(g, 0);
    reveal(Gram::module);
    let l = g.items(0);
    assert(g.okl(0, l));
    lemma_made_row(g, o.tree(), 0, 0, o.next, o.next);
}

/// The tree of an expression stands for its tokens.
pub proof fn expressions_are_what_was_written(g: Gram, i: int)
    requires
        0 <= i,
        g.expr(i).res is Ok,
    ensures
        i < g.expr(i).next <= g.toks.len(),
        spelled(g, g.expr(i).tree(), i, g.expr(i).next),
{
    sound_expr(g, i);
    spell_expr(g, i);
}

/// The tree of a type stands for its tokens.
pub proof fn types_are_what_was_written(g: Gram, i: int)
    requires
        0 <= i,
        g.ty(i).res is Ok,
    ensures
        spelled(g, g.ty(i).tree(), i, g.ty(i).next),
{
    spell_ty(g, i);
}

/// The trees of a match expression, of an arm and of a pattern stand for their tokens.
pub proof fn matches_are_what_was_written(g: Gram, i: int)
    requires
        0 <= i,
        g.zts,
    ensures
        ({
            let o = g.match_body(g.lo(i), g.match_header(i)->0);
            g.match_keyword(i) && g.match_header(i) is Some && o.res is Ok ==> spelled(
                g,
                o.tree(),
                i,
                o.next,
            )
        }),
        g.arm(i).res is Ok ==> spelled(g, g.arm(i).tree(), i, g.arm(i).next),
        g.match_pattern(i).res is Ok ==> spelled(
            g,
            g.match_pattern(i).tree(),
            i,
            g.match_pattern(i).next,
        ),
{
    if g.match_keyword(i) && g.match_header(i) is Some {
        spell_match(g, i);
    }
    sound_arm(g, i);
    spell_arm(g, i);
    sound_match_pattern(g, i);
    spell_match_pattern(g, i);
}

/// The trees of an `if` expression and of a block with a value stand for their tokens.
pub proof fn blocks_are_what_was_written(g: Gram, i: int)
    requires
        0 <= i,
        g.zts,
    ensures
        ({
            let o = g.if_expr(i, g.lo(i));
            o.res is Ok ==> spelled(g, o.tree(), i, o.next)
        }),
        g.expr_block(i).res is Ok ==> spelled(g, g.expr_block(i).tree(), i, g.expr_block(i).next),
{
    sound_if_expr(g, i, g.lo(i));
    spell_if_expr(g, i, g.lo(i));
    sound_expr_block(g, i);
    spell_expr_block(g, i);
}

/// The trees of a variant and of a field stand for their tokens.
pub proof fn variants_are_what_was_written(g: Gram, i: int)
    requires
        0 <= i,
        g.zts,
    ensures
        g.variant(i).res is Ok ==> spelled(g, g.variant(i).tree(), i, g.variant(i).next),
        g.field(i).res is Ok ==> spelled(g, g.field(i).tree(), i, g.field(i).next),
{
    sound_variant(g, i);
    spell_variant(g, i);
    sound_field(g, i);
    spell_field(g, i);
}

/// The tree of an enum whose words stand from `k` up to `i` stands for its tokens.
pub proof fn enums_are_what_was_written(g: Gram, k: int, i: int, is_const: bool)
    requires
        0 <= k < i,
        g.zts,
        enum_words(g, is_const, false, k, i),
    ensures
        ({
            let o = g.zts_enum(i, g.lo(k), is_const, false);
            o.res is Ok ==> spelled(g, o.tree(), k, o.next)
        }),
{
    sound_zts_enum(g, i, g.lo(k), is_const, false);
    spell_zts_enum(g, k, i, g.lo(k), is_const, false);
}

/// The tree of a newtype stands for its tokens, from the word `newtype` on.
pub proof fn newtypes_are_what_was_written(g: Gram, i: int)
    requires
        0 <= i,
        g.zts,
        g.kind(i).is_word(),
        g.text(i) == "newtype"@,
        !g.nl(i + 1),
    ensures
        ({
            let o = g.newtype(i + 1, g.lo(i), false);
            o.res is Ok ==> spelled(g, o.tree(), i, o.next)
        }),
{
    sound_newtype(g, i + 1, g.lo(i), false);
    spell_newtype(g, i + 1, g.lo(i), false);
}

} // verus!
