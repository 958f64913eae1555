//! Where nodes start and end.
use crate::ast::decl::Decl;
use crate::error::{Error, PResult, SyntaxError};
use crate::grammar::{Gram, ListKind, Out};
use crate::laws::language::const_enums_recover;
use crate::laws::sound::{
    sound_arm, sound_arm_body, sound_block, sound_comma_list, sound_expr, sound_expr_block,
    sound_field, sound_if_expr, sound_match_body, sound_match_header, sound_match_pattern,
    sound_newtype, sound_object_pat, sound_ty, sound_variant, sound_zts_enum,
};
use crate::parser::input::{yields, State};
use crate::span::Span;
use crate::token::{well_lexed, Token};
use vstd::prelude::*;

verus! {

/// Whether a phrase that started with the token at `k` spans the text from there
/// to the end of its last token.
pub open spec fn spans_its_text(g: Gram, k: int, o: Out) -> bool {
    o.res is Ok ==> {
        &&& k < o.next <= g.toks.len()
        &&& o.tree().span.lo == g.lo(k)
        &&& o.tree().span.hi == g.end(o.next)
    }
}

/// A span that is made from the start of a token and the end of a later one, or of
/// the same one, starts and ends there.
pub proof fn spans_start_where_they_are_told(g: Gram, k: int, n: int)
    requires
        well_lexed(g.toks),
        0 <= k < n <= g.toks.len(),
    ensures
        g.span(g.lo(k), n) == (Span { lo: g.lo(k), hi: g.end(n) }),
{
    assert(g.toks[k].span.lo.0 <= g.toks[n - 1].span.hi.0);
}

/// An enum and a newtype span the text from the token at `k`, where their
/// declaration starts.
pub proof fn declarations_span_their_text(g: Gram, k: int, i: int, is_const: bool)
    requires
        well_lexed(g.toks),
        g.zts,
        0 <= k < i,
    ensures
        spans_its_text(g, k, g.zts_enum(i, g.lo(k), is_const, false)),
        spans_its_text(g, k, g.newtype(i, g.lo(k), false)),
{
    let e = g.zts_enum(i, g.lo(k), is_const, false);
    let t = g.newtype(i, g.lo(k), false);
    sound_zts_enum(g, i, g.lo(k), is_const, false);
    sound_newtype(g, i, g.lo(k), false);
    if e.res is Ok {
        spans_start_where_they_are_told(g, k, e.next);
        assert(spans_its_text(g, k, e)) by {
            sound_comma_list(g, ListKind::Variants, i + 2);
            reveal(Gram::zts_enum);
            reveal(Gram::comma_list);
            reveal(Token::spec_is_word);
        }
    }
    if t.res is Ok {
        spans_start_where_they_are_told(g, k, t.next);
        assert(spans_its_text(g, k, t)) by {
            sound_ty(g, i + 2);
            reveal(Gram::newtype);
            reveal(Token::spec_is_word);
        }
    }
}

/// A variant and a field span their text.
pub proof fn variants_span_their_text(g: Gram, i: int)
    requires
        well_lexed(g.toks),
        g.zts,
        0 <= i,
    ensures
        spans_its_text(g, i, g.variant(i)),
        spans_its_text(g, i, g.field(i)),
{
    let v = g.variant(i);
    let f = g.field(i);
    sound_variant(g, i);
    sound_field(g, i);
    if v.res is Ok {
        spans_start_where_they_are_told(g, i, v.next);
        assert(spans_its_text(g, i, v)) by {
            sound_comma_list(g, ListKind::Fields, i + 2);
            reveal(Gram::variant);
            reveal(Gram::comma_list);
            reveal(Token::spec_is_word);
        }
    }
    if f.res is Ok {
        spans_start_where_they_are_told(g, i, f.next);
        assert(spans_its_text(g, i, f)) by {
            sound_ty(g, i + 2);
            reveal(Gram::field);
            reveal(Token::spec_is_word);
        }
    }
}

/// A match expression spans the text from its first word.
pub proof fn matches_span_their_text(g: Gram, i: int)
    requires
        well_lexed(g.toks),
        g.zts,
        0 <= i,
        g.kind(i) == Token::Ident,
        g.match_header(i) is Some,
    ensures
        spans_its_text(g, i, g.match_body(g.lo(i), g.match_header(i)->0)),
{
    let d = g.match_header(i)->0;
    let o = g.match_body(g.lo(i), d);
    sound_match_header(g, i);
    sound_match_body(g, i, g.lo(i), d);
    if o.res is Ok {
        spans_start_where_they_are_told(g, i, o.next);
        sound_comma_list(g, ListKind::Arms, d.next + 1);
        reveal(Gram::match_body);
        reveal(Gram::comma_list);
    }
}

/// An arm and its pattern span their text.
pub proof fn arms_span_their_text(g: Gram, i: int)
    requires
        well_lexed(g.toks),
        g.zts,
        0 <= i,
    ensures
        spans_its_text(g, i, g.arm(i)),
        spans_its_text(g, i, g.match_pattern(i)),
{
    let a = g.arm(i);
    let p = g.match_pattern(i);
    sound_arm(g, i);
    sound_match_pattern(g, i);
    if p.res is Ok {
        spans_start_where_they_are_told(g, i, p.next);
        assert(spans_its_text(g, i, p)) by {
            sound_object_pat(g, i + 1);
            reveal(Gram::match_pattern);
            reveal(Gram::object_pat);
            reveal(Token::spec_is_word);
        }
    }
    if a.res is Ok {
        spans_start_where_they_are_told(g, i, a.next);
        assert(spans_its_text(g, i, a)) by {
            if p.res is Ok {
                sound_arm_body(g, p.next + 1);
            }
            reveal(Gram::arm);
            reveal(Gram::match_pattern);
            reveal(Gram::arm_body);
        }
    }
}

/// An `if` expression and a block with a value span their text.
pub proof fn blocks_span_their_text(g: Gram, i: int)
    requires
        well_lexed(g.toks),
        g.zts,
        0 <= i,
    ensures
        spans_its_text(g, i, g.if_expr(i, g.lo(i))),
        spans_its_text(g, i, g.expr_block(i)),
{
    let f = g.if_expr(i, g.lo(i));
    let b = g.expr_block(i);
    sound_if_expr(g, i, g.lo(i));
    sound_expr_block(g, i);
    if b.res is Ok {
        spans_start_where_they_are_told(g, i, b.next);
        assert(spans_its_text(g, i, b)) by {
            sound_block(g, i);
            reveal(Gram::expr_block);
            reveal(Gram::block);
        }
    }
    if f.res is Ok {
        spans_start_where_they_are_told(g, i, f.next);
        lemma_if_span(g, i);
    }
}

proof fn lemma_if_span(g: Gram, i: int)
    requires
        g.zts,
        0 <= i,
        g.if_expr(i, g.lo(i)).res is Ok,
    ensures
        g.if_expr(i, g.lo(i)).tree().span == g.span(g.lo(i), g.if_expr(i, g.lo(i)).next),
{
    sound_expr(g, i + 2);
    let t = g.expr(i + 2);
    if g.kind(i) == Token::If && g.kind(i + 1) == Token::LParen && g.ok(i + 2, t) && g.kind(t.next)
        == Token::RParen {
        sound_expr_block(g, t.next + 1);
        let c = g.expr_block(t.next + 1);
        if g.ok(t.next + 1, c) && g.kind(c.next) == Token::Else {
            sound_expr_block(g, c.next + 1);
            sound_if_expr(g, c.next + 1, g.lo(c.next + 1));
        }
    }
    reveal(Gram::if_expr);
    reveal(Gram::expr);
    reveal(Gram::expr_block);
}

/// Two parsers in the same state, one behind `enum` and one behind `const enum` at
/// the token `k`: they return the same declaration or the same error, end at the
/// same token, and report the same errors, but for one more in front, that of the
/// `const enum`, which starts where the declaration does.
pub proof fn parsers_recover_from_const_enums(
    pre: State,
    k: int,
    post: State,
    r: PResult<Decl>,
    const_post: State,
    const_r: PResult<Decl>,
)
    requires
        well_lexed(pre.toks),
        0 <= k < pre.pos <= pre.toks.len(),
        yields(pre, post, r, pre.g().zts_enum(pre.pos, pre.g().lo(k), false, false)),
        yields(pre, const_post, const_r, pre.g().zts_enum(pre.pos, pre.g().lo(k), true, false)),
    ensures
        match (r, const_r) {
            (Ok(a), Ok(b)) => a.tree() == b.tree(),
            (Err(a), Err(b)) => a == b,
            _ => false,
        },
        const_post.pos == post.pos,
        ({
            let errs = pre.g().zts_enum(pre.pos, pre.g().lo(k), false, false).errs;
            let one = Error {
                span: Span { lo: pre.g().lo(k), hi: pre.g().end(pre.pos) },
                error: SyntaxError::ZtsConstEnum,
            };
            &&& post.errs == pre.errs + errs
            &&& const_post.errs == pre.errs + (seq![one] + errs)
        }),
{
    const_enums_recover(pre.g(), pre.pos, pre.g().lo(k));
    spans_start_where_they_are_told(pre.g(), k, pre.pos);
}

} // verus!
