//! Which error a text that is refused is refused with: that of its first part that is
//! refused, or that of the token that is missing.
use crate::error::{Error, SyntaxError};
use crate::grammar::{ambiguous_block, Gram, ListKind};
use crate::laws::meaning::{alternative, literal_ahead};
use crate::laws::shape::zts_list;
use crate::laws::sound::{
    sound_arm_body, sound_block, sound_comma_list, sound_elem, sound_expr, sound_expr_block,
    sound_if_expr, sound_match_pattern, sound_object_pat, sound_ty,
};
use crate::span::{BytePos, Span};
use crate::token::Token;
use crate::tree::Tree;
use vstd::prelude::*;

verus! {

/// The error that a token is missing at an index.
pub open spec fn missing(g: Gram, t: Token, i: int) -> Result<Tree, Error> {
    Err(Error { span: g.toks[i].span, error: SyntaxError::Expected(t, g.kind(i)) })
}

/// The error that a word is missing at an index.
pub open spec fn no_word(g: Gram, i: int) -> Result<Tree, Error> {
    Err(Error { span: g.toks[i].span, error: SyntaxError::ExpectedIdent })
}

/// An error of the text from a position up to the token at an index.
pub open spec fn wrong(g: Gram, start: BytePos, i: int, error: SyntaxError) -> Result<
    Tree,
    Error,
> {
    Err(Error { span: Span::between(start, g.toks[i - 1].span.hi), error })
}

/// A field is refused for its name, for the colon, or for its type.
pub proof fn fields_are_refused_for_their_parts(g: Gram, i: int)
    requires
        0 <= i,
        g.zts,
        g.field(i).res is Err,
    ensures
        g.field(i).res == if !g.kind(i).is_word() {
            no_word(g, i)
        } else if g.kind(i + 1) != Token::Colon {
            missing(g, Token::Colon, i + 1)
        } else {
            g.ty(i + 2).res
        },
{
    reveal(Gram::field);
    reveal(Token::spec_is_word);
    sound_ty(g, i + 2);
}

/// A variant is refused for its name, for the braces that it needs, or for its fields.
pub proof fn variants_are_refused_for_their_parts(g: Gram, i: int)
    requires
        0 <= i,
        g.zts,
        g.variant(i).res is Err,
    ensures
        ({
            let l = g.comma_list(ListKind::Fields, i + 2);
            g.variant(i).res == if !g.kind(i).is_word() {
                no_word(g, i)
            } else if g.kind(i + 1) != Token::LBrace {
                wrong(g, g.toks[i].span.lo, i + 1, SyntaxError::ZtsEnumVariantBody)
            } else if l.res is Err {
                l.res
            } else {
                missing(g, Token::RBrace, l.next)
            }
        }),
{
    reveal(Gram::variant);
    reveal(Gram::comma_list);
    reveal(Token::spec_is_word);
    sound_comma_list(g, ListKind::Fields, i + 2);
}

/// An enum is refused behind `declare`, or else for its name, for its braces, or for
/// its variants.
pub proof fn enums_are_refused_for_their_parts(g: Gram, i: int, start: BytePos, declare: bool)
    requires
        0 < i <= g.toks.len(),
        g.zts,
        g.zts_enum(i, start, false, declare).res is Err,
    ensures
        ({
            let l = g.comma_list(ListKind::Variants, i + 2);
            g.zts_enum(i, start, false, declare).res == if declare {
                wrong(g, start, i, SyntaxError::ZtsDeclareEnum)
            } else if !g.kind(i).is_word() {
                no_word(g, i)
            } else if g.kind(i + 1) != Token::LBrace {
                missing(g, Token::LBrace, i + 1)
            } else if l.res is Err {
                l.res
            } else {
                missing(g, Token::RBrace, l.next)
            }
        }),
{
    reveal(Gram::zts_enum);
    reveal(Gram::comma_list);
    reveal(Token::spec_is_word);
    sound_comma_list(g, ListKind::Variants, i + 2);
}

/// A newtype is refused behind `declare`, or else for its name, for the `=`, for its
/// type, or because the statement does not end.
pub proof fn newtypes_are_refused_for_their_parts(g: Gram, i: int, start: BytePos, declare: bool)
    requires
        0 < i <= g.toks.len(),
        g.zts,
        g.newtype(i, start, declare).res is Err,
    ensures
        ({
            let y = g.ty(i + 2);
            g.newtype(i, start, declare).res == if declare {
                wrong(g, start, i, SyntaxError::ZtsDeclareNewtype)
            } else if !g.kind(i).is_word() {
                no_word(g, i)
            } else if g.kind(i + 1) != Token::Eq {
                missing(g, Token::Eq, i + 1)
            } else if y.res is Err {
                y.res
            } else {
                Err(Error { span: g.toks[y.next].span, error: SyntaxError::ExpectedSemi })
            }
        }),
{
    reveal(Gram::newtype);
    reveal(Token::spec_is_word);
    sound_ty(g, i + 2);
}

/// A sequence is refused for the first of its elements that is refused.
pub proof fn sequences_are_refused_for_their_elements(g: Gram, k: ListKind, i: int)
    requires
        0 <= i,
        zts_list(k) ==> g.zts,
        g.comma_list(k, i).res is Err,
    ensures
        ({
            let e = g.elem(k, i);
            &&& g.kind(i) != k.close()
            &&& e.res is Err ==> g.comma_list(k, i).res == e.res
            &&& e.res is Ok ==> g.kind(e.next) == Token::Comma && g.comma_list(k, i).res
                == g.comma_list(k, e.next + 1).res
        }),
{
    reveal(Gram::comma_list);
    reveal(Gram::elem);
    sound_elem(g, k, i);
}

/// A pattern is refused for the number behind its minus, for its name, or for what it
/// binds.
pub proof fn patterns_are_refused_for_their_parts(g: Gram, i: int)
    requires
        0 <= i,
        g.zts,
        g.match_pattern(i).res is Err,
    ensures
        !literal_ahead(g, i),
        g.match_pattern(i).res == if g.kind(i) == Token::Minus {
            wrong(g, g.toks[i].span.lo, i + 1, SyntaxError::TS1109)
        } else if !g.kind(i).is_word() {
            no_word(g, i)
        } else if g.kind(i + 1) != Token::LBrace {
            missing(g, Token::LBrace, i + 1)
        } else {
            g.object_pat(i + 1).res
        },
{
    reveal(Gram::match_pattern);
    reveal(Gram::object_pat);
    reveal(Gram::comma_list);
    reveal(Token::spec_is_word);
    sound_object_pat(g, i + 1);
}

/// An arm is refused for its pattern, for the `=>`, or for its body.
pub proof fn arms_are_refused_for_their_parts(g: Gram, i: int)
    requires
        0 <= i,
        g.zts,
        g.arm(i).res is Err,
    ensures
        ({
            let p = g.match_pattern(i);
            g.arm(i).res == if p.res is Err {
                p.res
            } else if g.kind(p.next) != Token::Arrow {
                missing(g, Token::Arrow, p.next)
            } else {
                g.arm_body(p.next + 1).res
            }
        }),
{
    reveal(Gram::arm);
    reveal(Gram::arm_body);
    reveal(Gram::match_pattern);
    sound_match_pattern(g, i);
    if g.match_pattern(i).res is Ok {
        sound_arm_body(g, g.match_pattern(i).next + 1);
    }
}

/// The body of an arm is refused for its expression or its block, or because the block
/// could be read as an object literal.
pub proof fn arm_bodies_are_refused_for_their_parts(g: Gram, i: int)
    requires
        0 <= i,
        g.zts,
        g.arm_body(i).res is Err,
    ensures
        ({
            let b = g.expr_block(i);
            g.arm_body(i).res == if g.kind(i) != Token::LBrace {
                g.assign(i).res
            } else if b.res is Err {
                b.res
            } else {
                Err(Error { span: b.tree().span, error: SyntaxError::ZtsAmbiguousArmBody })
            }
        }),
        g.kind(i) == Token::LBrace && g.expr_block(i).res is Ok ==> ambiguous_block(
            g.expr_block(i).tree(),
        ),
{
    reveal(Gram::arm_body);
    reveal(Gram::assign);
    reveal(Gram::expr_block);
    sound_expr_block(g, i);
}

/// A match expression is refused for its arms, or for the brace behind them.
pub proof fn matches_are_refused_for_their_arms(g: Gram, i: int)
    requires
        0 <= i,
        g.zts,
        g.match_header(i) is Some,
        g.match_body(g.lo(i), g.match_header(i)->0).res is Err,
    ensures
        ({
            let d = g.expr(i + 2);
            let l = g.comma_list(ListKind::Arms, d.next + 2);
            g.match_body(g.lo(i), g.match_header(i)->0).res == if l.res is Err {
                l.res
            } else {
                missing(g, Token::RBrace, l.next)
            }
        }),
{
    reveal(Gram::match_header);
    reveal(Gram::match_body);
    reveal(Gram::expr);
    reveal(Gram::comma_list);
    sound_expr(g, i + 2);
    sound_comma_list(g, ListKind::Arms, g.expr(i + 2).next + 2);
}

/// An `if` expression is refused for its parentheses, its test, its blocks, or because
/// it has no `else`.
pub proof fn if_expressions_are_refused_for_their_parts(g: Gram, i: int, start: BytePos)
    requires
        0 <= i,
        g.zts,
        g.if_expr(i, start).res is Err,
    ensures
        ({
            let t = g.expr(i + 2);
            let c = g.expr_block(t.next + 1);
            let a = alternative(g, c.next + 1);
            g.if_expr(i, start).res == if g.kind(i) != Token::If {
                missing(g, Token::If, i)
            } else if g.kind(i + 1) != Token::LParen {
                missing(g, Token::LParen, i + 1)
            } else if t.res is Err {
                t.res
            } else if g.kind(t.next) != Token::RParen {
                missing(g, Token::RParen, t.next)
            } else if c.res is Err {
                c.res
            } else if g.kind(c.next) != Token::Else {
                wrong(g, start, c.next, SyntaxError::ZtsIfWithoutElse)
            } else {
                a.res
            }
        }),
{
    reveal(Gram::if_expr);
    reveal(Gram::expr);
    reveal(Gram::expr_block);
    let t = g.expr(i + 2);
    let c = g.expr_block(t.next + 1);
    sound_expr(g, i + 2);
    if t.res is Ok {
        sound_expr_block(g, t.next + 1);
        if c.res is Ok {
            sound_expr_block(g, c.next + 1);
            sound_if_expr(g, c.next + 1, g.lo(c.next + 1));
        }
    }
}

/// A block is refused where a value is wanted for its statements, or because it does
/// not end in an expression.
pub proof fn blocks_with_a_value_are_refused_for_their_parts(g: Gram, i: int)
    requires
        0 <= i,
        g.expr_block(i).res is Err,
    ensures
        g.expr_block(i).res == if g.block(i).res is Err {
            g.block(i).res
        } else {
            wrong(g, g.toks[i].span.lo, g.block(i).next, SyntaxError::ZtsBlockWithoutTail)
        },
{
    reveal(Gram::expr_block);
    reveal(Gram::block);
    sound_block(g, i);
}

} // verus!
