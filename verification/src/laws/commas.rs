//! A comma behind the last element of a sequence changes nothing.
use crate::grammar::{Gram, ListKind, Out};
use crate::laws::alike::{
    alike, alike_elem, alike_match_header, lemma_alike_at, lemma_alike_end, lemma_header_closed,
    lemma_match_end,
};
use crate::laws::shape::{lemma_arm_starter, zts_list};
use crate::laws::sound::{sound_comma_list, sound_elem, sound_match_header, sound_variant};
use crate::span::BytePos;
use crate::token::Token;
use crate::tree::{kids2, node, Label, Tree};
use vstd::prelude::*;

verus! {

/// Two texts, alike up to the token at `n`, which closes a brace in the first one
/// and is a comma before the closing brace in the second one.
pub open spec fn differ_by_comma(g: Gram, h: Gram, n: int) -> bool {
    &&& alike(g, h, n)
    &&& 0 < n
    &&& g.kind(n - 1) != Token::Comma
    &&& g.kind(n) == Token::RBrace
    &&& h.kind(n) == Token::Comma
    &&& h.kind(n + 1) == Token::RBrace
}

/// A sequence that ends at a closing brace has the same elements with a comma
/// before the brace: the arms of a match expression, the variants of an enum, the
/// fields of a variant, and the other sequences in braces.
pub proof fn last_commas_change_nothing(g: Gram, h: Gram, k: ListKind, i: int, n: int)
    requires
        0 <= i < n,
        k.close() == Token::RBrace,
        zts_list(k) ==> g.zts,
        differ_by_comma(g, h, n),
        g.comma_list(k, i).res is Ok,
        g.comma_list(k, i).next == n,
    ensures
        h.comma_list(k, i) == g.comma_list(k, i).grown(g.comma_list(k, i).tree(), n + 1),
    decreases g.rem(i),
{
    reveal(Gram::comma_list);
    reveal(Gram::elem);
    assert(g.toks[i] == h.toks[i]);
    sound_elem(g, k, i);
    let e = g.elem(k, i);
    assert(e.next <= n) by {
        sound_comma_list(g, k, e.next + 1);
    }
    alike_elem(g, h, k, i, n);
    if g.kind(e.next) == Token::Comma {
        sound_comma_list(g, k, e.next + 1);
        let m = g.comma_list(k, e.next + 1);
        assert(g.toks[e.next] == h.toks[e.next]);
        if e.next + 1 < n {
            last_commas_change_nothing(g, h, k, e.next + 1, n);
        }
    } else {
        let none: Seq<Tree> = Seq::empty();
        assert(seq![e.tree()] + none =~= seq![e.tree()]);
        let m = h.comma_list(k, n + 1);
        assert(e.errs + m.errs =~= e.errs);
    }
}

/// What a variant is made of.
proof fn lemma_variant(g: Gram, i: int)
    requires
        0 <= i,
        g.zts,
        g.variant(i).res is Ok,
    ensures
        ({
            let o = g.variant(i);
            let l = g.comma_list(ListKind::Fields, i + 2);
            &&& g.kind(i).is_word()
            &&& g.kind(i + 1) == Token::LBrace
            &&& l.res is Ok
            &&& i + 2 <= l.next
            &&& g.kind(l.next) == Token::RBrace
            &&& o == l.grown(
                node(
                    Label::ZtsEnumVariant,
                    g.span(g.lo(i), l.next + 1),
                    kids2(g.ident_at(i), l.tree()),
                ),
                l.next + 1,
            )
        }),
{
    reveal(Gram::variant);
    reveal(Gram::comma_list);
    reveal(Token::spec_is_word);
    sound_variant(g, i);
    sound_comma_list(g, ListKind::Fields, i + 2);
}

/// A variant is a name and a sequence of fields.
proof fn lemma_is_variant(g: Gram, i: int)
    requires
        0 <= i,
        g.kind(i).is_word(),
        g.kind(i + 1) == Token::LBrace,
        g.okl(i + 2, g.comma_list(ListKind::Fields, i + 2)),
        g.kind(g.comma_list(ListKind::Fields, i + 2).next) == Token::RBrace,
    ensures
        ({
            let l = g.comma_list(ListKind::Fields, i + 2);
            g.variant(i) == l.grown(
                node(
                    Label::ZtsEnumVariant,
                    g.span(g.lo(i), l.next + 1),
                    kids2(g.ident_at(i), l.tree()),
                ),
                l.next + 1,
            )
        }),
{
    reveal(Gram::variant);
    reveal(Gram::comma_list);
    reveal(Token::spec_is_word);
}

/// A comma behind the last field of a variant changes nothing: the variant has the
/// same name and the same fields, and ends behind its closing brace.
pub proof fn last_commas_in_variants_change_nothing(g: Gram, h: Gram, i: int, n: int)
    requires
        0 <= i,
        i + 2 < n,
        g.zts,
        differ_by_comma(g, h, n),
        g.variant(i).res is Ok,
        g.variant(i).next == n + 1,
    ensures
        h.variant(i).res is Ok,
        h.variant(i).next == n + 2,
        h.variant(i).errs == g.variant(i).errs,
        h.variant(i).tree().kids == g.variant(i).tree().kids,
        g.variant(i).tree().kids == kids2(
            g.ident_at(i),
            g.comma_list(ListKind::Fields, i + 2).tree(),
        ),
{
    lemma_variant(g, i);
    last_commas_change_nothing(g, h, ListKind::Fields, i + 2, n);
    lemma_alike_at(g, h, i, n);
    lemma_alike_at(g, h, i + 1, n);
    lemma_is_variant(h, i);
}

/// A comma behind the last variant of an enum changes nothing: the enum has the
/// same name and the same variants, and ends behind its closing brace.
pub proof fn last_commas_in_enums_change_nothing(
    g: Gram,
    h: Gram,
    i: int,
    start: BytePos,
    is_const: bool,
    n: int,
)
    requires
        0 <= i,
        i + 2 < n,
        g.zts,
        differ_by_comma(g, h, n),
        g.zts_enum(i, start, is_const, false).res is Ok,
        g.zts_enum(i, start, is_const, false).next == n + 1,
    ensures
        ({
            let a = g.zts_enum(i, start, is_const, false);
            let b = h.zts_enum(i, start, is_const, false);
            &&& b.res is Ok
            &&& b.next == n + 2
            &&& b.errs == a.errs
            &&& b.tree().kids == a.tree().kids
        }),
{
    reveal(Token::spec_is_word);
    let l = g.comma_list(ListKind::Variants, i + 2);
    sound_comma_list(g, ListKind::Variants, i + 2);
    assert(g.kind(i).is_word() && g.kind(i + 1) == Token::LBrace && l.res is Ok && l.next == n) by {
        reveal(Gram::zts_enum);
        reveal(Gram::comma_list);
    }
    last_commas_change_nothing(g, h, ListKind::Variants, i + 2, n);
    lemma_alike_at(g, h, i, n);
    lemma_alike_at(g, h, i + 1, n);
    lemma_alike_end(g, h, i, n);
    reveal(Gram::zts_enum);
    reveal(Gram::comma_list);
}

/// A comma behind the last arm of a match expression changes nothing: the
/// expression has the same discriminant and the same arms, and ends behind its
/// closing brace.
pub proof fn last_commas_in_matches_change_nothing(
    g: Gram,
    h: Gram,
    start: BytePos,
    d: Out,
    n: int,
)
    requires
        0 <= d.next,
        d.next + 1 < n,
        d.res is Ok,
        g.zts,
        differ_by_comma(g, h, n),
        g.match_body(start, d).res is Ok,
        g.match_body(start, d).next == n + 1,
    ensures
        ({
            let a = g.match_body(start, d);
            let b = h.match_body(start, d);
            &&& b.res is Ok
            &&& b.next == n + 2
            &&& b.errs == a.errs
            &&& b.tree().kids == a.tree().kids
        }),
{
    let l = g.comma_list(ListKind::Arms, d.next + 1);
    sound_comma_list(g, ListKind::Arms, d.next + 1);
    assert(g.kind(d.next) == Token::LBrace && l.res is Ok && l.next == n) by {
        reveal(Gram::match_body);
        reveal(Gram::comma_list);
    }
    last_commas_change_nothing(g, h, ListKind::Arms, d.next + 1, n);
    lemma_alike_at(g, h, d.next, n);
    reveal(Gram::match_body);
    reveal(Gram::comma_list);
}

/// The same of a match expression from the word `match` on.
pub proof fn last_commas_in_match_expressions_change_nothing(g: Gram, h: Gram, i: int, n: int)
    requires
        0 <= i,
        g.kind(i) == Token::Ident,
        g.match_keyword(i),
        g.match_header(i) is Some,
        differ_by_comma(g, h, n),
        g.primary(i).res is Ok,
        g.primary(i).next == n + 1,
    ensures
        h.match_keyword(i),
        h.match_header(i) == g.match_header(i),
        h.primary(i).res is Ok,
        h.primary(i).next == n + 2,
        h.primary(i).errs == g.primary(i).errs,
        h.primary(i).tree().kids == g.primary(i).tree().kids,
{
    let d = g.match_header(i)->0;
    reveal(Gram::match_keyword);
    g.lemma_primary(i);
    h.lemma_primary(i);
    sound_match_header(g, i);
    lemma_header_closed(g, i);
    lemma_match_end(g, g.lo(i), d);
    alike_match_header(g, h, i, n);
    lemma_alike_at(g, h, i, n);
    lemma_alike_at(g, h, i + 1, n);
    lemma_arm_starter(g.kind(d.next + 1));
    last_commas_in_matches_change_nothing(g, h, g.lo(i), d, n);
}

} // verus!
