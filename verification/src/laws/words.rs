//! Statements that start with a word: an expression that is an identifier is one
//! token, and so is what tells a newtype from an expression.
use crate::error::{Error, SyntaxError};
use crate::grammar::{
    assign_op, binary_op, good, precedence, right_precedence, template_start, unary_op, var_kind,
    Gram, ListKind, Out,
};
use crate::laws::both::lemma_binary_op;
use crate::laws::language::nothing_is_declared;
use crate::laws::refusals::wrong;
use crate::laws::sound::{
    sound_arrow_body, sound_arrow_params, sound_assign, sound_bin, sound_comma_list, sound_cond,
    sound_export_decl, sound_expr, sound_if_expr, sound_item, sound_items, sound_more_exprs,
    sound_primary, sound_stmt, sound_tpl, sound_ty, sound_unary,
};
use crate::span::BytePos;
use crate::token::Token;
use crate::tree::Tree;
use vstd::prelude::*;

verus! {

/// Whether a phrase is an identifier.
pub open spec fn is_ident(o: Out) -> bool {
    o.res is Ok && o.tree().label is Ident
}

/// Whether a phrase has a token, and is no identifier, if it is accepted.
spec fn tells(g: Gram, i: int, o: Out) -> bool {
    o.res is Ok ==> !is_ident(o) && g.ok(i, o)
}

/// Whether a phrase is an identifier, though not the token at `i` alone.
spec fn odd_ident(g: Gram, i: int, o: Out) -> bool {
    &&& is_ident(o)
    &&& !(g.kind(i).is_ident_like() && o == good(g.ident_at(i), i + 1))
}

/// An operator makes no identifier.
proof fn lemma_bin_step(g: Gram, start: BytePos, t: Tree, i: int, min: int)
    requires
        0 <= i,
    ensures
        g.bin_step(start, t, i, min) matches Some(o) ==> tells(g, i, o),
{
    reveal(Gram::bin_step);
    reveal(Gram::bin);
    lemma_binary_op(g.kind(i));
    let k = g.kind(i);
    if (k == Token::As || k == Token::Satisfies) && !g.nl(i) && min < 7 {
        sound_ty(g, i + 1);
    } else if let Some(op) = binary_op(k) {
        if precedence(op) > min {
            sound_bin(g, i + 1, right_precedence(op));
        }
    }
}

/// Operators make no identifier.
proof fn lemma_bin_rest(g: Gram, start: BytePos, a: Out, min: int)
    requires
        0 <= a.next,
    ensures
        is_ident(g.bin_rest(start, a, min)) ==> g.bin_rest(start, a, min) == a,
    decreases g.rem(a.next),
{
    g.lemma_bin_rest(start, a, min);
    lemma_bin_step(g, start, a.tree(), a.next, min);
    if let Some(s) = g.bin_step(start, a.tree(), a.next, min) {
        let b = s.after(a);
        if g.ok(a.next, b) {
            lemma_bin_rest(g, start, b, min);
        }
    }
}

/// A call, a property or an assertion is no identifier.
proof fn lemma_subscript(g: Gram, start: BytePos, t: Tree, i: int)
    requires
        0 <= i,
    ensures
        g.subscript(start, t, i) matches Some(o) ==> tells(g, i, o),
{
    reveal(Gram::subscript);
    reveal(Token::spec_is_word);
    if g.kind(i) == Token::LBracket {
        reveal(Gram::expr);
        sound_expr(g, i + 1);
    } else if g.kind(i) == Token::LParen {
        reveal(Gram::comma_list);
        sound_comma_list(g, ListKind::Args, i + 1);
    } else if template_start(g.kind(i)) {
        reveal(Gram::tpl);
        sound_tpl(g, i);
    }
}

/// Calls, properties and assertions are no identifiers.
proof fn lemma_subscripts_rest(g: Gram, start: BytePos, a: Out)
    requires
        0 <= a.next,
    ensures
        is_ident(g.subscripts_rest(start, a)) ==> g.subscripts_rest(start, a) == a,
    decreases g.rem(a.next),
{
    g.lemma_subscripts_rest(start, a);
    lemma_subscript(g, start, a.tree(), a.next);
    if let Some(s) = g.subscript(start, a.tree(), a.next) {
        let b = s.after(a);
        if g.ok(a.next, b) {
            lemma_subscripts_rest(g, start, b);
        }
    }
}

proof fn lemma_tpl(g: Gram, i: int)
    requires
        0 <= i,
    ensures
        !is_ident(g.tpl(i)),
{
    g.lemma_tpl(i);
    if g.kind(i) == Token::TemplateHead {
        let none: Seq<Tree> = Seq::empty();
        lemma_tpl_rest(g, g.lo(i), none, seq![g.quasi_at(i)], i + 1, Seq::empty());
    }
}

proof fn lemma_tpl_rest(
    g: Gram,
    start: BytePos,
    es: Seq<Tree>,
    qs: Seq<Tree>,
    i: int,
    errs: Seq<Error>,
)
    requires
        0 <= i,
    ensures
        !is_ident(g.tpl_rest(start, es, qs, i, errs)),
    decreases g.rem(i),
{
    g.lemma_tpl_rest(start, es, qs, i, errs);
    sound_expr(g, i);
    let e = g.expr(i);
    if g.ok(i, e) && g.kind(e.next) == Token::TemplateMiddle {
        lemma_tpl_rest(
            g,
            start,
            es.push(e.tree()),
            qs.push(g.quasi_at(e.next)),
            e.next + 1,
            errs + e.errs,
        );
    }
}

proof fn lemma_bracketed(g: Gram, i: int)
    requires
        0 <= i,
    ensures
        !is_ident(g.paren(i)),
        !is_ident(g.array(i)),
        !is_ident(g.object(i)),
        !is_ident(g.tpl(i)),
{
    lemma_tpl(g, i);
    if g.kind(i) == Token::LParen {
        sound_expr(g, i + 1);
    } else if g.kind(i) == Token::LBracket {
        sound_comma_list(g, ListKind::Elems, i + 1);
    } else if g.kind(i) == Token::LBrace {
        sound_comma_list(g, ListKind::Props, i + 1);
    }
    assert(!is_ident(g.paren(i))) by {
        reveal(Gram::paren);
        reveal(Gram::expr);
    }
    assert(!is_ident(g.array(i)) && !is_ident(g.object(i))) by {
        reveal(Gram::array);
        reveal(Gram::object);
        reveal(Gram::comma_list);
    }
}

proof fn lemma_match_body(g: Gram, start: BytePos, d: Out)
    requires
        0 <= d.next,
        g.zts,
    ensures
        !is_ident(g.match_body(start, d)),
{
    if g.kind(d.next) == Token::LBrace {
        sound_comma_list(g, ListKind::Arms, d.next + 1);
    }
    reveal(Gram::match_body);
    reveal(Gram::comma_list);
}

proof fn lemma_primary(g: Gram, i: int)
    requires
        0 <= i,
    ensures
        !odd_ident(g, i, g.primary(i)),
{
    let k = g.kind(i);
    let h = g.match_header(i);
    assert(g.match_keyword(i) ==> g.zts) by {
        reveal(Gram::match_keyword);
    }
    if g.zts && k == Token::If {
        sound_if_expr(g, i, g.lo(i));
    } else if g.match_keyword(i) && h is Some && g.ok(i, h->0) {
        lemma_match_body(g, g.lo(i), h->0);
    }
    lemma_bracketed(g, i);
    reveal(Gram::primary);
    reveal(Gram::if_expr);
    reveal(Gram::match_header);
    reveal(Gram::match_body);
    reveal(Gram::paren);
    reveal(Gram::array);
    reveal(Gram::object);
    reveal(Gram::tpl);
}

proof fn lemma_unary(g: Gram, i: int)
    requires
        0 <= i,
    ensures
        !odd_ident(g, i, g.unary(i)),
{
    reveal(Gram::unary);
    match g.prefix_op(i) {
        None => {
            lemma_primary(g, i);
            sound_primary(g, i);
            g.lemma_subscripts(i);
            let a = g.primary(i);
            if g.ok(i, a) {
                lemma_subscripts_rest(g, g.lo(i), a);
            }
            reveal(Gram::subscripts);
        },
        Some(_) => {
            sound_unary(g, i + 1);
        },
    }
}

proof fn lemma_cond(g: Gram, i: int)
    requires
        0 <= i,
    ensures
        !odd_ident(g, i, g.cond(i)),
{
    lemma_unary(g, i);
    sound_unary(g, i);
    g.lemma_bin(i, 0);
    let a = g.unary(i);
    if g.ok(i, a) {
        lemma_bin_rest(g, g.lo(i), a, 0);
    }
    let t = g.bin(i, 0);
    reveal(Gram::cond);
    reveal(Gram::bin);
    reveal(Gram::assign);
    if g.ok(i, t) && g.kind(t.next) == Token::Question {
        sound_assign(g, t.next + 1);
        let c = g.assign(t.next + 1);
        if g.ok(t.next + 1, c) && g.kind(c.next) == Token::Colon {
            sound_assign(g, c.next + 1);
        }
    }
}

proof fn lemma_arrow(g: Gram, i: int)
    requires
        0 <= i,
        g.arrow_ahead(i),
    ensures
        !is_ident(g.arrow(i)),
{
    sound_arrow_params(g, i);
    let p = g.arrow_params(i);
    if g.ok(i, p) && g.kind(p.next) == Token::Arrow {
        sound_arrow_body(g, p.next + 1);
    }
    reveal(Gram::arrow);
    reveal(Gram::arrow_params);
    reveal(Gram::arrow_body);
}

proof fn lemma_assign(g: Gram, i: int)
    requires
        0 <= i,
    ensures
        !odd_ident(g, i, g.assign(i)),
{
    if g.arrow_ahead(i) {
        lemma_arrow(g, i);
        reveal(Gram::assign);
        reveal(Gram::arrow);
    } else {
        lemma_cond(g, i);
        sound_cond(g, i);
        let a = g.cond(i);
        reveal(Gram::assign);
        reveal(Gram::cond);
        if g.ok(i, a) && assign_op(g.kind(a.next)) is Some {
            sound_assign(g, a.next + 1);
        }
    }
}

/// An expression that is an identifier is one token.
pub proof fn identifiers_are_one_token(g: Gram, i: int)
    requires
        0 <= i,
        is_ident(g.expr(i)),
    ensures
        g.kind(i).is_ident_like(),
        g.expr(i) == good(g.ident_at(i), i + 1),
{
    g.lemma_expr(i);
    lemma_assign(g, i);
    sound_assign(g, i);
    let a = g.assign(i);
    if g.ok(i, a) && g.kind(a.next) == Token::Comma {
        sound_more_exprs(g, a.next);
    }
}

/// An enum is an enum.
proof fn lemma_any_enum(g: Gram, i: int, start: BytePos, is_const: bool, declare: bool)
    requires
        0 <= i,
    ensures
        g.any_enum(i, start, is_const, declare).res matches Ok(t) ==> t.label is ZtsEnum
            || t.label is TsEnum,
{
    reveal(Gram::any_enum);
    reveal(Token::spec_is_word);
    if g.decl_name(i).res is Ok && g.kind(i + 1) == Token::LBrace {
        if g.zts {
            sound_comma_list(g, ListKind::Variants, i + 2);
        } else {
            sound_comma_list(g, ListKind::TsMembers, i + 2);
        }
    }
    if g.zts {
        reveal(Gram::zts_enum);
    } else {
        reveal(Gram::ts_enum);
    }
    reveal(Gram::comma_list);
}

/// A statement is a newtype only where the word `newtype` starts it and an
/// identifier follows on the same line. Everywhere else `newtype` is an
/// identifier.
pub proof fn newtypes_have_their_name_on_the_line(g: Gram, i: int, top: bool)
    requires
        0 <= i,
        g.expr_stmt(i, top).res is Ok,
        g.expr_stmt(i, top).tree().label is ZtsNewtype,
    ensures
        top,
        g.newtype_ahead(i),
        g.expr_stmt(i, top) == g.newtype(i + 1, g.lo(i), false),
{
    sound_expr(g, i);
    let e = g.expr(i);
    if is_ident(e) {
        identifiers_are_one_token(g, i);
        let n = g.newtype(i + 1, g.lo(i), false);
        assert(n.after(e) =~= n);
        lemma_any_enum(g, i + 2, g.lo(i), false, true);
        lemma_any_enum(g, i + 3, g.lo(i), true, true);
        if g.kind(i + 1) == Token::Colon {
            sound_stmt(g, i + 2, false);
        }
    }
    assert(g.newtype(e.next + 1, g.lo(i), true).res is Err) by {
        reveal(Gram::newtype);
    }
    reveal(Gram::newtype_ahead);
    reveal(Gram::expr_stmt);
    reveal(Gram::expr);
    reveal(Gram::stmt);
    reveal(Gram::any_enum);
}

/// Where the word `newtype` starts a statement and an identifier that is no
/// operator follows on the same line, the statement is a newtype.
pub proof fn newtypes_are_declared(g: Gram, i: int)
    requires
        0 <= i,
        g.kind(i) == Token::Ident,
        g.newtype_ahead(i),
        g.kind(i + 1) != Token::As,
        g.kind(i + 1) != Token::Satisfies,
    ensures
        g.stmt(i, true) == g.newtype(i + 1, g.lo(i), false),
{
    assert(g.zts && g.text(i) == "newtype"@ && g.kind(i + 1).is_ident_like() && !g.nl(i + 1)) by {
        reveal(Gram::newtype_ahead);
    }
    assert(g.kind(i).is_ident_like()) by {
        reveal(Token::spec_is_ident_like);
    }
    lemma_word_before_word(g, i);
    let e = g.expr(i);
    let n = g.newtype(i + 1, g.lo(i), false);
    assert(n.after(e) =~= n);
    reveal_strlit("newtype");
    reveal_strlit("declare");
    assert("newtype"@[0] != "declare"@[0]);
    assert(g.kind(i + 1) != Token::Colon) by {
        reveal(Token::spec_is_ident_like);
    }
    reveal(Gram::stmt);
    reveal(Gram::expr_stmt);
    reveal(Gram::expr);
}

/// With zts on, an enum is one of zts.
proof fn lemma_enum_of_zts(g: Gram, i: int, start: BytePos, is_const: bool, declare: bool)
    requires
        g.zts,
    ensures
        g.any_enum(i, start, is_const, declare) == g.zts_enum(i, start, is_const, declare),
{
    reveal(Gram::any_enum);
    reveal(Gram::zts_enum);
    reveal(Gram::ts_enum);
}

/// What comes behind the word `declare`.
proof fn lemma_declare(g: Gram, i: int)
    requires
        0 <= i,
        g.kind(i).is_ident_like(),
        g.text(i) == "declare"@,
        !g.nl(i + 1),
        g.expr(i) == good(g.ident_at(i), i + 1),
    ensures
        g.kind(i + 1) == Token::Enum ==> g.expr_stmt(i, true).res == g.any_enum(
            i + 2,
            g.lo(i),
            false,
            true,
        ).res,
        g.kind(i + 1) == Token::Const && g.kind(i + 2) == Token::Enum ==> g.expr_stmt(
            i,
            true,
        ).res == g.any_enum(i + 3, g.lo(i), true, true).res,
        g.newtype_ahead(i + 1) && g.kind(i + 1) == Token::Ident ==> g.expr_stmt(i, true).res
            == g.newtype(i + 2, g.lo(i), true).res,
{
    reveal(Gram::expr_stmt);
    reveal(Gram::expr);
    reveal(Gram::stmt);
    reveal(Gram::any_enum);
    reveal(Token::spec_is_ident_like);
}

/// With zts on, an enum or a newtype on the line of the word `declare` is refused. The
/// error is about the text from `declare` up to the word that it stands before.
pub proof fn declared_types_are_refused(g: Gram, i: int)
    requires
        0 <= i,
        g.zts,
        g.kind(i).is_ident_like(),
        g.text(i) == "declare"@,
        !g.nl(i + 1),
    ensures
        g.kind(i + 1) == Token::Enum ==> g.stmt(i, true).res == wrong(
            g,
            g.toks[i].span.lo,
            i + 2,
            SyntaxError::ZtsDeclareEnum,
        ),
        g.kind(i + 1) == Token::Const && g.kind(i + 2) == Token::Enum ==> g.stmt(i, true).res
            == wrong(g, g.toks[i].span.lo, i + 3, SyntaxError::ZtsDeclareEnum),
        g.newtype_ahead(i + 1) && g.kind(i + 1) == Token::Ident ==> g.stmt(i, true).res == wrong(
            g,
            g.toks[i].span.lo,
            i + 2,
            SyntaxError::ZtsDeclareNewtype,
        ),
{
    if g.kind(i + 1) == Token::Enum || g.kind(i + 1) == Token::Const || g.kind(i + 1)
        == Token::Ident {
        assert(g.kind(i + 1) == Token::Ident ==> g.kind(i + 1).is_ident_like()) by {
            reveal(Token::spec_is_ident_like);
        }
        lemma_word_before_word(g, i);
        lemma_declare(g, i);
        assert(g.stmt(i, true) == g.expr_stmt(i, true)) by {
            reveal(Token::spec_is_ident_like);
            reveal(Gram::stmt);
            reveal(Gram::expr_stmt);
        }
    }
    lemma_enum_of_zts(g, i + 2, g.lo(i), false, true);
    lemma_enum_of_zts(g, i + 3, g.lo(i), true, true);
    nothing_is_declared(g, i + 2, g.lo(i), false);
    nothing_is_declared(g, i + 3, g.lo(i), true);
}

/// Behind `export`, an enum and a newtype are declared as they are elsewhere.
pub proof fn exported_types_are_declared(g: Gram, i: int)
    requires
        0 <= i,
        g.zts,
        g.kind(i) == Token::Export,
        g.kind(i + 1) != Token::Default,
    ensures
        ({
            let d = if g.kind(i + 1) == Token::Enum {
                g.zts_enum(i + 2, g.lo(i + 1), false, false)
            } else if g.kind(i + 1) == Token::Const && g.kind(i + 2) == Token::Enum {
                g.zts_enum(i + 3, g.lo(i + 1), true, false)
            } else {
                g.newtype(i + 2, g.lo(i + 1), false)
            };
            let o = g.item(i);
            g.kind(i + 1) == Token::Enum || g.kind(i + 1) == Token::Const && g.kind(i + 2)
                == Token::Enum || g.newtype_ahead(i + 1) ==> {
                &&& o.next == d.next
                &&& o.errs == d.errs
                &&& d.res is Err ==> o.res == d.res
                &&& d.res is Ok ==> {
                    &&& o.res is Ok
                    &&& o.tree().label is ExportDecl
                    &&& o.tree().kids.len() == 1
                    &&& o.tree().kids[0] == d.tree()
                }
            }
        }),
{
    sound_export_decl(g, i + 1);
    lemma_enum_of_zts(g, i + 2, g.lo(i + 1), false, false);
    lemma_enum_of_zts(g, i + 3, g.lo(i + 1), true, false);
    reveal(Gram::item);
    reveal(Gram::export);
    reveal(Gram::export_decl);
    reveal(Gram::newtype_ahead);
    reveal(Token::spec_is_ident_like);
    reveal(var_kind);
}

/// A module is accepted if and only if each of its items is, and holds them in their
/// order: the first one is the item that stands at its start, and the others are those
/// behind it. It is refused for the first item that is refused.
pub proof fn modules_are_their_items(g: Gram, i: int)
    requires
        0 <= i <= g.toks.len(),
        g.kind(i) != Token::Eof,
    ensures
        ({
            let s = g.item(i);
            let m = g.items(s.next);
            let o = g.items(i);
            &&& o.res is Ok <==> s.res is Ok && m.res is Ok
            &&& s.res is Err ==> o.res == s.res
            &&& s.res is Ok && m.res is Err ==> o.res == m.res
            &&& o.res is Ok ==> {
                &&& o.next == m.next
                &&& o.errs == s.errs + m.errs
                &&& o.tree().kids.len() == 1 + m.tree().kids.len()
                &&& o.tree().kids[0] == s.tree()
                &&& forall|n: int|
                    0 <= n < m.tree().kids.len() ==> #[trigger] m.tree().kids[n] == o.tree().kids[n
                        + 1]
            }
        }),
{
    sound_item(g, i);
    if g.item(i).res is Ok {
        sound_items(g, g.item(i).next);
    }
    reveal(Gram::items);
}

/// An identifier with another word behind it is an expression of its own.
proof fn lemma_word_before_word(g: Gram, i: int)
    requires
        0 <= i,
        g.kind(i).is_ident_like(),
        g.text(i) == "newtype"@ || g.text(i) == "declare"@,
        g.kind(i + 1).is_ident_like() || g.kind(i + 1) == Token::Enum || g.kind(i + 1)
            == Token::Const,
        g.kind(i + 1) != Token::As,
        g.kind(i + 1) != Token::Satisfies,
    ensures
        g.expr(i) == good(g.ident_at(i), i + 1),
{
    let a = good(g.ident_at(i), i + 1);
    let start = g.lo(i);
    reveal_strlit("newtype");
    reveal_strlit("declare");
    reveal_strlit("not");
    reveal_strlit("match");
    assert("newtype"@.len() == 7 && "not"@.len() == 3 && "match"@.len() == 5);
    assert("declare"@.len() == 7);
    reveal(Token::spec_is_ident_like);
    assert(g.primary(i) == a) by {
        reveal(Gram::primary);
        reveal(Gram::match_keyword);
    }
    assert(g.subscript(start, a.tree(), i + 1) is None) by {
        reveal(Gram::subscript);
    }
    g.lemma_subscripts(i);
    g.lemma_subscripts_rest(start, a);
    assert(g.unary(i) == a) by {
        reveal(Gram::unary);
        reveal(Gram::subscripts);
        reveal(Gram::prefix_op);
        reveal(Gram::not_operator);
        reveal(unary_op);
    }
    assert(g.bin_step(start, a.tree(), i + 1, 0) is None) by {
        reveal(Gram::bin_step);
        reveal(binary_op);
    }
    g.lemma_bin(i, 0);
    g.lemma_bin_rest(start, a, 0);
    assert(g.cond(i) == a) by {
        reveal(Gram::cond);
        reveal(Gram::bin);
    }
    assert(g.assign(i) == a) by {
        reveal(Gram::assign);
        reveal(Gram::cond);
        reveal(Gram::arrow_ahead);
        reveal(assign_op);
    }
    g.lemma_expr(i);
}

} // verus!
