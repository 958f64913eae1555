//! What zts promises of its language.
use crate::ast::expr::UnaryOp;
use crate::error::{Error, SyntaxError};
use crate::grammar::{ambiguous_block, arm_starter, bad, good, unary_op, Gram, ListKind};
use crate::laws::both::{ne_list, no_enum, off, on};
use crate::laws::lexing::{end_comes_last, points_lead, same_tokens_from, words_from};
use crate::laws::same::same_items;
use crate::laws::shape::{all_fine, fine, lemma_list, lemma_parts, reported, well_formed};
use crate::laws::sound::{
    sound_block, sound_expr, sound_expr_block, sound_items, sound_match_header, sound_unary,
};
use crate::lexer::tokens;
use crate::span::BytePos;
use crate::token::Token;
use crate::tree::{kids1, node, Label, Tree};
use vstd::prelude::*;

verus! {

/// The grammar of a text.
pub open spec fn language(s: Seq<char>, zts: bool) -> Gram {
    Gram { toks: tokens(s, zts), zts }
}

/// Whether a node is one that zts adds.
pub open spec fn added(label: Label) -> bool {
    match label {
        Label::Match
        | Label::MatchArm
        | Label::MatchWildcard
        | Label::MatchLit { .. }
        | Label::MatchVariant
        | Label::ZtsIf
        | Label::ZtsExprBlock
        | Label::ZtsEnum
        | Label::ZtsEnumVariant
        | Label::ZtsEnumField
        | Label::ZtsNewtype => true,
        _ => false,
    }
}

/// Whether a tree holds no node that zts adds.
pub open spec fn vanilla(t: Tree) -> bool
    decreases t,
{
    &&& !added(t.label)
    &&& forall|k: int|
        0 <= k < t.kids.len() ==> (if 0 <= k < t.kids.len() {
            vanilla(#[trigger] t.kids[k])
        } else {
            true
        })
}

/// A module that is accepted is read to the end of the text, has a well-formed
/// tree, and holds no token that the grammar has no place for. What was reported
/// on the way is a `const enum`.
pub proof fn accepted_modules_are_well_formed(s: Seq<char>, zts: bool)
    requires
        language(s, zts).module(0).res is Ok,
    ensures
        ({
            let g = language(s, zts);
            let o = g.module(0);
            &&& o.next == g.toks.len() - 1
            &&& well_formed(o.tree(), zts)
            &&& all_fine(g, 0, o.next)
            &&& reported(o.errs, zts)
        }),
{
    let g = language(s, zts);
    let o = g.module(0);
    reveal(Gram::module);
    sound_items(g, 0);
    end_comes_last(s, 0, zts, Seq::empty());
    let l = g.items(0);
    assert(well_formed(o.tree(), zts)) by {
        lemma_list(o.tree(), l.tree().kids, zts);
    }
    assert(o.next == g.toks.len() - 1) by {
        if o.next < g.toks.len() {
            assert(g.toks[o.next].kind == Token::Eof);
        } else {
            reveal(all_fine);
            assert(fine(g, g.toks.len() - 1));
        }
    }
}

/// With zts off, an accepted module holds nothing that zts adds, and no error was
/// reported on the way.
pub proof fn nothing_is_added_without_zts(s: Seq<char>)
    requires
        language(s, false).module(0).res is Ok,
    ensures
        vanilla(language(s, false).module(0).tree()),
        language(s, false).module(0).errs.len() == 0,
{
    accepted_modules_are_well_formed(s, false);
    let o = language(s, false).module(0);
    lemma_vanilla(o.tree());
    reveal(reported);
    if o.errs.len() > 0 {
        assert(o.errs[0].error == SyntaxError::ZtsConstEnum);
    }
}

proof fn lemma_vanilla(t: Tree)
    requires
        well_formed(t, false),
    ensures
        vanilla(t),
    decreases t,
{
    lemma_parts(t, false);
    assert forall|k: int| 0 <= k < t.kids.len() implies vanilla(#[trigger] t.kids[k]) by {
        lemma_vanilla(t.kids[k]);
    }
}

/// A word comes behind each point of an accepted module.
proof fn lemma_points_lead(s: Seq<char>)
    requires
        language(s, false).module(0).res is Ok,
    ensures
        points_lead(tokens(s, false)),
{
    let toks = tokens(s, false);
    let g = language(s, false);
    accepted_modules_are_well_formed(s, false);
    end_comes_last(s, 0, false, Seq::empty());
    reveal(all_fine);
    assert forall|k: int|
        0 <= k < toks.len() && (#[trigger] toks[k]).kind == Token::Dot implies k + 1 < toks.len()
        && toks[k + 1].kind.is_word() by {
        assert(fine(g, k));
        reveal(Token::spec_is_word);
    }
}

/// zts is a superset of TypeScript, but for enums: a module that is accepted with
/// zts off, and that declares no enum, means the same with zts on.
pub proof fn zts_is_a_superset(s: Seq<char>)
    requires
        language(s, false).module(0).res is Ok,
        no_enum(language(s, false).module(0).tree()),
    ensures
        language(s, true).toks == language(s, false).toks,
        language(s, true).module(0) == language(s, false).module(0),
{
    let toks = tokens(s, false);
    let g = language(s, false);
    lemma_points_lead(s);
    same_tokens_from(s, 0, Seq::empty());
    words_from(s, 0, false, Seq::empty());
    sound_items(g, 0);
    same_items(toks, 0);
    assert(off(toks).module(0) == on(toks).module(0)) by {
        reveal(Gram::module);
        ne_list(g.module(0).tree(), g.items(0).tree());
    }
}

/// The header of a match expression ends in a `{` on the line of the `)`, and an
/// arm starts behind it.
pub proof fn match_headers_end_in_a_brace(g: Gram, i: int)
    requires
        0 <= i,
        g.match_header(i) is Some,
    ensures
        ({
            let n = g.match_header(i)->0.next;
            &&& g.kind(i + 1) == Token::LParen
            &&& g.kind(n - 1) == Token::RParen
            &&& g.kind(n) == Token::LBrace
            &&& !g.nl(n)
            &&& arm_starter(g.kind(n + 1))
        }),
{
    reveal(Gram::match_header);
}

/// Where no header of a match expression stands, `match` is an identifier, as is
/// every other word that is none of the language.
pub proof fn words_stay_identifiers(g: Gram, i: int)
    requires
        g.kind(i).is_ident_like(),
        !g.match_keyword(i) || g.match_header(i) is None,
    ensures
        g.primary(i) == good(g.ident_at(i), i + 1),
{
    reveal(Gram::primary);
    reveal(Gram::match_header);
    reveal(Token::spec_is_ident_like);
}

/// Where the header of a match expression stands, a match expression is read, and
/// its errors are reported as such: nothing falls back to a call.
pub proof fn headers_commit(g: Gram, i: int)
    requires
        0 <= i,
        g.match_keyword(i),
        g.kind(i) == Token::Ident,
        g.match_header(i) is Some,
    ensures
        g.primary(i) == g.match_body(g.lo(i), g.match_header(i)->0),
{
    sound_match_header(g, i);
    reveal(Gram::primary);
    reveal(Gram::match_header);
    reveal(Gram::match_body);
}

/// The operator `not` is a negation, and binds like `!`.
pub proof fn not_negates(g: Gram, i: int)
    requires
        0 <= i,
        g.not_operator(i),
        g.unary(i + 1).res is Ok,
    ensures
        ({
            let a = g.unary(i + 1);
            g.unary(i) == a.grown(
                node(
                    Label::Unary { op: UnaryOp::Bang },
                    g.span(g.lo(i), a.next),
                    kids1(a.tree()),
                ),
                a.next,
            )
        }),
{
    sound_unary(g, i + 1);
    reveal(Gram::unary);
    reveal(Gram::prefix_op);
}

/// Where `not` is no operator, it is an identifier like any other.
pub proof fn not_stays_an_identifier(g: Gram, i: int)
    requires
        g.kind(i) == Token::Ident,
        g.text(i) == "not"@,
        !g.not_operator(i),
    ensures
        g.unary(i) == g.subscripts(i),
        g.primary(i) == good(g.ident_at(i), i + 1),
{
    assert(g.unary(i) == g.subscripts(i)) by {
        reveal(Gram::unary);
        reveal(Gram::subscripts);
        reveal(Gram::prefix_op);
        reveal(unary_op);
    }
    reveal_strlit("not");
    reveal_strlit("match");
    assert(!g.match_keyword(i)) by {
        reveal(Gram::match_keyword);
        assert("not"@.len() != "match"@.len());
    }
    assert(g.kind(i).is_ident_like()) by {
        reveal(Token::spec_is_ident_like);
    }
    words_stay_identifiers(g, i);
}

/// Behind a line break, `not` is an identifier and ends its statement.
pub proof fn not_respects_line_breaks(g: Gram, i: int)
    requires
        g.nl(i + 1),
    ensures
        !g.not_operator(i),
        g.semi(i + 1) is Some,
{
    reveal(Gram::not_operator);
}

/// A `const enum` is read like any other enum, with one error reported before
/// those in its body.
pub proof fn const_enums_recover(g: Gram, i: int, start: BytePos)
    ensures
        ({
            let a = g.zts_enum(i, start, false, false);
            let c = g.zts_enum(i, start, true, false);
            &&& c.res == a.res
            &&& c.next == a.next
            &&& c.errs == seq![
                Error { span: g.span(start, i), error: SyntaxError::ZtsConstEnum },
            ] + a.errs
        }),
{
    reveal(Gram::zts_enum);
    let n = g.decl_name(i);
    let l = g.comma_list(ListKind::Variants, n.next + 1);
    let none: Seq<Error> = Seq::empty();
    let one = seq![Error { span: g.span(start, i), error: SyntaxError::ZtsConstEnum }];
    let x = g.expected(n.next, Token::LBrace);
    let y = g.expected(l.next, Token::RBrace);
    assert(none + l.errs =~= l.errs);
    assert(one + (l.errs + y.errs) =~= (one + l.errs) + y.errs);
    assert(none + l.errs + y.errs =~= l.errs + y.errs);
    assert(one + x.errs =~= one + (none + x.errs));
    assert(one + none =~= one);
}

/// An enum or a newtype behind `declare` is an error.
pub proof fn nothing_is_declared(g: Gram, i: int, start: BytePos, is_const: bool)
    ensures
        g.zts_enum(i, start, is_const, true) == bad(
            g.span(start, i),
            SyntaxError::ZtsDeclareEnum,
            i,
        ),
        g.newtype(i, start, true) == bad(g.span(start, i), SyntaxError::ZtsDeclareNewtype, i),
{
    reveal(Gram::zts_enum);
    reveal(Gram::newtype);
}

/// A block has a value if and only if its last statement is an expression.
pub proof fn blocks_with_a_value_end_in_an_expression(g: Gram, i: int)
    requires
        0 <= i,
    ensures
        g.expr_block(i).res is Ok <==> {
            &&& g.block(i).res is Ok
            &&& g.block(i).tree().kids[0].kids.len() > 0
            &&& g.block(i).tree().kids[0].kids.last().label is ExprStmt
        },
{
    sound_block(g, i);
    reveal(Gram::expr_block);
    reveal(Gram::block);
}

/// A block as the body of an arm is accepted if and only if it has a value and
/// could not be read as an object literal.
pub proof fn arm_bodies_are_no_object_literals(g: Gram, i: int)
    requires
        0 <= i,
        g.zts,
        g.kind(i) == Token::LBrace,
    ensures
        g.arm_body(i).res is Ok <==> g.expr_block(i).res is Ok && !ambiguous_block(
            g.expr_block(i).tree(),
        ),
{
    sound_expr_block(g, i);
    reveal(Gram::arm_body);
    reveal(Gram::expr_block);
}

/// An enum is no single statement: behind `if (...)`, `while (...)`, `for (...)` or
/// a label it is an error.
pub proof fn enums_are_no_single_statements(g: Gram, i: int)
    requires
        g.kind(i) == Token::Enum,
    ensures
        g.stmt(i, false) == bad(g.span_at(i), SyntaxError::DeclNotAllowed, i),
{
    reveal(Gram::stmt);
}

/// At the start of a statement, `if` is a statement, with zts on or off.
pub proof fn if_stays_a_statement(g: Gram, i: int, top: bool)
    requires
        g.kind(i) == Token::If,
    ensures
        g.stmt(i, top) == g.if_stmt(i),
{
    reveal(Gram::stmt);
    reveal(Gram::if_stmt);
}

/// An `if` expression without an `else` is refused, whatever its block holds.
pub proof fn if_expressions_need_an_else(g: Gram, i: int, start: BytePos)
    requires
        0 <= i,
        g.zts,
        g.kind(i) == Token::If,
        g.kind(i + 1) == Token::LParen,
        g.expr(i + 2).res is Ok,
        g.kind(g.expr(i + 2).next) == Token::RParen,
        g.expr_block(g.expr(i + 2).next + 1).res is Ok,
        g.kind(g.expr_block(g.expr(i + 2).next + 1).next) != Token::Else,
    ensures
        ({
            let n = g.expr_block(g.expr(i + 2).next + 1).next;
            g.if_expr(i, start).res == bad(
                g.span(start, n),
                SyntaxError::ZtsIfWithoutElse,
                n,
            ).res
        }),
{
    sound_expr(g, i + 2);
    sound_expr_block(g, g.expr(i + 2).next + 1);
    reveal(Gram::if_expr);
    reveal(Gram::expr);
    reveal(Gram::expr_block);
}

/// A block that does not end in an expression is refused where a value is wanted.
pub proof fn blocks_without_a_value_are_refused(g: Gram, i: int)
    requires
        0 <= i,
        g.block(i).res is Ok,
        ({
            let ss = g.block(i).tree().kids[0].kids;
            ss.len() == 0 || !(ss.last().label is ExprStmt)
        }),
    ensures
        g.expr_block(i).res == bad(
            g.span(g.lo(i), g.block(i).next),
            SyntaxError::ZtsBlockWithoutTail,
            g.block(i).next,
        ).res,
{
    sound_block(g, i);
    reveal(Gram::expr_block);
    reveal(Gram::block);
}

/// A block as the body of an arm that could be read as an object literal is
/// refused, not given another meaning.
pub proof fn object_literals_as_arm_bodies_are_refused(g: Gram, i: int)
    requires
        0 <= i,
        g.zts,
        g.kind(i) == Token::LBrace,
        g.expr_block(i).res is Ok,
        ambiguous_block(g.expr_block(i).tree()),
    ensures
        g.arm_body(i).res == bad(
            g.expr_block(i).tree().span,
            SyntaxError::ZtsAmbiguousArmBody,
            g.expr_block(i).next,
        ).res,
{
    sound_expr_block(g, i);
    reveal(Gram::arm_body);
    reveal(Gram::expr_block);
}

/// A member of an enum of TypeScript is refused: a variant needs its braces.
pub proof fn variants_need_braces(g: Gram, i: int)
    requires
        0 <= i,
        g.kind(i).is_word(),
        g.kind(i + 1) != Token::LBrace,
    ensures
        g.variant(i) == bad(g.span(g.lo(i), i + 1), SyntaxError::ZtsEnumVariantBody, i + 1),
{
    reveal(Gram::variant);
    reveal(Token::spec_is_word);
}

} // verus!
