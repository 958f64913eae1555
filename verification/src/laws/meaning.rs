//! What the nodes that zts adds mean: which parts of the text they are made of, and
//! which texts are accepted.
use crate::ast::typescript::TsKeywordTypeKind;
use crate::error::Error;
use crate::grammar::{ambiguous_block, keyword_type, Gram, ListKind, Out};
use crate::laws::language::const_enums_recover;
use crate::laws::shape::{lemma_parts, zts_list};
use crate::laws::sound::{
    sound_arm_body, sound_block, sound_comma_list, sound_elem, sound_expr, sound_expr_block,
    sound_if_expr, sound_match_pattern, sound_object_pat, sound_stmt, sound_stmts, sound_ty,
};
use crate::laws::spelling::{names_type, stop};
use crate::span::{BytePos, SyntaxContext};
use crate::token::Token;
use crate::tree::{Label, Tree};
use vstd::prelude::*;

verus! {

/// Whether a tree is the literal that the token at an index is.
pub open spec fn is_literal_at(g: Gram, t: Tree, i: int) -> bool {
    &&& t.kids.len() == 0
    &&& t.span == g.toks[i].span
    &&& match g.toks[i].kind {
        Token::Str => t.label == (Label::Str { raw: g.toks[i].text }),
        Token::Num => t.label == (Label::Num { raw: g.toks[i].text }),
        Token::True => t.label == (Label::Bool { value: true }),
        Token::False => t.label == (Label::Bool { value: false }),
        Token::Null => t.label == Label::Null,
        _ => false,
    }
}

/// Whether a tree is the identifier that the token at an index is.
pub open spec fn is_ident_at(g: Gram, t: Tree, i: int) -> bool {
    &&& t.kids.len() == 0
    &&& t.span == g.toks[i].span
    &&& t.label == (Label::Ident {
        sym: g.toks[i].text,
        ctxt: SyntaxContext(0),
        optional: false,
    })
}

/// Whether a tree is the name that the token at an index is.
pub open spec fn is_name_at(g: Gram, t: Tree, i: int) -> bool {
    &&& t.kids.len() == 0
    &&& t.span == g.toks[i].span
    &&& t.label == (Label::IdentName { sym: g.toks[i].text })
}

/// Whether a literal that a pattern can be stands at an index.
pub open spec fn literal_ahead(g: Gram, i: int) -> bool {
    match g.kind(i) {
        Token::Str | Token::Num | Token::True | Token::False | Token::Null => true,
        _ => false,
    }
}

/// A literal pattern is marked as negative if and only if it starts with a minus, and
/// its literal is the last token of the pattern: behind a minus, a number.
pub proof fn literal_patterns_match_their_literal(g: Gram, i: int)
    requires
        0 <= i,
        g.zts,
        g.match_pattern(i).res is Ok,
        g.match_pattern(i).tree().label is MatchLit,
    ensures
        ({
            let o = g.match_pattern(i);
            let minus = g.kind(i) == Token::Minus;
            &&& o.tree().label == (Label::MatchLit { neg: minus })
            &&& o.next == if minus {
                i + 2
            } else {
                i + 1
            }
            &&& o.next <= g.toks.len()
            &&& minus ==> g.kind(i + 1) == Token::Num
            &&& o.tree().kids.len() == 1
            &&& is_literal_at(g, o.tree().kids[0], o.next - 1)
            &&& o.errs.len() == 0
        }),
{
    reveal(Gram::match_pattern);
    reveal(Gram::object_pat);
    reveal(Token::spec_is_word);
    sound_object_pat(g, i + 1);
}

/// A pattern of a variant is a name, and an object pattern behind it.
pub proof fn variant_patterns_are_names_and_bindings(g: Gram, i: int)
    requires
        0 <= i,
        g.zts,
        g.match_pattern(i).res is Ok,
        g.match_pattern(i).tree().label is MatchVariant,
    ensures
        ({
            let o = g.match_pattern(i);
            let b = g.object_pat(i + 1);
            &&& g.kind(i).is_word()
            &&& b.res is Ok
            &&& o.next == b.next
            &&& o.errs == b.errs
            &&& o.tree().kids.len() == 2
            &&& is_ident_at(g, o.tree().kids[0], i)
            &&& o.tree().kids[1] == b.tree()
            &&& b.tree().label is ObjectPat
        }),
{
    reveal(Gram::match_pattern);
    reveal(Gram::object_pat);
    reveal(Gram::comma_list);
    reveal(Token::spec_is_word);
    sound_object_pat(g, i + 1);
    sound_comma_list(g, ListKind::PatProps, i + 2);
    let none: Seq<Error> = Seq::empty();
    assert(none + g.object_pat(i + 1).errs =~= g.object_pat(i + 1).errs);
}

/// A pattern is a literal if and only if a literal, or a minus and a number, stands
/// there; it is the wildcard if and only if the word `_` stands before `=>`; and every
/// other word starts the pattern of a variant, which is accepted if and only if an
/// object pattern follows.
pub proof fn patterns_are_told_apart(g: Gram, i: int)
    requires
        0 <= i,
        g.zts,
    ensures
        ({
            let o = g.match_pattern(i);
            let wild = g.kind(i).is_word() && g.text(i) == "_"@ && g.kind(i + 1) == Token::Arrow;
            let neg = g.kind(i) == Token::Minus;
            let lit = !wild && literal_ahead(g, i);
            &&& wild ==> o.res is Ok && o.tree().label is MatchWildcard && o.next == i + 1
                && o.tree().kids.len() == 0
            &&& lit ==> o.res is Ok && o.tree().label is MatchLit
            &&& neg ==> (o.res is Ok <==> g.kind(i + 1) == Token::Num)
            &&& !wild && !lit && !neg ==> (o.res is Ok <==> g.kind(i).is_word() && g.object_pat(
                i + 1,
            ).res is Ok)
            &&& o.res is Ok ==> (o.tree().label is MatchWildcard <==> wild)
            &&& o.res is Ok ==> (o.tree().label is MatchLit <==> lit || neg)
            &&& o.res is Ok ==> (o.tree().label is MatchVariant <==> !wild && !lit && !neg)
        }),
{
    reveal(Gram::match_pattern);
    reveal(Gram::object_pat);
    reveal(Token::spec_is_word);
    sound_object_pat(g, i + 1);
}

/// An arm is a pattern, `=>`, and a body: the pattern and the body are those that
/// stand before and behind the `=>`.
pub proof fn arms_are_patterns_and_bodies(g: Gram, i: int)
    requires
        0 <= i,
        g.zts,
    ensures
        ({
            let p = g.match_pattern(i);
            let b = g.arm_body(p.next + 1);
            let o = g.arm(i);
            &&& o.res is Ok <==> p.res is Ok && g.kind(p.next) == Token::Arrow && b.res is Ok
            &&& o.res is Ok ==> {
                &&& o.next == b.next
                &&& o.errs == p.errs + b.errs
                &&& o.tree().label is MatchArm
                &&& o.tree().kids.len() == 2
                &&& o.tree().kids[0] == p.tree()
                &&& o.tree().kids[1] == b.tree()
            }
        }),
{
    reveal(Gram::arm);
    reveal(Gram::arm_body);
    reveal(Gram::match_pattern);
    sound_match_pattern(g, i);
    if g.match_pattern(i).res is Ok {
        sound_arm_body(g, g.match_pattern(i).next + 1);
    }
}

/// The body of an arm that does not start with `{` is an expression without commas;
/// one that does is a block with a value, as it stands there.
pub proof fn arm_bodies_are_expressions_or_blocks(g: Gram, i: int)
    requires
        0 <= i,
        g.zts,
        g.arm_body(i).res is Ok,
    ensures
        g.arm_body(i) == if g.kind(i) == Token::LBrace {
            g.expr_block(i)
        } else {
            g.assign(i)
        },
        g.kind(i) == Token::LBrace ==> !ambiguous_block(g.arm_body(i).tree()),
{
    reveal(Gram::arm_body);
    reveal(Gram::assign);
    reveal(Gram::expr_block);
    if g.kind(i) == Token::LBrace {
        sound_expr_block(g, i);
    }
}

/// A match expression is its discriminant, which stands between the parentheses, and
/// its arms, which stand between the braces.
pub proof fn matches_are_discriminants_and_arms(g: Gram, i: int)
    requires
        0 <= i,
        g.zts,
        g.match_header(i) is Some,
    ensures
        ({
            let d = g.expr(i + 2);
            let l = g.comma_list(ListKind::Arms, d.next + 2);
            let o = g.match_body(g.lo(i), g.match_header(i)->0);
            &&& d.res is Ok
            &&& g.kind(d.next) == Token::RParen
            &&& o.res is Ok <==> l.res is Ok && g.kind(l.next) == Token::RBrace
            &&& o.res is Ok ==> {
                &&& o.next == l.next + 1
                &&& o.errs == d.errs + l.errs
                &&& o.tree().label is Match
                &&& o.tree().kids.len() == 2
                &&& o.tree().kids[0] == d.tree()
                &&& o.tree().kids[1] == l.tree()
            }
        }),
{
    reveal(Gram::match_header);
    reveal(Gram::match_body);
    reveal(Gram::expr);
    reveal(Gram::comma_list);
    sound_expr(g, i + 2);
    sound_comma_list(g, ListKind::Arms, g.expr(i + 2).next + 2);
}

/// The elements of a sequence are what stands between its commas: the first one is
/// the element that stands at its start, and the others are the sequence behind the
/// comma, in this order. No element is left out, and none is added.
pub proof fn sequences_are_their_elements(g: Gram, k: ListKind, i: int)
    requires
        0 <= i,
        zts_list(k) ==> g.zts,
        g.comma_list(k, i).res is Ok,
        g.kind(i) != k.close(),
    ensures
        ({
            let o = g.comma_list(k, i);
            let e = g.elem(k, i);
            let m = g.comma_list(k, e.next + 1);
            &&& e.res is Ok
            &&& o.tree().kids.len() > 0
            &&& o.tree().kids[0] == e.tree()
            &&& g.kind(e.next) == Token::Comma ==> {
                &&& m.res is Ok
                &&& o.next == m.next
                &&& o.errs == e.errs + m.errs
                &&& o.tree().kids.len() == 1 + m.tree().kids.len()
                &&& forall|n: int|
                    0 <= n < m.tree().kids.len() ==> #[trigger] m.tree().kids[n] == o.tree().kids[n
                        + 1]
            }
            &&& g.kind(e.next) != Token::Comma ==> {
                &&& o.next == e.next
                &&& o.errs == e.errs
                &&& o.tree().kids.len() == 1
            }
        }),
{
    reveal(Gram::comma_list);
    reveal(Gram::elem);
    sound_elem(g, k, i);
    sound_comma_list(g, k, g.elem(k, i).next + 1);
}

/// The alternative of an `if` expression at an index: another one, or a block.
pub open spec fn alternative(g: Gram, i: int) -> Out {
    if g.kind(i) == Token::If {
        g.if_expr(i, g.lo(i))
    } else {
        g.expr_block(i)
    }
}

/// An `if` expression is accepted if and only if an expression stands between its
/// parentheses, a block with a value behind them, and an alternative behind `else`.
/// These three are its parts, in this order and as they stand.
pub proof fn if_expressions_are_tests_and_blocks(g: Gram, i: int, start: BytePos)
    requires
        0 <= i,
        g.zts,
    ensures
        ({
            let t = g.expr(i + 2);
            let c = g.expr_block(t.next + 1);
            let a = alternative(g, c.next + 1);
            let o = g.if_expr(i, start);
            &&& o.res is Ok <==> {
                &&& g.kind(i) == Token::If
                &&& g.kind(i + 1) == Token::LParen
                &&& t.res is Ok
                &&& g.kind(t.next) == Token::RParen
                &&& c.res is Ok
                &&& g.kind(c.next) == Token::Else
                &&& a.res is Ok
            }
            &&& o.res is Ok ==> {
                &&& o.next == a.next
                &&& o.errs == t.errs + c.errs + a.errs
                &&& o.tree().label is ZtsIf
                &&& o.tree().kids.len() == 3
                &&& o.tree().kids[0] == t.tree()
                &&& o.tree().kids[1] == c.tree()
                &&& o.tree().kids[2] == a.tree()
            }
        }),
{
    reveal(Gram::if_expr);
    reveal(Gram::expr);
    reveal(Gram::expr_block);
    let t = g.expr(i + 2);
    let c = g.expr_block(t.next + 1);
    sound_expr(g, i + 2);
    if t.res is Ok {
        sound_expr_block(g, t.next + 1);
        if c.res is Ok {
            sound_expr_block(g, c.next + 1);
            sound_if_expr(g, c.next + 1, g.lo(c.next + 1));
        }
    }
}

/// The statements of a block with a value, and a statement whose expression is its
/// value behind them, are all the statements of the block that stands there, in
/// number and in order.
pub proof fn blocks_with_a_value_keep_their_statements(g: Gram, i: int)
    requires
        0 <= i,
        g.expr_block(i).res is Ok,
    ensures
        ({
            let o = g.expr_block(i);
            let b = g.block(i);
            let all = b.tree().kids[0].kids;
            let ss = o.tree().kids[0].kids;
            &&& b.res is Ok
            &&& o.next == b.next
            &&& o.errs == b.errs
            &&& o.tree().label is ZtsExprBlock
            &&& o.tree().kids.len() == 2
            &&& o.tree().kids[0].label is List
            &&& all.len() == ss.len() + 1
            &&& forall|n: int| 0 <= n < ss.len() ==> #[trigger] ss[n] == all[n]
            &&& all[ss.len() as int].label is ExprStmt
            &&& all[ss.len() as int].kids.len() == 1
            &&& all[ss.len() as int].kids[0] == o.tree().kids[1]
        }),
{
    reveal(Gram::expr_block);
    reveal(Gram::block);
    sound_block(g, i);
    let b = g.block(i);
    lemma_parts(b.tree(), g.zts);
    lemma_parts(b.tree().kids[0], g.zts);
    lemma_parts(b.tree().kids[0].kids.last(), g.zts);
}

/// A block is the statements between its braces.
pub proof fn blocks_are_their_statements(g: Gram, i: int)
    requires
        0 <= i,
    ensures
        ({
            let o = g.block(i);
            let l = g.stmts(i + 1);
            &&& o.res is Ok <==> g.kind(i) == Token::LBrace && l.res is Ok && g.kind(l.next)
                == Token::RBrace
            &&& o.res is Ok ==> {
                &&& o.next == l.next + 1
                &&& o.tree().label is Block
                &&& o.tree().kids.len() == 1
                &&& o.tree().kids[0] == l.tree()
            }
        }),
{
    reveal(Gram::block);
    reveal(Gram::stmts);
    if i + 1 <= g.toks.len() {
        sound_stmts(g, i + 1);
    }
}

/// The first statement of a sequence is the one that stands at its start, and the
/// others are those behind it. The sequence ends at a closing brace.
pub proof fn statements_follow_each_other(g: Gram, i: int)
    requires
        0 <= i <= g.toks.len(),
        g.stmts(i).res is Ok,
    ensures
        ({
            let o = g.stmts(i);
            let s = g.stmt(i, true);
            let m = g.stmts(s.next);
            let none = g.kind(i) == Token::RBrace || g.kind(i) == Token::Eof;
            &&& none ==> o.next == i && o.tree().kids.len() == 0
            &&& !none ==> {
                &&& s.res is Ok
                &&& m.res is Ok
                &&& o.next == m.next
                &&& o.errs == s.errs + m.errs
                &&& o.tree().kids.len() == 1 + m.tree().kids.len()
                &&& o.tree().kids[0] == s.tree()
                &&& forall|n: int|
                    0 <= n < m.tree().kids.len() ==> #[trigger] m.tree().kids[n] == o.tree().kids[n
                        + 1]
            }
        }),
{
    reveal(Gram::stmts);
    reveal(Gram::stmt);
    sound_stmt(g, i, true);
    if g.stmt(i, true).res is Ok {
        sound_stmts(g, g.stmt(i, true).next);
    }
}

/// A field is accepted if and only if a name, a colon and a type stand there. It is
/// that name and that type.
pub proof fn fields_are_names_and_types(g: Gram, i: int)
    requires
        0 <= i,
        g.zts,
    ensures
        ({
            let y = g.ty(i + 2);
            let o = g.field(i);
            &&& o.res is Ok <==> g.kind(i).is_word() && g.kind(i + 1) == Token::Colon && y.res is Ok
            &&& o.res is Ok ==> {
                &&& o.next == y.next
                &&& o.errs == y.errs
                &&& o.tree().label is ZtsEnumField
                &&& o.tree().kids.len() == 2
                &&& is_name_at(g, o.tree().kids[0], i)
                &&& o.tree().kids[1] == y.tree()
            }
        }),
{
    reveal(Gram::field);
    reveal(Token::spec_is_word);
    sound_ty(g, i + 2);
}

/// A variant is accepted if and only if a name and fields in braces stand there. It
/// is that name and those fields.
pub proof fn variants_are_names_and_fields(g: Gram, i: int)
    requires
        0 <= i,
        g.zts,
    ensures
        ({
            let l = g.comma_list(ListKind::Fields, i + 2);
            let o = g.variant(i);
            &&& o.res is Ok <==> {
                &&& g.kind(i).is_word()
                &&& g.kind(i + 1) == Token::LBrace
                &&& l.res is Ok
                &&& g.kind(l.next) == Token::RBrace
            }
            &&& o.res is Ok ==> {
                &&& o.next == l.next + 1
                &&& o.errs == l.errs
                &&& o.tree().label is ZtsEnumVariant
                &&& o.tree().kids.len() == 2
                &&& is_ident_at(g, o.tree().kids[0], i)
                &&& o.tree().kids[1] == l.tree()
            }
        }),
{
    reveal(Gram::variant);
    reveal(Gram::comma_list);
    reveal(Token::spec_is_word);
    sound_comma_list(g, ListKind::Fields, i + 2);
}

/// An enum is accepted if and only if a name and variants in braces stand there. It
/// is that name and those variants.
#[verifier::rlimit(30)]
pub proof fn enums_are_names_and_variants(g: Gram, i: int, start: BytePos, is_const: bool)
    requires
        0 <= i,
        g.zts,
    ensures
        ({
            let l = g.comma_list(ListKind::Variants, i + 2);
            let o = g.zts_enum(i, start, is_const, false);
            &&& o.res is Ok <==> {
                &&& g.kind(i).is_word()
                &&& g.kind(i + 1) == Token::LBrace
                &&& l.res is Ok
                &&& g.kind(l.next) == Token::RBrace
            }
            &&& o.res is Ok ==> {
                &&& o.next == l.next + 1
                &&& o.tree().label is ZtsEnum
                &&& o.tree().kids.len() == 2
                &&& is_ident_at(g, o.tree().kids[0], i)
                &&& o.tree().kids[1] == l.tree()
            }
        }),
{
    const_enums_recover(g, i, start);
    reveal(Gram::zts_enum);
    reveal(Gram::comma_list);
    reveal(Token::spec_is_word);
    sound_comma_list(g, ListKind::Variants, i + 2);
}

/// A newtype is accepted if and only if a name, `=` and a type stand there, and the
/// statement ends behind them. It is that name and that type.
pub proof fn newtypes_are_names_and_types(g: Gram, i: int, start: BytePos)
    requires
        0 <= i,
        g.zts,
    ensures
        ({
            let y = g.ty(i + 2);
            let o = g.newtype(i, start, false);
            &&& o.res is Ok <==> {
                &&& g.kind(i).is_word()
                &&& g.kind(i + 1) == Token::Eq
                &&& y.res is Ok
                &&& stop(g, y.next, y.next) || stop(g, y.next, y.next + 1)
            }
            &&& o.res is Ok ==> {
                &&& stop(g, y.next, o.next)
                &&& o.errs == y.errs
                &&& o.tree().label is ZtsNewtype
                &&& o.tree().kids.len() == 2
                &&& is_ident_at(g, o.tree().kids[0], i)
                &&& o.tree().kids[1] == y.tree()
            }
        }),
{
    reveal(Gram::newtype);
    reveal(Token::spec_is_word);
    sound_ty(g, i + 2);
}

/// A word that names a type of the language is that type, and no other: two words
/// never name the same one.
pub proof fn words_name_their_types(g: Gram, i: int, kind: TsKeywordTypeKind)
    requires
        0 <= i < g.toks.len(),
        names_type(kind, g.kind(i), g.text(i)),
    ensures
        ({
            let o = g.ty_primary(i);
            &&& o.res is Ok
            &&& o.next == i + 1
            &&& o.errs.len() == 0
            &&& o.tree() == (Tree {
                label: Label::TsKeyword { kind },
                span: g.toks[i].span,
                kids: Seq::empty(),
            })
        }),
{
    reveal(Gram::ty_primary);
    reveal(Gram::ty);
    let named = keyword_type(g.kind(i), g.text(i));
    assert(named is Some && names_type(named->0, g.kind(i), g.text(i))) by {
        reveal(keyword_type);
    }
    lemma_type_words();
    let o = g.ty_primary(i);
    assert(o.tree().kids =~= Seq::empty());
}

/// A type that is a word of the language is named by that word.
pub proof fn types_are_named_by_their_words(g: Gram, i: int)
    requires
        0 <= i,
        g.ty_primary(i).res is Ok,
        g.ty_primary(i).tree().label is TsKeyword,
    ensures
        g.ty_primary(i).next == i + 1,
        names_type(g.ty_primary(i).tree().label->TsKeyword_kind, g.kind(i), g.text(i)),
{
    reveal(Gram::ty_primary);
    reveal(Gram::ty);
    reveal(keyword_type);
    sound_ty(g, i + 1);
}

/// A type that is a name is the identifier that stands there, and no word of the
/// language names it.
pub proof fn type_references_are_named(g: Gram, i: int)
    requires
        0 <= i,
        g.ty_primary(i).res is Ok,
        g.ty_primary(i).tree().label is TsTypeRef,
    ensures
        ({
            let o = g.ty_primary(i);
            &&& o.next == i + 1
            &&& o.tree().kids.len() == 1
            &&& is_ident_at(g, o.tree().kids[0], i)
            &&& forall|kind: TsKeywordTypeKind|
                !(#[trigger] names_type(kind, g.kind(i), g.text(i)))
        }),
{
    reveal(Gram::ty_primary);
    reveal(Gram::ty);
    reveal(keyword_type);
    sound_ty(g, i + 1);
}

/// A type that is one token is what that token names: the type of a newtype or of a
/// field that is written as a word of the language is the type that the word names.
pub proof fn single_words_are_types(g: Gram, i: int, kind: TsKeywordTypeKind)
    requires
        0 <= i < g.toks.len(),
        names_type(kind, g.kind(i), g.text(i)),
        g.kind(i + 1) != Token::Pipe,
        g.kind(i + 1) != Token::LBracket || g.nl(i + 1),
    ensures
        g.ty(i).res is Ok,
        g.ty(i).next == i + 1,
        g.ty(i).tree().label == (Label::TsKeyword { kind }),
        g.ty(i).tree().kids.len() == 0,
{
    words_name_their_types(g, i, kind);
    reveal(Gram::ty);
    reveal(Gram::ty_postfix);
    reveal(Gram::ty_primary);
    reveal(Gram::ty_suffix);
    reveal(Gram::more_types);
}

/// The words that name types are different words.
proof fn lemma_type_words()
    ensures
        forall|a: TsKeywordTypeKind, b: TsKeywordTypeKind, t: Token, w: Seq<char>|
            #[trigger] names_type(a, t, w) && #[trigger] names_type(b, t, w) ==> a == b,
{
    reveal_strlit("any");
    reveal_strlit("unknown");
    reveal_strlit("number");
    reveal_strlit("object");
    reveal_strlit("boolean");
    reveal_strlit("bigint");
    reveal_strlit("string");
    reveal_strlit("symbol");
    reveal_strlit("undefined");
    reveal_strlit("never");
    assert("any"@[0] == 'a');
    assert("unknown"@[0] == 'u' && "unknown"@[2] == 'k');
    assert("undefined"@[0] == 'u' && "undefined"@[2] == 'd');
    assert("number"@[0] == 'n' && "number"@[1] == 'u');
    assert("never"@[0] == 'n' && "never"@[1] == 'e');
    assert("object"@[0] == 'o');
    assert("boolean"@[0] == 'b' && "boolean"@[1] == 'o');
    assert("bigint"@[0] == 'b' && "bigint"@[1] == 'i');
    assert("string"@[0] == 's' && "string"@[1] == 't');
    assert("symbol"@[0] == 's' && "symbol"@[1] == 'y');
}

} // verus!
