//! What single tokens mean: operators, words, and the words that zts adds.
use crate::ast::decl::VarDeclKind;
use crate::ast::expr::{AssignOp, BinaryOp, UnaryOp};
use crate::error::Error;
use crate::grammar::{
    ambiguous_block, assign_op, binary_op, is_lit, precedence, right_precedence, unary_op,
    var_kind, Gram,
};
use crate::laws::sound::{sound_expr, sound_unary};
use crate::laws::spelling::{assign_sign, binary_sign, level, unary_sign, var_sign};
use crate::token::Token;
use crate::tree::{Label, Tree};
use vstd::prelude::*;

verus! {

/// Every operator between two operands is written as its sign, every sign stands for
/// its operator alone, and the operators bind as tightly as their levels say. All of
/// them group to the left, but for `**`.
pub proof fn binary_operators_have_their_signs(op: BinaryOp, t: Token)
    ensures
        binary_op(binary_sign(op)) == Some(op),
        binary_op(t) == Some(op) ==> t == binary_sign(op),
        precedence(op) == level(op),
        right_precedence(op) == if op == BinaryOp::Exp {
            10
        } else {
            level(op)
        },
{
    reveal(binary_op);
    reveal(precedence);
    reveal(right_precedence);
    reveal(level);
}

/// Every operator that assigns is written as its sign, and every sign stands for its
/// operator alone.
pub proof fn assignments_have_their_signs(op: AssignOp, t: Token)
    ensures
        assign_op(assign_sign(op)) == Some(op),
        assign_op(t) == Some(op) ==> t == assign_sign(op),
{
    reveal(assign_op);
}

/// A declaration of variables starts with the word of its kind, and with no other.
pub proof fn declarations_have_their_words(kind: VarDeclKind, t: Token)
    ensures
        var_kind(var_sign(kind)) == Some(kind),
        var_kind(t) == Some(kind) ==> t == var_sign(kind),
{
    reveal(var_kind);
}

/// Whether a token is a word or a literal that an operand of `not` can start with.
/// The words that are operators between two operands cannot.
pub open spec fn starts_operand(t: Token) -> bool {
    &&& t.is_word() || t == Token::Num || t == Token::Str || t == Token::BigInt
    &&& t != Token::In
    &&& t != Token::InstanceOf
    &&& t != Token::As
    &&& t != Token::Satisfies
    &&& t != Token::Of
}

/// `not` is an operator if and only if zts is on and a word or a literal stands behind
/// it on the same line.
pub proof fn not_is_an_operator_before_operands(g: Gram, i: int)
    ensures
        g.not_operator(i) <==> {
            &&& g.zts
            &&& g.kind(i).is_word()
            &&& g.text(i) == "not"@
            &&& !g.nl(i + 1)
            &&& starts_operand(g.kind(i + 1))
        },
{
    reveal(Gram::not_operator);
    reveal(Token::spec_is_word);
}

/// An operator stands before an operand if and only if its sign does: `not`, where it
/// is an operator, stands for `!`.
pub proof fn prefixes_have_their_signs(g: Gram, i: int, op: UnaryOp)
    ensures
        g.prefix_op(i) == Some(op) ==> unary_sign(g, op, i),
        g.not_operator(i) ==> g.prefix_op(i) == Some(UnaryOp::Bang),
        unary_sign(g, op, i) && !(op == UnaryOp::Bang && g.kind(i) != Token::Bang)
            && !g.not_operator(i) ==> g.prefix_op(i) == Some(op),
{
    reveal(Gram::prefix_op);
    reveal(Gram::not_operator);
    reveal(unary_op);
    reveal(Token::spec_is_word);
}

/// An operator applies to the operand that stands behind it, and to that alone.
pub proof fn prefixes_apply_to_their_operands(g: Gram, i: int, op: UnaryOp)
    requires
        0 <= i,
        g.prefix_op(i) == Some(op),
    ensures
        ({
            let a = g.unary(i + 1);
            let o = g.unary(i);
            &&& o.res is Ok <==> a.res is Ok
            &&& a.res is Err ==> o.res == a.res
            &&& o.res is Ok ==> {
                &&& o.next == a.next
                &&& o.errs == a.errs
                &&& o.tree().label == (Label::Unary { op })
                &&& o.tree().kids.len() == 1
                &&& o.tree().kids[0] == a.tree()
            }
        }),
{
    reveal(Gram::unary);
    g.lemma_prefix_op(i);
    sound_unary(g, i + 1);
}

/// A literal is an expression: the literal that it is.
pub proof fn literals_are_expressions(g: Gram, i: int)
    requires
        0 <= i < g.toks.len(),
    ensures
        ({
            let t = g.toks[i];
            let o = g.primary(i);
            let lit = |label: Label| {
                o.res == Ok::<Tree, Error>(
                    Tree { label, span: t.span, kids: Seq::empty() },
                ) && o.next == i + 1
            };
            match t.kind {
                Token::Str => lit(Label::Str { raw: t.text }),
                Token::Num => lit(Label::Num { raw: t.text }),
                Token::BigInt => lit(Label::BigInt { raw: t.text }),
                Token::True => t.text != "match"@ ==> lit(Label::Bool { value: true }),
                Token::False => t.text != "match"@ ==> lit(Label::Bool { value: false }),
                Token::Null => t.text != "match"@ ==> lit(Label::Null),
                _ => true,
            }
        }),
{
    g.lemma_primary(i);
    reveal(is_lit);
    reveal(Gram::match_keyword);
    reveal(Token::spec_is_word);
    reveal(Token::spec_is_ident_like);
}

/// With zts on, `if` starts an `if` expression where an expression is wanted; with
/// zts off it starts none.
pub proof fn if_starts_an_expression_with_zts_alone(g: Gram, i: int)
    requires
        0 <= i,
        g.kind(i) == Token::If,
        g.text(i) != "match"@,
    ensures
        g.zts ==> g.primary(i) == g.if_expr(i, g.lo(i)),
        !g.zts ==> g.primary(i).res is Err,
{
    g.lemma_primary(i);
    reveal(is_lit);
    reveal(Gram::match_keyword);
    reveal(Token::spec_is_ident_like);
}

/// With zts on, `match` with a parenthesis behind it could start a match expression.
pub proof fn match_keywords_stand_before_a_parenthesis(g: Gram, i: int)
    ensures
        g.match_keyword(i) <==> {
            &&& g.zts
            &&& g.kind(i).is_word()
            &&& g.text(i) == "match"@
            &&& g.kind(i + 1) == Token::LParen
        },
{
    reveal(Gram::match_keyword);
}

/// A header of a match expression stands behind a word if and only if an expression in
/// parentheses stands there, a `{` on the line of the `)`, and behind it a word, a
/// string, a number or a minus, with which a pattern can start. The discriminant is that
/// expression.
pub proof fn headers_are_expressions_in_parentheses(g: Gram, i: int)
    requires
        0 <= i,
        g.kind(i).is_word(),
    ensures
        ({
            let d = g.expr(i + 2);
            let h = g.match_header(i);
            let t = g.kind(d.next + 2);
            &&& h is Some <==> {
                &&& g.kind(i + 1) == Token::LParen
                &&& d.res is Ok
                &&& g.kind(d.next) == Token::RParen
                &&& g.kind(d.next + 1) == Token::LBrace
                &&& !g.nl(d.next + 1)
                &&& t.is_word() || t == Token::Str || t == Token::Num || t == Token::Minus
            }
            &&& h is Some ==> h->0.res == d.res && h->0.next == d.next + 1 && h->0.errs == d.errs
        }),
{
    reveal(Gram::match_header);
    reveal(Gram::expr);
    reveal(Token::spec_is_word);
    sound_expr(g, i + 2);
}

/// The word `newtype` declares one if and only if zts is on and an identifier stands
/// behind it on the same line.
pub proof fn newtypes_stand_before_identifiers(g: Gram, i: int)
    ensures
        g.newtype_ahead(i) <==> {
            &&& g.zts
            &&& g.kind(i).is_ident_like()
            &&& g.text(i) == "newtype"@
            &&& g.kind(i + 1).is_ident_like()
            &&& !g.nl(i + 1)
        },
{
    reveal(Gram::newtype_ahead);
}

/// An enum is a statement where declarations may stand: with zts on, one of zts, which
/// starts with `enum` or with `const enum`.
pub proof fn enums_are_declared(g: Gram, i: int)
    requires
        0 <= i,
        g.zts,
    ensures
        g.kind(i) == Token::Enum ==> g.stmt(i, true) == g.zts_enum(i + 1, g.lo(i), false, false),
        g.kind(i) == Token::Const && g.kind(i + 1) == Token::Enum ==> g.stmt(i, true)
            == g.zts_enum(i + 2, g.lo(i), true, false),
{
    reveal(Gram::stmt);
    reveal(Gram::any_enum);
    reveal(Gram::zts_enum);
}

/// A block with a value could be read as an object literal if and only if it has no
/// statements, and its value is an identifier or a sequence of identifiers.
pub proof fn blocks_of_bare_identifiers_are_ambiguous(t: Tree)
    requires
        t.kids.len() == 2,
    ensures
        ambiguous_block(t) <==> {
            let v = t.kids[1];
            &&& t.kids[0].kids.len() == 0
            &&& {
                ||| v.label is Ident
                ||| v.label is SeqExpr && forall|k: int|
                    0 <= k < v.kids.len() ==> (#[trigger] v.kids[k]).label is Ident
            }
        },
{
}

} // verus!
