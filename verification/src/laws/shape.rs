//! Trees that are well formed, and tokens that the grammar has a place for.
use crate::error::{Error, SyntaxError};
use crate::grammar::{ambiguous_block, arm_starter, Gram, ListKind, Out};
use crate::span::Span;
use crate::token::Token;
use crate::tree::{absent, kids1, kids2, kids3, kids4, list, Label, Tree};
use vstd::prelude::*;

verus! {

/// What a node has to be like, besides its parts being well formed.
///
/// - A match expression has at least one arm, and the body of an arm is no block
///   that could be read as an object literal.
/// - An `if` expression has a block with a value and an alternative, which is
///   such a block or another `if` expression.
/// - An expression statement has one part.
/// - With zts off there is nothing that zts adds; with zts on there is no enum of
///   TypeScript.
pub open spec fn node_fits(t: Tree, zts: bool) -> bool {
    match t.label {
        Label::Match => zts && t.kids.len() == 2 && t.kids[1].kids.len() > 0,
        Label::MatchArm => {
            &&& zts
            &&& t.kids.len() == 2
            &&& !(t.kids[1].label is ZtsExprBlock && ambiguous_block(t.kids[1]))
        },
        Label::ZtsIf => {
            &&& zts
            &&& t.kids.len() == 3
            &&& t.kids[1].label is ZtsExprBlock
            &&& t.kids[2].label is ZtsIf || t.kids[2].label is ZtsExprBlock
        },
        Label::ZtsExprBlock => zts && t.kids.len() == 2,
        Label::MatchWildcard
        | Label::MatchLit { .. }
        | Label::MatchVariant
        | Label::ZtsEnum
        | Label::ZtsEnumVariant
        | Label::ZtsEnumField
        | Label::ZtsNewtype => zts,
        Label::TsEnum { .. } => !zts,
        Label::ExprStmt => t.kids.len() == 1,
        _ => true,
    }
}

/// Whether every node of a tree is as it has to be.
#[verifier::opaque]
pub open spec fn well_formed(t: Tree, zts: bool) -> bool
    decreases t,
{
    &&& node_fits(t, zts)
    &&& forall|k: int|
        0 <= k < t.kids.len() ==> (if 0 <= k < t.kids.len() {
            well_formed(#[trigger] t.kids[k], zts)
        } else {
            true
        })
}

/// Whether all of the trees are well formed.
pub open spec fn all_well_formed(ts: Seq<Tree>, zts: bool) -> bool {
    forall|k: int| 0 <= k < ts.len() ==> well_formed(#[trigger] ts[k], zts)
}

/// Whether a token is one that the grammar has no place for, or one that needs
/// others: a point, which needs a word behind it, or a parenthesis.
pub open spec fn odd(t: Token) -> bool {
    ||| t == Token::Eof
    ||| t == Token::Error
    ||| t == Token::DotDotEq
    ||| t == Token::Dot
    ||| t == Token::LParen
    ||| t == Token::RParen
}

/// Whether the grammar has a place for the token at an index: it is neither the
/// end of the text nor text that is no token, it is no `..=`, and where it is a
/// point, a word follows it.
pub open spec fn fine(g: Gram, k: int) -> bool {
    &&& 0 <= k < g.toks.len()
    &&& g.kind(k) != Token::Eof
    &&& g.kind(k) != Token::Error
    &&& g.kind(k) != Token::DotDotEq
    &&& g.kind(k) == Token::Dot ==> g.kind(k + 1).is_word()
}

/// Whether the parentheses between two indices are in pairs: what closes those
/// that were open before comes behind.
pub open spec fn paired(g: Gram, i: int, j: int) -> bool {
    forall|depth: int| depth >= 1 ==> #[trigger] g.after_close(i, depth) == g.after_close(j, depth)
}

/// Whether the grammar has a place for each of the tokens between two indices, and
/// the parentheses among them are in pairs.
#[verifier::opaque]
pub open spec fn all_fine(g: Gram, i: int, j: int) -> bool {
    &&& forall|k: int| i <= k < j ==> #[trigger] fine(g, k)
    &&& paired(g, i, j)
}

/// Whether the errors that parsing goes on after are those of a `const enum`,
/// which only zts has.
#[verifier::opaque]
pub open spec fn reported(errs: Seq<Error>, zts: bool) -> bool {
    forall|k: int|
        0 <= k < errs.len() ==> zts && (#[trigger] errs[k]).error == SyntaxError::ZtsConstEnum
}

/// What holds of every phrase that may be empty.
pub open spec fn sound_part(g: Gram, i: int, o: Out) -> bool {
    &&& o.res matches Ok(t) ==> {
        &&& i <= o.next <= g.toks.len()
        &&& all_fine(g, i, o.next)
        &&& well_formed(t, g.zts)
    }
    &&& reported(o.errs, g.zts)
}

/// What holds of every phrase.
pub open spec fn sound(g: Gram, i: int, o: Out) -> bool {
    &&& sound_part(g, i, o)
    &&& o.res is Ok ==> i < o.next
}

/// What holds of every expression.
pub open spec fn is_sound_expr(g: Gram, i: int, o: Out) -> bool {
    &&& sound(g, i, o)
    &&& o.res matches Ok(t) ==> !(t.label is ZtsExprBlock)
}

/// What holds of every sequence.
pub open spec fn sound_list(g: Gram, i: int, o: Out) -> bool {
    &&& sound_part(g, i, o)
    &&& o.res matches Ok(t) ==> t == list(t.kids) && all_well_formed(t.kids, g.zts)
}

/// Whether only zts has sequences of a kind.
pub open spec fn zts_list(k: ListKind) -> bool {
    k is Arms || k is Variants || k is Fields
}

/// Two runs of tokens, one behind the other.
pub broadcast proof fn lemma_join(g: Gram, i: int, j: int, k: int)
    requires
        #[trigger] all_fine(g, i, j),
        #[trigger] all_fine(g, j, k),
    ensures
        all_fine(g, i, k),
{
    reveal(all_fine);
}

/// No token at all.
pub broadcast proof fn lemma_no_token(g: Gram, i: int)
    ensures
        #[trigger] all_fine(g, i, i),
{
    reveal(all_fine);
}

/// One token.
pub broadcast proof fn lemma_one_token(g: Gram, i: int)
    requires
        0 <= i,
        !odd(#[trigger] g.kind(i)),
    ensures
        all_fine(g, i, i + 1),
        i < g.toks.len(),
{
    reveal(all_fine);
}

/// A pair of parentheses.
pub(crate) proof fn lemma_parens(g: Gram, i: int, j: int)
    requires
        0 <= i < j,
        g.kind(i) == Token::LParen,
        all_fine(g, i + 1, j),
        g.kind(j) == Token::RParen,
    ensures
        all_fine(g, i, j + 1),
        j < g.toks.len(),
{
    reveal(all_fine);
    assert forall|depth: int| depth >= 1 implies #[trigger] g.after_close(i, depth)
        == g.after_close(j + 1, depth) by {
        assert(g.after_close(i, depth) == g.after_close(i + 1, depth + 1));
        assert(g.after_close(j, depth + 1) == g.after_close(j + 1, depth));
    }
}

/// No error at all.
pub broadcast proof fn lemma_no_error(zts: bool)
    ensures
        #[trigger] reported(Seq::empty(), zts),
{
    reveal(reported);
}

/// Errors behind errors.
pub broadcast proof fn lemma_more_errors(a: Seq<Error>, b: Seq<Error>, zts: bool)
    requires
        reported(a, zts),
        reported(b, zts),
    ensures
        #[trigger] reported(a + b, zts),
{
    reveal(reported);
}

pub broadcast group group_sound {
    lemma_join,
    lemma_no_token,
    lemma_one_token,
    lemma_no_error,
    lemma_more_errors,
}

pub(crate) proof fn lemma_list(t: Tree, ts: Seq<Tree>, zts: bool)
    requires
        t.kids == ts,
        node_fits(t, zts),
        all_well_formed(ts, zts),
    ensures
        well_formed(t, zts),
{
    reveal(well_formed);
}

pub(crate) proof fn lemma_parts(t: Tree, zts: bool)
    requires
        well_formed(t, zts),
    ensures
        node_fits(t, zts),
        all_well_formed(t.kids, zts),
{
    reveal(well_formed);
}

pub(crate) proof fn lemma_leaf(t: Tree, zts: bool)
    requires
        t.kids == Seq::<Tree>::empty(),
        node_fits(t, zts),
    ensures
        well_formed(t, zts),
{
    reveal(well_formed);
}

pub(crate) proof fn lemma_absent(zts: bool)
    ensures
        well_formed(absent(), zts),
{
    reveal(well_formed);
}

pub(crate) proof fn lemma_nothing(zts: bool)
    ensures
        well_formed(list(Seq::empty()), zts),
{
    reveal(well_formed);
}

pub(crate) proof fn lemma_grow_front(t: Tree, ts: Seq<Tree>, zts: bool)
    requires
        well_formed(t, zts),
        all_well_formed(ts, zts),
    ensures
        all_well_formed(seq![t] + ts, zts),
{
}

pub(crate) proof fn lemma_wf1(t: Tree, a: Tree, zts: bool)
    requires
        t.kids == kids1(a),
        node_fits(t, zts),
        well_formed(a, zts),
    ensures
        well_formed(t, zts),
{
    reveal(well_formed);
}

pub(crate) proof fn lemma_wf2(t: Tree, a: Tree, b: Tree, zts: bool)
    requires
        t.kids == kids2(a, b),
        node_fits(t, zts),
        well_formed(a, zts),
        well_formed(b, zts),
    ensures
        well_formed(t, zts),
{
    reveal(well_formed);
}

pub(crate) proof fn lemma_wf3(t: Tree, a: Tree, b: Tree, c: Tree, zts: bool)
    requires
        t.kids == kids3(a, b, c),
        node_fits(t, zts),
        well_formed(a, zts),
        well_formed(b, zts),
        well_formed(c, zts),
    ensures
        well_formed(t, zts),
{
    reveal(well_formed);
}

pub(crate) proof fn lemma_wf4(t: Tree, a: Tree, b: Tree, c: Tree, d: Tree, zts: bool)
    requires
        t.kids == kids4(a, b, c, d),
        node_fits(t, zts),
        well_formed(a, zts),
        well_formed(b, zts),
        well_formed(c, zts),
        well_formed(d, zts),
    ensures
        well_formed(t, zts),
{
    reveal(well_formed);
}

/// A match expression with at least one arm.
pub(crate) proof fn lemma_match(t: Tree, d: Tree, l: Tree)
    requires
        t.label is Match,
        t.kids == kids2(d, l),
        l.kids.len() > 0,
        well_formed(d, true),
        well_formed(l, true),
    ensures
        well_formed(t, true),
{
    assert(t.kids[1] == l);
    lemma_wf2(t, d, l, true);
}

/// An `if` expression.
pub(crate) proof fn lemma_if(t: Tree, a: Tree, b: Tree, c: Tree)
    requires
        t.label is ZtsIf,
        t.kids == kids3(a, b, c),
        b.label is ZtsExprBlock,
        c.label is ZtsIf || c.label is ZtsExprBlock,
        well_formed(a, true),
        well_formed(b, true),
        well_formed(c, true),
    ensures
        well_formed(t, true),
{
    assert(t.kids[1] == b && t.kids[2] == c);
    lemma_wf3(t, a, b, c, true);
}

/// A block whose value is that of its last statement.
pub(crate) proof fn lemma_tail(t: Tree, ss: Seq<Tree>)
    requires
        all_well_formed(ss, true),
        ss.len() > 0,
        ss.last().label is ExprStmt,
        t.label is ZtsExprBlock,
        t.kids == kids2(list(ss.drop_last()), ss.last().kids[0]),
    ensures
        well_formed(t, true),
{
    lemma_parts(ss.last(), true);
    assert(all_well_formed(ss.drop_last(), true));
    lemma_list(list(ss.drop_last()), ss.drop_last(), true);
    lemma_wf2(t, list(ss.drop_last()), ss.last().kids[0], true);
}

/// No arm starts with a closing brace.
pub(crate) proof fn lemma_arm_starter(t: Token)
    requires
        arm_starter(t),
    ensures
        t != Token::RBrace,
{
    reveal(Token::spec_is_word);
}

/// The error of a `const enum`.
pub(crate) proof fn lemma_const_enum(span: Span)
    ensures
        reported(seq![Error { span, error: SyntaxError::ZtsConstEnum }], true),
{
    reveal(reported);
}

/// A point and a word.
pub(crate) proof fn lemma_point(g: Gram, i: int)
    requires
        0 <= i,
        g.kind(i) == Token::Dot,
        g.kind(i + 1).is_word(),
    ensures
        all_fine(g, i, i + 2),
{
    reveal(all_fine);
    reveal(Token::spec_is_word);
    assert forall|depth: int| depth >= 1 implies #[trigger] g.after_close(i, depth)
        == g.after_close(i + 2, depth) by {
        assert(g.after_close(i, depth) == g.after_close(i + 1, depth));
        assert(g.after_close(i + 1, depth) == g.after_close(i + 2, depth));
    }
}

} // verus!
