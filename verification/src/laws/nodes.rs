//! What the nodes that the parser returns hold.
//!
//! A parsing function is held to the grammar through the tree of the node that it
//! returns. These laws say, of the nodes that zts adds and of the expressions and
//! types round them, what that means for the node itself.
use crate::ast::decl::{Decl, VarDecl, VarDeclarator, ZtsEnumField, ZtsEnumVariant};
use crate::ast::expr::{
    BlockStmtOrExpr, Expr, MatchArm, MatchPat, MemberProp, ZtsExprBlock, ZtsIfAlt, ZtsIfExpr,
};
use crate::ast::ident::{Ident, IdentName};
use crate::ast::lit::Lit;
use crate::ast::pat::{ObjectPatProp, Pat};
use crate::ast::stmt::Stmt;
use crate::ast::typescript::{TsType, TsTypeAnn};
use crate::atom::atom_text;
use crate::error::Error;
use crate::grammar::{Gram, ListKind};
use crate::laws::meaning::{
    alternative, arms_are_patterns_and_bodies, blocks_with_a_value_keep_their_statements,
    enums_are_names_and_variants, fields_are_names_and_types, if_expressions_are_tests_and_blocks,
    is_ident_at, literal_patterns_match_their_literal, matches_are_discriminants_and_arms,
    newtypes_are_names_and_types, patterns_are_told_apart, type_references_are_named,
    types_are_named_by_their_words, variant_patterns_are_names_and_bindings,
    variants_are_names_and_fields,
};
use crate::laws::spelling::names_type;
use crate::parser::input::{yields, State};
use crate::span::{BytePos, Span, SyntaxContext};
use crate::token::Token;
use crate::tree::{absent, trees, HasTree, Label, Tree};
use vstd::prelude::*;

verus! {

/// Whether a node is the literal that the token at an index is.
pub open spec fn holds_literal(g: Gram, lit: Lit, i: int) -> bool {
    match lit {
        Lit::Str(s) => {
            g.kind(i) == Token::Str && atom_text(s.raw) == g.text(i) && s.span == g.toks[i].span
        },
        Lit::Num(n) => {
            g.kind(i) == Token::Num && atom_text(n.raw) == g.text(i) && n.span == g.toks[i].span
        },
        Lit::Bool(b) => {
            &&& b.value ==> g.kind(i) == Token::True
            &&& !b.value ==> g.kind(i) == Token::False
            &&& b.span == g.toks[i].span
        },
        Lit::Null(n) => g.kind(i) == Token::Null && n.span == g.toks[i].span,
        Lit::BigInt(b) => {
            g.kind(i) == Token::BigInt && atom_text(b.raw) == g.text(i) && b.span == g.toks[i].span
        },
    }
}

/// Whether a node is the identifier that the token at an index is.
pub open spec fn holds_ident(g: Gram, id: Ident, i: int) -> bool {
    &&& g.kind(i).is_word()
    &&& atom_text(id.sym) == g.text(i)
    &&& id.span == g.toks[i].span
    &&& id.ctxt == SyntaxContext(0)
    &&& !id.optional
}

/// Whether a node is the name that the token at an index is.
pub open spec fn holds_name(g: Gram, name: IdentName, i: int) -> bool {
    g.kind(i).is_word() && atom_text(name.sym) == g.text(i) && name.span == g.toks[i].span
}

/// Whether nodes have the given trees, one by one.
pub open spec fn have_trees<T: HasTree>(v: Seq<T>, ts: Seq<Tree>) -> bool {
    v.len() == ts.len() && forall|k: int|
        0 <= k < v.len() ==> (#[trigger] v[k]).as_tree() == ts[k]
}

proof fn lemma_have_trees<T: HasTree>(v: Seq<T>)
    ensures
        have_trees(v, trees(v)),
{
}

/// A pattern that the parser returns: a literal, negative if and only if a minus
/// stands before it; the wildcard `_`; or a name with what it binds.
pub proof fn parsed_patterns(pre: State, post: State, p: MatchPat)
    requires
        0 <= pre.pos,
        pre.zts,
        yields(pre, post, Ok::<MatchPat, Error>(p), pre.g().match_pattern(pre.pos)),
    ensures
        ({
            let g = pre.g();
            match p {
                MatchPat::Lit(l) => {
                    &&& l.neg <==> g.kind(pre.pos) == Token::Minus
                    &&& holds_literal(g, l.lit, post.pos - 1)
                    &&& post.pos == pre.pos + if l.neg {
                        2int
                    } else {
                        1int
                    }
                },
                MatchPat::Wildcard(_) => {
                    &&& g.text(pre.pos) == "_"@
                    &&& g.kind(pre.pos + 1) == Token::Arrow
                    &&& post.pos == pre.pos + 1
                },
                MatchPat::Variant(v) => {
                    &&& holds_ident(g, v.name, pre.pos)
                    &&& v.binding is Some
                    &&& v.binding->0.tree() == g.object_pat(pre.pos + 1).tree()
                    &&& post.pos == g.object_pat(pre.pos + 1).next
                },
            }
        }),
{
    p.lemma_tree();
    let g = pre.g();
    patterns_are_told_apart(g, pre.pos);
    match p {
        MatchPat::Lit(_) => literal_patterns_match_their_literal(g, pre.pos),
        MatchPat::Wildcard(_) => {},
        MatchPat::Variant(_) => variant_patterns_are_names_and_bindings(g, pre.pos),
    }
}

/// An arm that the parser returns: its pattern is the one before the `=>`, its body
/// the one behind it.
pub proof fn parsed_arms(pre: State, post: State, x: MatchArm)
    requires
        0 <= pre.pos,
        pre.zts,
        yields(pre, post, Ok::<MatchArm, Error>(x), pre.g().arm(pre.pos)),
    ensures
        ({
            let p = pre.g().match_pattern(pre.pos);
            let b = pre.g().arm_body(p.next + 1);
            &&& p.res is Ok
            &&& b.res is Ok
            &&& x.pattern.tree() == p.tree()
            &&& x.body.tree() == b.tree()
            &&& post.pos == b.next
        }),
{
    x.lemma_tree();
    arms_are_patterns_and_bodies(pre.g(), pre.pos);
}

/// A match expression that the parser returns for the word `match` at `i`: its
/// discriminant is the expression between the parentheses, and its arms are those
/// between the braces, in their order.
pub proof fn parsed_matches(pre: State, post: State, e: Box<Expr>)
    requires
        0 <= pre.pos,
        pre.zts,
        pre.g().match_header(pre.pos) is Some,
        yields(
            pre,
            post,
            Ok::<Box<Expr>, Error>(e),
            pre.g().match_body(pre.g().lo(pre.pos), pre.g().match_header(pre.pos)->0),
        ),
    ensures
        *e is Match,
        ({
            let d = pre.g().expr(pre.pos + 2);
            let l = pre.g().comma_list(ListKind::Arms, d.next + 2);
            let m = e->Match_0;
            &&& m.discriminant.tree() == d.tree()
            &&& have_trees(m.arms@, l.tree().kids)
            &&& post.pos == l.next + 1
        }),
{
    e.lemma_tree();
    e.lemma_label();
    matches_are_discriminants_and_arms(pre.g(), pre.pos);
    let m = e->Match_0;
    m.lemma_tree();
    lemma_have_trees(m.arms@);
}

/// An `if` expression that the parser returns: its test is the expression between the
/// parentheses, its first block the one behind them, and its alternative the block, or
/// the `if` expression, behind `else`.
pub proof fn parsed_ifs(pre: State, post: State, start: BytePos, x: ZtsIfExpr)
    requires
        0 <= pre.pos,
        pre.zts,
        yields(
            pre,
            post,
            Ok::<ZtsIfExpr, Error>(x),
            pre.g().if_expr(pre.pos, start),
        ),
    ensures
        ({
            let g = pre.g();
            let t = g.expr(pre.pos + 2);
            let c = g.expr_block(t.next + 1);
            let a = alternative(g, c.next + 1);
            &&& x.test.tree() == t.tree()
            &&& x.cons.tree() == c.tree()
            &&& match x.alt {
                ZtsIfAlt::Block(b) => b.tree() == a.tree(),
                ZtsIfAlt::If(y) => y.tree() == a.tree(),
            }
            &&& post.pos == a.next
        }),
{
    x.lemma_tree();
    x.alt.lemma_tree();
    if_expressions_are_tests_and_blocks(pre.g(), pre.pos, start);
}

/// A block with a value that the parser returns: its statements, and its value as a
/// statement behind them, are the statements of the block that stands there.
pub proof fn parsed_blocks(pre: State, post: State, x: ZtsExprBlock)
    requires
        0 <= pre.pos,
        yields(
            pre,
            post,
            Ok::<ZtsExprBlock, Error>(x),
            pre.g().expr_block(pre.pos),
        ),
    ensures
        ({
            let b = pre.g().block(pre.pos);
            let all = b.tree().kids[0].kids;
            &&& all.len() == x.stmts@.len() + 1
            &&& forall|k: int|
                0 <= k < x.stmts@.len() ==> (#[trigger] x.stmts@[k]).tree() == all[k]
            &&& all.last().label is ExprStmt
            &&& x.tail.tree() == all.last().kids[0]
            &&& post.pos == b.next
        }),
{
    x.lemma_tree();
    lemma_have_trees(x.stmts@);
    blocks_with_a_value_keep_their_statements(pre.g(), pre.pos);
    let ss = pre.g().expr_block(pre.pos).tree().kids[0].kids;
    assert forall|k: int| 0 <= k < x.stmts@.len() implies (#[trigger] x.stmts@[k]).tree()
        == pre.g().block(pre.pos).tree().kids[0].kids[k] by {
        assert(x.stmts@[k].as_tree() == ss[k]);
    }
}

/// A field that the parser returns: its name is the word before the colon, its type
/// the one behind it.
pub proof fn parsed_fields(pre: State, post: State, x: ZtsEnumField)
    requires
        0 <= pre.pos,
        pre.zts,
        yields(pre, post, Ok::<ZtsEnumField, Error>(x), pre.g().field(pre.pos)),
    ensures
        holds_name(pre.g(), x.name, pre.pos),
        x.type_ann.tree() == pre.g().ty(pre.pos + 2).tree(),
        post.pos == pre.g().ty(pre.pos + 2).next,
{
    x.lemma_tree();
    fields_are_names_and_types(pre.g(), pre.pos);
}

/// A variant that the parser returns: its name is the word before the brace, and its
/// fields are those between the braces, in their order.
pub proof fn parsed_variants(pre: State, post: State, x: ZtsEnumVariant)
    requires
        0 <= pre.pos,
        pre.zts,
        yields(pre, post, Ok::<ZtsEnumVariant, Error>(x), pre.g().variant(pre.pos)),
    ensures
        ({
            let l = pre.g().comma_list(ListKind::Fields, pre.pos + 2);
            &&& holds_ident(pre.g(), x.name, pre.pos)
            &&& have_trees(x.fields@, l.tree().kids)
            &&& post.pos == l.next + 1
        }),
{
    x.lemma_tree();
    lemma_have_trees(x.fields@);
    variants_are_names_and_fields(pre.g(), pre.pos);
}

/// An enum that the parser returns: its name is the word before the brace, and its
/// variants are those between the braces, in their order.
pub proof fn parsed_enums(pre: State, post: State, start: BytePos, is_const: bool, d: Decl)
    requires
        0 <= pre.pos,
        pre.zts,
        yields(
            pre,
            post,
            Ok::<Decl, Error>(d),
            pre.g().zts_enum(pre.pos, start, is_const, false),
        ),
    ensures
        d is ZtsEnum,
        ({
            let l = pre.g().comma_list(ListKind::Variants, pre.pos + 2);
            let x = *d->ZtsEnum_0;
            &&& holds_ident(pre.g(), x.ident, pre.pos)
            &&& have_trees(x.variants@, l.tree().kids)
            &&& post.pos == l.next + 1
        }),
{
    d.lemma_tree();
    lemma_decl_label(d);
    enums_are_names_and_variants(pre.g(), pre.pos, start, is_const);
    let x = *d->ZtsEnum_0;
    x.lemma_tree();
    lemma_have_trees(x.variants@);
}

/// A newtype that the parser returns: its name is the word before the `=`, its type
/// the one behind it.
pub proof fn parsed_newtypes(pre: State, post: State, start: BytePos, d: Decl)
    requires
        0 <= pre.pos,
        pre.zts,
        yields(
            pre,
            post,
            Ok::<Decl, Error>(d),
            pre.g().newtype(pre.pos, start, false),
        ),
    ensures
        d is ZtsNewtype,
        ({
            let x = *d->ZtsNewtype_0;
            &&& holds_ident(pre.g(), x.ident, pre.pos)
            &&& x.type_ann.tree() == pre.g().ty(pre.pos + 2).tree()
        }),
{
    d.lemma_tree();
    lemma_decl_label(d);
    newtypes_are_names_and_types(pre.g(), pre.pos, start);
    let x = *d->ZtsNewtype_0;
    x.lemma_tree();
}

/// The label of a declaration tells what it is.
proof fn lemma_decl_label(d: Decl)
    ensures
        d.tree().label is ZtsEnum <==> d is ZtsEnum,
        d.tree().label is ZtsNewtype <==> d is ZtsNewtype,
{
    d.lemma_tree();
    match d {
        Decl::Class(x) => x.lemma_tree(),
        Decl::Fn(x) => x.lemma_tree(),
        Decl::Var(x) => x.lemma_tree(),
        Decl::Using(x) => x.lemma_tree(),
        Decl::TsEnum(x) => x.lemma_tree(),
        Decl::ZtsEnum(x) => x.lemma_tree(),
        Decl::ZtsNewtype(x) => x.lemma_tree(),
        Decl::ZtsImpl(x) => x.lemma_tree(),
        _ => {},
    }
}

/// Whether a tree has a label, a span and parts.
pub open spec fn is_node(t: Tree, label: Label, span: Span, parts: Seq<Tree>) -> bool {
    &&& t.label == label
    &&& t.span == span
    &&& t.kids.len() == parts.len()
    &&& forall|k: int| 0 <= k < parts.len() ==> #[trigger] t.kids[k] == parts[k]
}

/// Whether a tree is a sequence of the trees of nodes, in their order.
pub open spec fn is_sequence_of<T: HasTree>(t: Tree, v: Seq<T>) -> bool {
    t.label is List && have_trees(v, t.kids)
}

/// The tree of a node that may be left out.
pub open spec fn tree_or_absent<T: HasTree>(x: Option<T>) -> Tree {
    match x {
        Some(y) => y.as_tree(),
        None => absent(),
    }
}

/// The tree of a type that may be left out.
pub open spec fn annotation(x: Option<Box<TsTypeAnn>>) -> Tree {
    match x {
        Some(y) => y.tree(),
        None => absent(),
    }
}

/// The parts of the tree of an expression are the parts of the expression, in source
/// order.
pub proof fn trees_of_expressions(e: Expr)
    ensures
        ({
            let t = e.tree();
            match e {
                Expr::Array(x) => {
                    t.label is Array && t.span == x.span && have_trees(x.elems@, t.kids)
                },
                Expr::Object(x) => {
                    t.label is Object && t.span == x.span && have_trees(x.props@, t.kids)
                },
                Expr::Unary(x) => is_node(
                    t,
                    Label::Unary { op: x.op },
                    x.span,
                    seq![x.arg.tree()],
                ),
                Expr::Bin(x) => is_node(
                    t,
                    Label::Bin { op: x.op },
                    x.span,
                    seq![x.left.tree(), x.right.tree()],
                ),
                Expr::Assign(x) => is_node(
                    t,
                    Label::Assign { op: x.op },
                    x.span,
                    seq![x.left.tree(), x.right.tree()],
                ),
                Expr::Member(x) => {
                    &&& t.label is Member && t.span == x.span && t.kids.len() == 2
                    &&& t.kids[0] == x.obj.tree()
                    &&& match x.prop {
                        MemberProp::Ident(n) => t.kids[1] == n.tree(),
                        MemberProp::Computed(c) => is_node(
                            t.kids[1],
                            Label::ComputedProp,
                            c.span,
                            seq![c.expr.tree()],
                        ),
                    }
                },
                Expr::Cond(x) => is_node(
                    t,
                    Label::Cond,
                    x.span,
                    seq![x.test.tree(), x.cons.tree(), x.alt.tree()],
                ),
                Expr::Call(x) => {
                    &&& t.label == (Label::Call { ctxt: x.ctxt }) && t.span == x.span
                    &&& t.kids.len() == 2 && t.kids[0] == x.callee.tree()
                    &&& is_sequence_of(t.kids[1], x.args@)
                },
                Expr::SeqExpr(x) => {
                    t.label is SeqExpr && t.span == x.span && have_trees(x.exprs@, t.kids)
                },
                Expr::Ident(x) => t == x.tree() && t.label is Ident,
                Expr::Lit(x) => t == x.tree(),
                Expr::Arrow(x) => {
                    &&& t.label == (Label::Arrow { ctxt: x.ctxt }) && t.span == x.span
                    &&& t.kids.len() == 2 && is_sequence_of(t.kids[0], x.params@)
                    &&& match *x.body {
                        BlockStmtOrExpr::BlockStmt(b) => t.kids[1] == b.tree(),
                        BlockStmtOrExpr::Expr(y) => t.kids[1] == y.tree(),
                    }
                },
                Expr::Paren(x) => is_node(t, Label::Paren, x.span, seq![x.expr.tree()]),
                Expr::Tpl(x) => {
                    &&& t.label is Tpl && t.span == x.span && t.kids.len() == 2
                    &&& is_sequence_of(t.kids[0], x.exprs@)
                    &&& is_sequence_of(t.kids[1], x.quasis@)
                },
                Expr::TaggedTpl(x) => is_node(
                    t,
                    Label::TaggedTpl { ctxt: x.ctxt },
                    x.span,
                    seq![x.tag.tree(), x.tpl.tree()],
                ),
                Expr::TsNonNull(x) => is_node(t, Label::TsNonNull, x.span, seq![x.expr.tree()]),
                Expr::TsAs(x) => is_node(
                    t,
                    Label::TsAs,
                    x.span,
                    seq![x.expr.tree(), x.type_ann.tree()],
                ),
                Expr::TsSatisfies(x) => is_node(
                    t,
                    Label::TsSatisfies,
                    x.span,
                    seq![x.expr.tree(), x.type_ann.tree()],
                ),
                Expr::Match(x) => {
                    &&& t.label is Match && t.span == x.span && t.kids.len() == 2
                    &&& t.kids[0] == x.discriminant.tree()
                    &&& is_sequence_of(t.kids[1], x.arms@)
                },
                Expr::ZtsIf(x) => is_node(
                    t,
                    Label::ZtsIf,
                    x.span,
                    seq![x.test.tree(), x.cons.tree(), x.alt.tree()],
                ),
                Expr::ZtsExprBlock(x) => {
                    &&& t.label is ZtsExprBlock && t.span == x.span && t.kids.len() == 2
                    &&& is_sequence_of(t.kids[0], x.stmts@)
                    &&& t.kids[1] == x.tail.tree()
                },
            }
        }),
{
    e.lemma_tree();
    match e {
        Expr::Array(x) => x.lemma_tree(),
        Expr::Object(x) => x.lemma_tree(),
        Expr::Unary(x) => x.lemma_tree(),
        Expr::Bin(x) => x.lemma_tree(),
        Expr::Assign(x) => x.lemma_tree(),
        Expr::Member(x) => {
            x.lemma_tree();
            x.prop.lemma_tree();
        },
        Expr::Cond(x) => x.lemma_tree(),
        Expr::Call(x) => x.lemma_tree(),
        Expr::SeqExpr(x) => x.lemma_tree(),
        Expr::Ident(_) => {},
        Expr::Lit(_) => {},
        Expr::Arrow(x) => {
            x.lemma_tree();
            x.body.lemma_tree();
        },
        Expr::Paren(x) => x.lemma_tree(),
        Expr::Tpl(x) => x.lemma_tree(),
        Expr::TaggedTpl(x) => x.lemma_tree(),
        Expr::TsNonNull(x) => x.lemma_tree(),
        Expr::TsAs(x) => x.lemma_tree(),
        Expr::TsSatisfies(x) => x.lemma_tree(),
        Expr::Match(x) => x.lemma_tree(),
        Expr::ZtsIf(x) => x.lemma_tree(),
        Expr::ZtsExprBlock(x) => x.lemma_tree(),
    }
}

/// The parts of the tree of a pattern are the parts of the pattern, in source order.
pub proof fn trees_of_patterns(p: Pat)
    ensures
        ({
            let t = p.tree();
            match p {
                Pat::Ident(x) => is_node(
                    t,
                    Label::BindingIdent,
                    x.id.span,
                    seq![x.id.tree(), annotation(x.type_ann)],
                ),
                Pat::Object(x) => {
                    &&& t.label == (Label::ObjectPat { optional: x.optional }) && t.span == x.span
                    &&& t.kids.len() == 2 && is_sequence_of(t.kids[0], x.props@)
                    &&& t.kids[1] == annotation(x.type_ann)
                },
                Pat::Assign(x) => is_node(
                    t,
                    Label::AssignPat,
                    x.span,
                    seq![x.left.tree(), x.right.tree()],
                ),
                Pat::Invalid(x) => t.label is Invalid && t.span == x.span,
            }
        }),
{
    p.lemma_tree();
    match p {
        Pat::Ident(x) => x.lemma_tree(),
        Pat::Object(x) => x.lemma_tree(),
        Pat::Assign(x) => x.lemma_tree(),
        Pat::Invalid(_) => {},
    }
}

/// The parts of the tree of a property of a pattern are the parts of the property.
pub proof fn trees_of_properties(p: ObjectPatProp)
    ensures
        match p {
            ObjectPatProp::KeyValue(x) => is_node(
                p.tree(),
                Label::KeyValuePat,
                Span::spec_dummy(),
                seq![x.key.tree(), x.value.tree()],
            ),
            ObjectPatProp::Assign(x) => is_node(
                p.tree(),
                Label::AssignPatProp,
                x.span,
                seq![x.key.tree(), tree_or_absent(x.value)],
            ),
            ObjectPatProp::Rest(x) => is_node(
                p.tree(),
                Label::Rest { dots: x.dot3_token },
                x.span,
                seq![x.arg.tree()],
            ),
        },
{
    p.lemma_tree();
}

/// The parts of the tree of a type are the parts of the type.
pub proof fn trees_of_types(y: TsType)
    ensures
        ({
            let t = y.tree();
            match y {
                TsType::TsKeywordType(x) => is_node(
                    t,
                    Label::TsKeyword { kind: x.kind },
                    x.span,
                    seq![],
                ),
                TsType::TsTypeRef(x) => is_node(t, Label::TsTypeRef, x.span, seq![x.name.tree()]),
                TsType::TsArrayType(x) => is_node(
                    t,
                    Label::TsArray,
                    x.span,
                    seq![x.elem_type.tree()],
                ),
                TsType::TsUnionType(x) => {
                    t.label is TsUnion && t.span == x.span && have_trees(x.types@, t.kids)
                },
                TsType::TsParenthesizedType(x) => is_node(
                    t,
                    Label::TsParenthesized,
                    x.span,
                    seq![x.type_ann.tree()],
                ),
                TsType::TsLitType(x) => is_node(t, Label::TsLitType, x.span, seq![x.lit.tree()]),
            }
        }),
{
    y.lemma_tree();
}

/// The parts of the tree of a statement are the parts of the statement, in source
/// order.
pub proof fn trees_of_statements(s: Stmt)
    ensures
        ({
            let t = s.tree();
            match s {
                Stmt::Block(x) => {
                    &&& t.label == (Label::Block { ctxt: x.ctxt }) && t.span == x.span
                    &&& t.kids.len() == 1 && is_sequence_of(t.kids[0], x.stmts@)
                },
                Stmt::Empty(x) => t.label is Empty && t.span == x.span,
                Stmt::Labeled(x) => is_node(
                    t,
                    Label::Labeled,
                    x.span,
                    seq![x.label.tree(), x.body.tree()],
                ),
                Stmt::If(x) => is_node(
                    t,
                    Label::If,
                    x.span,
                    seq![x.test.tree(), x.cons.tree(), tree_or_absent(x.alt)],
                ),
                Stmt::While(x) => is_node(
                    t,
                    Label::While,
                    x.span,
                    seq![x.test.tree(), x.body.tree()],
                ),
                Stmt::For(x) => is_node(
                    t,
                    Label::For,
                    x.span,
                    seq![
                        match x.init {
                            Some(y) => y.tree(),
                            None => absent(),
                        },
                        tree_or_absent(x.test),
                        tree_or_absent(x.update),
                        x.body.tree(),
                    ],
                ),
                Stmt::Decl(x) => t == x.tree(),
                Stmt::Expr(x) => is_node(t, Label::ExprStmt, x.span, seq![x.expr.tree()]),
            }
        }),
{
    s.lemma_tree();
    match s {
        Stmt::Block(x) => x.lemma_tree(),
        Stmt::Empty(_) => {},
        Stmt::Labeled(x) => x.lemma_tree(),
        Stmt::If(x) => x.lemma_tree(),
        Stmt::While(x) => x.lemma_tree(),
        Stmt::For(x) => x.lemma_tree(),
        Stmt::Decl(_) => {},
        Stmt::Expr(x) => x.lemma_tree(),
    }
}

/// The parts of the tree of a declaration of variables are the variables, in source
/// order, and those of a variable its pattern and its value.
pub proof fn trees_of_variables(v: VarDecl, d: VarDeclarator)
    ensures
        v.tree().label == (Label::Var { ctxt: v.ctxt, kind: v.kind, declare: v.declare }),
        v.tree().span == v.span,
        have_trees(v.decls@, v.tree().kids),
        is_node(
            d.tree(),
            Label::Declarator { definite: d.definite },
            d.span,
            seq![d.name.tree(), tree_or_absent(d.init)],
        ),
{
    v.lemma_tree();
    d.lemma_tree();
}

/// A type that the parser returns and that is a word of the language is the type that
/// the word names.
pub proof fn parsed_types(g: Gram, i: int, t: TsType)
    requires
        0 <= i,
        g.ty_primary(i).res == Ok::<Tree, Error>(t.tree()),
    ensures
        t matches TsType::TsKeywordType(k) ==> names_type(k.kind, g.kind(i), g.text(i)),
        t matches TsType::TsTypeRef(r) ==> is_ident_at(g, r.name.tree(), i) && atom_text(
            r.name.sym,
        ) == g.text(i),
{
    t.lemma_tree();
    if t is TsTypeRef {
        type_references_are_named(g, i);
    }
    if t is TsKeywordType {
        types_are_named_by_their_words(g, i);
    }
}

} // verus!
