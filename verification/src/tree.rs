//! Labelled trees, the mathematical picture of syntax.
//!
//! Every syntax node has a tree: its label holds what kind of node it is and
//! the plain data it carries, its span is the node's span, and its kids are the
//! trees of the node's parts, in source order. The grammar is written in terms
//! of trees, and each parsing function is held to it through the tree of the
//! node that it returns.
use crate::ast::expr::{AssignOp, BinaryOp, UnaryOp};
use crate::ast::decl::VarDeclKind;
use crate::ast::typescript::TsKeywordTypeKind;
use crate::span::{Span, SyntaxContext};
use vstd::prelude::*;

verus! {

/// What kind of node a tree stands for, and the plain data of the node.
pub ghost enum Label {
    // Pieces.
    /// A sequence of nodes of one kind.
    List,
    /// A part that is left out.
    Absent,
    Ident { sym: Seq<char>, ctxt: SyntaxContext, optional: bool },
    IdentName { sym: Seq<char> },
    Str { raw: Seq<char> },
    Num { raw: Seq<char> },
    BigInt { raw: Seq<char> },
    Bool { value: bool },
    Null,
    // Expressions.
    Array,
    Object,
    KeyValueProp,
    Unary { op: UnaryOp },
    Bin { op: BinaryOp },
    Assign { op: AssignOp },
    Member,
    ComputedProp,
    Cond,
    Call { ctxt: SyntaxContext },
    SeqExpr,
    Arrow { ctxt: SyntaxContext },
    Paren,
    Tpl,
    TplElement { tail: bool, raw: Seq<char> },
    TaggedTpl { ctxt: SyntaxContext },
    TsNonNull,
    TsAs,
    TsSatisfies,
    Match,
    MatchArm,
    MatchWildcard,
    MatchLit { neg: bool },
    MatchVariant,
    ZtsIf,
    ZtsExprBlock,
    // Patterns.
    BindingIdent,
    ObjectPat { optional: bool },
    KeyValuePat,
    AssignPatProp,
    Rest { dots: Span },
    AssignPat,
    Invalid,
    // Statements.
    Block { ctxt: SyntaxContext },
    Empty,
    Labeled,
    If,
    While,
    For,
    ExprStmt,
    Module,
    ExportDecl,
    ExportDefaultExpr,
    // Declarations.
    Class { declare: bool },
    Fn { declare: bool },
    Var { ctxt: SyntaxContext, kind: VarDeclKind, declare: bool },
    Declarator { definite: bool },
    Using { is_await: bool },
    TsInterface { declare: bool },
    TsTypeAlias { declare: bool },
    TsEnum { declare: bool, is_const: bool },
    TsEnumMember,
    TsModule { declare: bool },
    ZtsEnum,
    ZtsEnumVariant,
    ZtsEnumField,
    ZtsNewtype,
    ZtsUnion,
    ZtsImpl,
    ZtsImplMethod,
    ClassBody { ctxt: SyntaxContext, is_abstract: bool },
    ClassMethod { is_static: bool },
    Function { ctxt: SyntaxContext, is_generator: bool, is_async: bool },
    Param,
    // Types.
    TsTypeAnn,
    TsKeyword { kind: TsKeywordTypeKind },
    TsTypeRef,
    TsArray,
    TsUnion,
    TsParenthesized,
    TsLitType,
}

/// A labelled tree.
#[verifier::ext_equal]
pub ghost struct Tree {
    pub label: Label,
    pub span: Span,
    pub kids: Seq<Tree>,
}

/// A tree.
pub open spec fn node(label: Label, span: Span, kids: Seq<Tree>) -> Tree {
    Tree { label, span, kids }
}

/// A tree without kids.
pub open spec fn leaf(label: Label, span: Span) -> Tree {
    Tree { label, span, kids: Seq::empty() }
}

/// One kid.
pub open spec fn kids1(a: Tree) -> Seq<Tree> {
    seq![a]
}

/// Two kids.
pub open spec fn kids2(a: Tree, b: Tree) -> Seq<Tree> {
    seq![a, b]
}

/// Three kids.
pub open spec fn kids3(a: Tree, b: Tree, c: Tree) -> Seq<Tree> {
    seq![a, b, c]
}

/// Four kids.
pub open spec fn kids4(a: Tree, b: Tree, c: Tree, d: Tree) -> Seq<Tree> {
    seq![a, b, c, d]
}

/// The tree of a sequence of nodes.
pub open spec fn list(kids: Seq<Tree>) -> Tree {
    Tree { label: Label::List, span: Span::spec_dummy(), kids }
}

/// The tree of a part that is left out.
pub open spec fn absent() -> Tree {
    leaf(Label::Absent, Span::spec_dummy())
}

/// The tree of an identifier without hygiene marks.
pub open spec fn ident(sym: Seq<char>, span: Span) -> Tree {
    leaf(Label::Ident { sym, ctxt: SyntaxContext(0), optional: false }, span)
}

/// The tree of a name.
pub open spec fn ident_name(sym: Seq<char>, span: Span) -> Tree {
    leaf(Label::IdentName { sym }, span)
}

/// What has a tree.
pub trait HasTree {
    /// The tree of the node.
    spec fn as_tree(&self) -> Tree;
}

impl<T: HasTree> HasTree for Box<T> {
    open spec fn as_tree(&self) -> Tree {
        (**self).as_tree()
    }
}

impl<T: HasTree> HasTree for Option<T> {
    open spec fn as_tree(&self) -> Tree {
        match *self {
            Some(x) => x.as_tree(),
            None => absent(),
        }
    }
}

impl<T: HasTree> HasTree for Vec<T> {
    open spec fn as_tree(&self) -> Tree {
        list(trees(self@))
    }
}

/// The trees of a sequence of nodes.
pub open spec fn trees<T: HasTree>(v: Seq<T>) -> Seq<Tree> {
    v.map_values(|x: T| x.as_tree())
}

/// The trees of a sequence that grows by one node.
pub proof fn lemma_trees_push<T: HasTree>(v: Seq<T>, x: T)
    ensures
        trees(v.push(x)) == trees(v).push(x.as_tree()),
{
    assert(trees(v.push(x)) =~= trees(v).push(x.as_tree()));
}

} // verus!
