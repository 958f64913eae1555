//! Types, and the declarations of TypeScript.
use crate::ast::expr::{Expr, PropName};
use crate::ast::ident::Ident;
use crate::ast::lit::Lit;
use crate::ast::stmt::Stmt;
use crate::span::Span;
use crate::tree::{absent, kids1, kids2, leaf, list, node, trees, HasTree, Label, Tree};
use vstd::prelude::*;

verus! {

/// A type annotation.
#[derive(Debug, PartialEq, Eq, Hash)]
pub struct TsTypeAnn {
    pub span: Span,
    pub type_ann: Box<TsType>,
}

/// A type.
#[derive(Debug, PartialEq, Eq, Hash)]
pub enum TsType {
    TsKeywordType(TsKeywordType),
    TsTypeRef(TsTypeRef),
    TsArrayType(TsArrayType),
    TsUnionType(TsUnionType),
    TsParenthesizedType(TsParenthesizedType),
    TsLitType(TsLitType),
}

/// The types that are named by a word of the language.
#[derive(Clone, Copy, Debug, PartialEq, Eq, Hash, Structural)]
pub enum TsKeywordTypeKind {
    TsAnyKeyword,
    TsUnknownKeyword,
    TsNumberKeyword,
    TsObjectKeyword,
    TsBooleanKeyword,
    TsBigIntKeyword,
    TsStringKeyword,
    TsSymbolKeyword,
    TsVoidKeyword,
    TsUndefinedKeyword,
    TsNullKeyword,
    TsNeverKeyword,
}

/// A type that is named by a word of the language.
#[derive(Debug, PartialEq, Eq, Hash)]
pub struct TsKeywordType {
    pub span: Span,
    pub kind: TsKeywordTypeKind,
}

/// A reference to a declared type.
#[derive(Debug, PartialEq, Eq, Hash)]
pub struct TsTypeRef {
    pub span: Span,
    pub name: Ident,
}

/// `T[]`
#[derive(Debug, PartialEq, Eq, Hash)]
pub struct TsArrayType {
    pub span: Span,
    pub elem_type: Box<TsType>,
}

/// `A | B`
#[derive(Debug, PartialEq, Eq, Hash)]
pub struct TsUnionType {
    pub span: Span,
    pub types: Vec<Box<TsType>>,
}

/// `(T)`
#[derive(Debug, PartialEq, Eq, Hash)]
pub struct TsParenthesizedType {
    pub span: Span,
    pub type_ann: Box<TsType>,
}

/// A literal as a type.
#[derive(Debug, PartialEq, Eq, Hash)]
pub struct TsLitType {
    pub span: Span,
    pub lit: Lit,
}

/// `enum Color { Red, Green = 2 }`, as TypeScript has it.
#[derive(Debug, PartialEq, Eq, Hash)]
pub struct TsEnumDecl {
    pub span: Span,
    pub declare: bool,
    pub is_const: bool,
    pub id: Ident,
    pub members: Vec<TsEnumMember>,
}

/// One member of a [`TsEnumDecl`].
#[derive(Debug, PartialEq, Eq, Hash)]
pub struct TsEnumMember {
    pub span: Span,
    pub id: PropName,
    pub init: Option<Box<Expr>>,
}

/// `interface Shape { ... }`
#[derive(Debug, PartialEq, Eq, Hash)]
pub struct TsInterfaceDecl {
    pub span: Span,
    pub id: Ident,
    pub declare: bool,
}

/// `type Id = string;`
#[derive(Debug, PartialEq, Eq, Hash)]
pub struct TsTypeAliasDecl {
    pub span: Span,
    pub declare: bool,
    pub id: Ident,
    pub type_ann: Box<TsType>,
}

/// `namespace N { ... }`
#[derive(Debug, PartialEq, Eq, Hash)]
pub struct TsModuleDecl {
    pub span: Span,
    pub declare: bool,
    pub id: Ident,
    pub body: Vec<Stmt>,
}

impl TsTypeAnn {
    /// The tree of the node.
    #[verifier::opaque]
    pub open spec fn tree(self) -> Tree
        decreases self,
    {
        node(Label::TsTypeAnn, self.span, kids1((*self.type_ann).tree()))
    }

    /// The tree, out of the trees of the parts.
    pub proof fn lemma_tree(self)
        ensures
            self.tree() == node(Label::TsTypeAnn, self.span, kids1((*self.type_ann).tree())),
    {
        reveal(TsType::tree);
        reveal(TsTypeAnn::tree);
    }
}

impl TsType {
    /// The tree of the node.
    #[verifier::opaque]
    pub open spec fn tree(self) -> Tree
        decreases self,
    {
        match self {
            TsType::TsKeywordType(t) => leaf(Label::TsKeyword { kind: t.kind }, t.span),
            TsType::TsTypeRef(t) => node(Label::TsTypeRef, t.span, kids1(t.name.tree())),
            TsType::TsArrayType(t) => node(Label::TsArray, t.span, kids1((*t.elem_type).tree())),
            TsType::TsUnionType(t) => node(Label::TsUnion, t.span, ts_type_trees(t.types@)),
            TsType::TsParenthesizedType(t) => node(
                Label::TsParenthesized,
                t.span,
                kids1((*t.type_ann).tree()),
            ),
            TsType::TsLitType(t) => node(Label::TsLitType, t.span, kids1(t.lit.tree())),
        }
    }

    /// The tree, out of the trees of the parts.
    pub proof fn lemma_tree(self)
        ensures
            self.tree() == match self {
                TsType::TsKeywordType(t) => leaf(Label::TsKeyword { kind: t.kind }, t.span),
                TsType::TsTypeRef(t) => node(Label::TsTypeRef, t.span, kids1(t.name.tree())),
                TsType::TsArrayType(t) => node(
                    Label::TsArray,
                    t.span,
                    kids1((*t.elem_type).tree()),
                ),
                TsType::TsUnionType(t) => node(Label::TsUnion, t.span, trees(t.types@)),
                TsType::TsParenthesizedType(t) => node(
                    Label::TsParenthesized,
                    t.span,
                    kids1((*t.type_ann).tree()),
                ),
                TsType::TsLitType(t) => node(Label::TsLitType, t.span, kids1(t.lit.tree())),
            },
    {
        reveal(TsType::tree);
        match self {
            TsType::TsUnionType(t) => {
                assert(ts_type_trees(t.types@) =~= trees(t.types@));
            },
            _ => {},
        }
    }

    pub fn is_ts_keyword_type(&self) -> (b: bool)
        ensures
            b == (self is TsKeywordType),
    {
        match self {
            TsType::TsKeywordType(_) => true,
            _ => false,
        }
    }
}

/// The trees of the nodes.
pub open spec fn ts_type_trees(v: Seq<Box<TsType>>) -> Seq<Tree>
    decreases v,
{
    Seq::new(
        v.len(),
        |k: int|
            if 0 <= k < v.len() {
                (*v[k]).tree()
            } else {
                arbitrary()
            },
    )
}

impl TsEnumMember {
    /// The tree of the node.
    #[verifier::opaque]
    pub open spec fn tree(self) -> Tree
        decreases self,
    {
        node(
            Label::TsEnumMember,
            self.span,
            kids2(
                self.id.tree(),
                match self.init {
                    Some(e) => (*e).tree(),
                    None => absent(),
                },
            ),
        )
    }

    /// The tree, out of the trees of the parts.
    pub proof fn lemma_tree(self)
        ensures
            self.tree() == node(
                Label::TsEnumMember,
                self.span,
                kids2(
                    self.id.tree(),
                    match self.init {
                        Some(e) => (*e).tree(),
                        None => absent(),
                    },
                ),
            ),
    {
        reveal(Expr::tree);
        reveal(TsEnumMember::tree);
    }
}

/// The trees of the nodes.
pub open spec fn ts_enum_member_trees(v: Seq<TsEnumMember>) -> Seq<Tree>
    decreases v,
{
    Seq::new(
        v.len(),
        |k: int|
            if 0 <= k < v.len() {
                v[k].tree()
            } else {
                arbitrary()
            },
    )
}

impl TsEnumDecl {
    /// The tree of the node.
    #[verifier::opaque]
    pub open spec fn tree(self) -> Tree
        decreases self,
    {
        node(
            Label::TsEnum { declare: self.declare, is_const: self.is_const },
            self.span,
            kids2(self.id.tree(), list(ts_enum_member_trees(self.members@))),
        )
    }

    /// The tree, out of the trees of the parts.
    pub proof fn lemma_tree(self)
        ensures
            self.tree() == node(
                Label::TsEnum { declare: self.declare, is_const: self.is_const },
                self.span,
                kids2(self.id.tree(), list(trees(self.members@))),
            ),
    {
        reveal(TsEnumDecl::tree);
        reveal(TsEnumMember::tree);
        assert(ts_enum_member_trees(self.members@) =~= trees(self.members@));
    }
}

impl HasTree for TsType {
    open spec fn as_tree(&self) -> Tree {
        self.tree()
    }
}

impl HasTree for TsEnumMember {
    open spec fn as_tree(&self) -> Tree {
        self.tree()
    }
}

impl HasTree for TsEnumDecl {
    open spec fn as_tree(&self) -> Tree {
        self.tree()
    }
}

} // verus!
