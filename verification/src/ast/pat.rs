//! Patterns.
use crate::ast::expr::{Expr, PropName};
use crate::ast::ident::BindingIdent;
use crate::ast::typescript::TsTypeAnn;
use crate::span::Span;
use crate::tree::{absent, kids1, kids2, leaf, list, node, trees, HasTree, Label, Tree};
use vstd::prelude::*;

verus! {

/// A binding pattern.
#[derive(Debug, PartialEq, Eq, Hash)]
pub enum Pat {
    Ident(BindingIdent),
    Object(ObjectPat),
    Assign(AssignPat),
    Invalid(Invalid),
}

/// `{ a, b: c, ...rest }`
#[derive(Debug, PartialEq, Eq, Hash)]
pub struct ObjectPat {
    pub span: Span,
    pub props: Vec<ObjectPatProp>,
    pub optional: bool,
    pub type_ann: Option<Box<TsTypeAnn>>,
}

/// One property of an [`ObjectPat`].
#[derive(Debug, PartialEq, Eq, Hash)]
pub enum ObjectPatProp {
    KeyValue(KeyValuePatProp),
    Assign(AssignPatProp),
    Rest(RestPat),
}

/// `key: value`
#[derive(Debug, PartialEq, Eq, Hash)]
pub struct KeyValuePatProp {
    pub key: PropName,
    pub value: Box<Pat>,
}

/// `key` or `key = value`
#[derive(Debug, PartialEq, Eq, Hash)]
pub struct AssignPatProp {
    pub span: Span,
    pub key: BindingIdent,
    pub value: Option<Box<Expr>>,
}

/// `...arg`
#[derive(Debug, PartialEq, Eq, Hash)]
pub struct RestPat {
    pub span: Span,
    pub dot3_token: Span,
    pub arg: Box<Pat>,
}

/// `left = right`
#[derive(Debug, PartialEq, Eq, Hash)]
pub struct AssignPat {
    pub span: Span,
    pub left: Box<Pat>,
    pub right: Box<Expr>,
}

/// A place that is yet to be filled.
#[derive(Debug, PartialEq, Eq, Hash)]
pub struct Invalid {
    pub span: Span,
}

impl Pat {
    /// The tree of the node.
    #[verifier::opaque]
    pub open spec fn tree(self) -> Tree
        decreases self,
    {
        match self {
            Pat::Ident(x) => x.tree(),
            Pat::Object(x) => x.tree(),
            Pat::Assign(x) => x.tree(),
            Pat::Invalid(x) => leaf(Label::Invalid, x.span),
        }
    }

    /// The tree, out of the trees of the parts.
    pub proof fn lemma_tree(self)
        ensures
            self.tree() == match self {
                Pat::Ident(x) => x.tree(),
                Pat::Object(x) => x.tree(),
                Pat::Assign(x) => x.tree(),
                Pat::Invalid(x) => leaf(Label::Invalid, x.span),
            },
    {
        reveal(AssignPat::tree);
        reveal(BindingIdent::tree);
        reveal(ObjectPat::tree);
        reveal(Pat::tree);
    }
}

impl ObjectPat {
    /// The tree of the node.
    #[verifier::opaque]
    pub open spec fn tree(self) -> Tree
        decreases self,
    {
        node(
            Label::ObjectPat { optional: self.optional },
            self.span,
            kids2(
                list(object_pat_prop_trees(self.props@)),
                match self.type_ann {
                    Some(x) => (*x).tree(),
                    None => absent(),
                },
            ),
        )
    }

    /// The tree, out of the trees of the parts.
    pub proof fn lemma_tree(self)
        ensures
            self.tree() == node(
                Label::ObjectPat { optional: self.optional },
                self.span,
                kids2(
                    list(trees(self.props@)),
                    match self.type_ann {
                        Some(x) => (*x).tree(),
                        None => absent(),
                    },
                ),
            ),
    {
        reveal(ObjectPat::tree);
        reveal(ObjectPatProp::tree);
        reveal(TsTypeAnn::tree);
        assert(object_pat_prop_trees(self.props@) =~= trees(self.props@));
    }
}

impl ObjectPatProp {
    /// The tree of the node.
    #[verifier::opaque]
    pub open spec fn tree(self) -> Tree
        decreases self,
    {
        match self {
            ObjectPatProp::KeyValue(x) => node(
                Label::KeyValuePat,
                Span::spec_dummy(),
                kids2(x.key.tree(), (*x.value).tree()),
            ),
            ObjectPatProp::Assign(x) => node(
                Label::AssignPatProp,
                x.span,
                kids2(
                    x.key.tree(),
                    match x.value {
                        Some(e) => (*e).tree(),
                        None => absent(),
                    },
                ),
            ),
            ObjectPatProp::Rest(x) => node(
                Label::Rest { dots: x.dot3_token },
                x.span,
                kids1((*x.arg).tree()),
            ),
        }
    }

    /// The tree, out of the trees of the parts.
    pub proof fn lemma_tree(self)
        ensures
            self.tree() == match self {
                ObjectPatProp::KeyValue(x) => node(
                    Label::KeyValuePat,
                    Span::spec_dummy(),
                    kids2(x.key.tree(), (*x.value).tree()),
                ),
                ObjectPatProp::Assign(x) => node(
                    Label::AssignPatProp,
                    x.span,
                    kids2(
                        x.key.tree(),
                        match x.value {
                            Some(e) => (*e).tree(),
                            None => absent(),
                        },
                    ),
                ),
                ObjectPatProp::Rest(x) => node(
                    Label::Rest { dots: x.dot3_token },
                    x.span,
                    kids1((*x.arg).tree()),
                ),
            },
    {
        reveal(BindingIdent::tree);
        reveal(Expr::tree);
        reveal(ObjectPatProp::tree);
        reveal(Pat::tree);
    }
}

impl AssignPat {
    /// The tree of the node.
    #[verifier::opaque]
    pub open spec fn tree(self) -> Tree
        decreases self,
    {
        node(
            Label::AssignPat,
            self.span,
            kids2((*self.left).tree(), (*self.right).tree()),
        )
    }

    /// The tree, out of the trees of the parts.
    pub proof fn lemma_tree(self)
        ensures
            self.tree() == node(
                Label::AssignPat,
                self.span,
                kids2((*self.left).tree(), (*self.right).tree()),
            ),
    {
        reveal(AssignPat::tree);
        reveal(Expr::tree);
        reveal(Pat::tree);
    }
}

/// The trees of the nodes.
pub open spec fn pat_trees(v: Seq<Pat>) -> Seq<Tree>
    decreases v,
{
    Seq::new(
        v.len(),
        |k: int|
            if 0 <= k < v.len() {
                v[k].tree()
            } else {
                arbitrary()
            },
    )
}

/// The trees of the nodes.
pub open spec fn object_pat_prop_trees(v: Seq<ObjectPatProp>) -> Seq<Tree>
    decreases v,
{
    Seq::new(
        v.len(),
        |k: int|
            if 0 <= k < v.len() {
                v[k].tree()
            } else {
                arbitrary()
            },
    )
}

impl HasTree for Pat {
    open spec fn as_tree(&self) -> Tree {
        self.tree()
    }
}

impl HasTree for ObjectPat {
    open spec fn as_tree(&self) -> Tree {
        self.tree()
    }
}

impl HasTree for ObjectPatProp {
    open spec fn as_tree(&self) -> Tree {
        self.tree()
    }
}

} // verus!
