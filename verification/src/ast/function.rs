//! Functions and classes.
use crate::ast::expr::{Expr, PropName};
use crate::ast::pat::Pat;
use crate::ast::stmt::{BlockStmt, EmptyStmt};
use crate::ast::typescript::TsTypeAnn;
use crate::span::{Span, SyntaxContext};
use crate::tree::{absent, kids1, kids2, kids3, list, node, trees, HasTree, Label, Tree};
use vstd::prelude::*;

verus! {

/// The parameters and the body of a function.
#[derive(Debug, PartialEq, Eq, Hash)]
pub struct Function {
    pub params: Vec<Param>,
    pub span: Span,
    pub ctxt: SyntaxContext,
    pub body: Option<BlockStmt>,
    pub is_generator: bool,
    pub is_async: bool,
    pub return_type: Option<Box<TsTypeAnn>>,
}

/// A parameter of a [`Function`].
#[derive(Debug, PartialEq, Eq, Hash)]
pub struct Param {
    pub span: Span,
    pub pat: Pat,
}

/// The members of a class.
#[derive(Debug, PartialEq, Eq, Hash)]
pub struct Class {
    pub span: Span,
    pub ctxt: SyntaxContext,
    pub body: Vec<ClassMember>,
    pub super_class: Option<Box<Expr>>,
    pub is_abstract: bool,
}

/// One member of a [`Class`].
#[derive(Debug, PartialEq, Eq, Hash)]
pub enum ClassMember {
    Method(ClassMethod),
    Empty(EmptyStmt),
}

/// A method of a [`Class`].
#[derive(Debug, PartialEq, Eq, Hash)]
pub struct ClassMethod {
    pub span: Span,
    pub key: PropName,
    pub function: Box<Function>,
    pub is_static: bool,
}

impl Function {
    /// The tree of the node.
    #[verifier::opaque]
    pub open spec fn tree(self) -> Tree
        decreases self,
    {
        node(
            Label::Function {
                ctxt: self.ctxt,
                is_generator: self.is_generator,
                is_async: self.is_async,
            },
            self.span,
            kids3(
                list(param_trees(self.params@)),
                match self.body {
                    Some(b) => b.tree(),
                    None => absent(),
                },
                match self.return_type {
                    Some(x) => (*x).tree(),
                    None => absent(),
                },
            ),
        )
    }

    /// The tree, out of the trees of the parts.
    pub proof fn lemma_tree(self)
        ensures
            self.tree() == node(
                Label::Function {
                    ctxt: self.ctxt,
                    is_generator: self.is_generator,
                    is_async: self.is_async,
                },
                self.span,
                kids3(
                    list(trees(self.params@)),
                    match self.body {
                        Some(b) => b.tree(),
                        None => absent(),
                    },
                    match self.return_type {
                        Some(x) => (*x).tree(),
                        None => absent(),
                    },
                ),
            ),
    {
        reveal(BlockStmt::tree);
        reveal(Function::tree);
        reveal(Param::tree);
        reveal(TsTypeAnn::tree);
        assert(param_trees(self.params@) =~= trees(self.params@));
    }
}

impl Param {
    /// The tree of the node.
    #[verifier::opaque]
    pub open spec fn tree(self) -> Tree
        decreases self,
    {
        node(
            Label::Param,
            self.span,
            kids1(self.pat.tree()),
        )
    }

    /// The tree, out of the trees of the parts.
    pub proof fn lemma_tree(self)
        ensures
            self.tree() == node(
                Label::Param,
                self.span,
                kids1(self.pat.tree()),
            ),
    {
        reveal(Param::tree);
        reveal(Pat::tree);
    }
}

impl Class {
    /// The tree of the node.
    #[verifier::opaque]
    pub open spec fn tree(self) -> Tree
        decreases self,
    {
        node(
            Label::ClassBody { ctxt: self.ctxt, is_abstract: self.is_abstract },
            self.span,
            kids2(
                match self.super_class {
                    Some(x) => (*x).tree(),
                    None => absent(),
                },
                list(class_member_trees(self.body@)),
            ),
        )
    }

    /// The tree, out of the trees of the parts.
    pub proof fn lemma_tree(self)
        ensures
            self.tree() == node(
                Label::ClassBody { ctxt: self.ctxt, is_abstract: self.is_abstract },
                self.span,
                kids2(
                    match self.super_class {
                        Some(x) => (*x).tree(),
                        None => absent(),
                    },
                    list(trees(self.body@)),
                ),
            ),
    {
        reveal(Class::tree);
        reveal(ClassMember::tree);
        reveal(Expr::tree);
        assert(class_member_trees(self.body@) =~= trees(self.body@));
    }
}

impl ClassMember {
    /// The tree of the node.
    #[verifier::opaque]
    pub open spec fn tree(self) -> Tree
        decreases self,
    {
        match self {
            ClassMember::Method(x) => node(
                Label::ClassMethod { is_static: x.is_static },
                x.span,
                kids2(x.key.tree(), (*x.function).tree()),
            ),
            ClassMember::Empty(x) => x.tree(),
        }
    }

    /// The tree, out of the trees of the parts.
    pub proof fn lemma_tree(self)
        ensures
            self.tree() == match self {
                ClassMember::Method(x) => node(
                    Label::ClassMethod { is_static: x.is_static },
                    x.span,
                    kids2(x.key.tree(), (*x.function).tree()),
                ),
                ClassMember::Empty(x) => x.tree(),
            },
    {
        reveal(ClassMember::tree);
        reveal(Function::tree);
    }
}

/// The trees of the nodes.
pub open spec fn param_trees(v: Seq<Param>) -> Seq<Tree>
    decreases v,
{
    Seq::new(
        v.len(),
        |k: int|
            if 0 <= k < v.len() {
                v[k].tree()
            } else {
                arbitrary()
            },
    )
}

/// The trees of the nodes.
pub open spec fn class_member_trees(v: Seq<ClassMember>) -> Seq<Tree>
    decreases v,
{
    Seq::new(
        v.len(),
        |k: int|
            if 0 <= k < v.len() {
                v[k].tree()
            } else {
                arbitrary()
            },
    )
}

impl Function {
    /// The tree of a function without parameters and without a body.
    pub open spec fn blank() -> Tree {
        node(
            Label::Function { ctxt: SyntaxContext(0), is_generator: false, is_async: false },
            Span::spec_dummy(),
            kids3(list(Seq::empty()), absent(), absent()),
        )
    }

    /// A function without parameters and without a body.
    pub fn dummy() -> (f: Function)
        ensures
            f.tree() == Function::blank(),
    {
        let f = Function {
            params: Vec::new(),
            span: Span::dummy(),
            ctxt: SyntaxContext::empty(),
            body: None,
            is_generator: false,
            is_async: false,
            return_type: None,
        };
        proof {
            f.lemma_tree();
            assert(trees(f.params@) =~= Seq::empty());
        }
        f
    }
}

impl Class {
    /// The tree of a class without members.
    pub open spec fn blank() -> Tree {
        node(
            Label::ClassBody { ctxt: SyntaxContext(0), is_abstract: false },
            Span::spec_dummy(),
            kids2(absent(), list(Seq::empty())),
        )
    }

    /// A class without members.
    pub fn dummy() -> (c: Class)
        ensures
            c.tree() == Class::blank(),
    {
        let c = Class {
            span: Span::dummy(),
            ctxt: SyntaxContext::empty(),
            body: Vec::new(),
            super_class: None,
            is_abstract: false,
        };
        proof {
            c.lemma_tree();
            assert(trees(c.body@) =~= Seq::empty());
        }
        c
    }
}

impl HasTree for Param {
    open spec fn as_tree(&self) -> Tree {
        self.tree()
    }
}

impl HasTree for ClassMember {
    open spec fn as_tree(&self) -> Tree {
        self.tree()
    }
}

} // verus!
