//! Statements and modules.
use crate::ast::decl::{Decl, VarDecl};
use crate::ast::expr::Expr;
use crate::ast::ident::Ident;
use crate::span::{Span, SyntaxContext};
use crate::tree::{
    absent, kids1, kids2, kids3, kids4, leaf, list, node, trees, HasTree, Label, Tree,
};
use vstd::prelude::*;

verus! {

/// A statement.
#[derive(Debug, PartialEq, Eq, Hash)]
pub enum Stmt {
    Block(BlockStmt),
    Empty(EmptyStmt),
    Labeled(LabeledStmt),
    If(IfStmt),
    While(WhileStmt),
    For(ForStmt),
    Decl(Decl),
    Expr(ExprStmt),
}

/// `{ stmts }`
#[derive(Debug, PartialEq, Eq, Hash)]
pub struct BlockStmt {
    pub span: Span,
    pub ctxt: SyntaxContext,
    pub stmts: Vec<Stmt>,
}

/// `;`
#[derive(Debug, PartialEq, Eq, Hash)]
pub struct EmptyStmt {
    pub span: Span,
}

/// `label: body`
#[derive(Debug, PartialEq, Eq, Hash)]
pub struct LabeledStmt {
    pub span: Span,
    pub label: Ident,
    pub body: Box<Stmt>,
}

/// `if (test) cons else alt`
#[derive(Debug, PartialEq, Eq, Hash)]
pub struct IfStmt {
    pub span: Span,
    pub test: Box<Expr>,
    pub cons: Box<Stmt>,
    pub alt: Option<Box<Stmt>>,
}

/// `while (test) body`
#[derive(Debug, PartialEq, Eq, Hash)]
pub struct WhileStmt {
    pub span: Span,
    pub test: Box<Expr>,
    pub body: Box<Stmt>,
}

/// `for (init; test; update) body`
#[derive(Debug, PartialEq, Eq, Hash)]
pub struct ForStmt {
    pub span: Span,
    pub init: Option<VarDeclOrExpr>,
    pub test: Option<Box<Expr>>,
    pub update: Option<Box<Expr>>,
    pub body: Box<Stmt>,
}

/// What a [`ForStmt`] starts with.
#[derive(Debug, PartialEq, Eq, Hash)]
pub enum VarDeclOrExpr {
    VarDecl(Box<VarDecl>),
    Expr(Box<Expr>),
}

/// `expr;`
#[derive(Debug, PartialEq, Eq, Hash)]
pub struct ExprStmt {
    pub span: Span,
    pub expr: Box<Expr>,
}

/// A module.
#[derive(Debug, PartialEq, Eq, Hash)]
pub struct Module {
    pub span: Span,
    pub body: Vec<ModuleItem>,
}

/// One item of a [`Module`].
#[derive(Debug, PartialEq, Eq, Hash)]
pub enum ModuleItem {
    ModuleDecl(ModuleDecl),
    Stmt(Stmt),
}

/// An item that only a module can hold.
#[derive(Debug, PartialEq, Eq, Hash)]
pub enum ModuleDecl {
    ExportDecl(ExportDecl),
    ExportDefaultExpr(ExportDefaultExpr),
}

/// `export decl`
#[derive(Debug, PartialEq, Eq, Hash)]
pub struct ExportDecl {
    pub span: Span,
    pub decl: Decl,
}

/// `export default expr;`
#[derive(Debug, PartialEq, Eq, Hash)]
pub struct ExportDefaultExpr {
    pub span: Span,
    pub expr: Box<Expr>,
}

impl Stmt {
    /// The tree of the node.
    #[verifier::opaque]
    pub open spec fn tree(self) -> Tree
        decreases self,
    {
        match self {
            Stmt::Block(x) => x.tree(),
            Stmt::Empty(x) => x.tree(),
            Stmt::Labeled(x) => x.tree(),
            Stmt::If(x) => x.tree(),
            Stmt::While(x) => x.tree(),
            Stmt::For(x) => x.tree(),
            Stmt::Decl(x) => x.tree(),
            Stmt::Expr(x) => x.tree(),
        }
    }

    /// The tree, out of the trees of the parts.
    pub proof fn lemma_tree(self)
        ensures
            self.tree() == match self {
                Stmt::Block(x) => x.tree(),
                Stmt::Empty(x) => x.tree(),
                Stmt::Labeled(x) => x.tree(),
                Stmt::If(x) => x.tree(),
                Stmt::While(x) => x.tree(),
                Stmt::For(x) => x.tree(),
                Stmt::Decl(x) => x.tree(),
                Stmt::Expr(x) => x.tree(),
            },
    {
        reveal(BlockStmt::tree);
        reveal(Decl::tree);
        reveal(ExprStmt::tree);
        reveal(ForStmt::tree);
        reveal(IfStmt::tree);
        reveal(LabeledStmt::tree);
        reveal(Stmt::tree);
        reveal(WhileStmt::tree);
    }
}

impl BlockStmt {
    /// The tree of the node.
    #[verifier::opaque]
    pub open spec fn tree(self) -> Tree
        decreases self,
    {
        node(Label::Block { ctxt: self.ctxt }, self.span, kids1(list(stmt_trees(self.stmts@))))
    }

    /// The tree, out of the trees of the parts.
    pub proof fn lemma_tree(self)
        ensures
            self.tree() == node(
                Label::Block { ctxt: self.ctxt },
                self.span,
                kids1(list(trees(self.stmts@))),
            ),
    {
        reveal(BlockStmt::tree);
        reveal(Stmt::tree);
        assert(stmt_trees(self.stmts@) =~= trees(self.stmts@));
    }
}

impl EmptyStmt {
    /// The tree of the node.
    pub open spec fn tree(self) -> Tree {
        leaf(Label::Empty, self.span)
    }
}

impl LabeledStmt {
    /// The tree of the node.
    #[verifier::opaque]
    pub open spec fn tree(self) -> Tree
        decreases self,
    {
        node(
            Label::Labeled,
            self.span,
            kids2(self.label.tree(), (*self.body).tree()),
        )
    }

    /// The tree, out of the trees of the parts.
    pub proof fn lemma_tree(self)
        ensures
            self.tree() == node(
                Label::Labeled,
                self.span,
                kids2(self.label.tree(), (*self.body).tree()),
            ),
    {
        reveal(LabeledStmt::tree);
        reveal(Stmt::tree);
    }
}

impl IfStmt {
    /// The tree of the node.
    #[verifier::opaque]
    pub open spec fn tree(self) -> Tree
        decreases self,
    {
        node(
            Label::If,
            self.span,
            kids3(
                (*self.test).tree(),
                (*self.cons).tree(),
                match self.alt {
                    Some(x) => (*x).tree(),
                    None => absent(),
                },
            ),
        )
    }

    /// The tree, out of the trees of the parts.
    pub proof fn lemma_tree(self)
        ensures
            self.tree() == node(
                Label::If,
                self.span,
                kids3(
                    (*self.test).tree(),
                    (*self.cons).tree(),
                    match self.alt {
                        Some(x) => (*x).tree(),
                        None => absent(),
                    },
                ),
            ),
    {
        reveal(Expr::tree);
        reveal(IfStmt::tree);
        reveal(Stmt::tree);
    }
}

impl WhileStmt {
    /// The tree of the node.
    #[verifier::opaque]
    pub open spec fn tree(self) -> Tree
        decreases self,
    {
        node(
            Label::While,
            self.span,
            kids2((*self.test).tree(), (*self.body).tree()),
        )
    }

    /// The tree, out of the trees of the parts.
    pub proof fn lemma_tree(self)
        ensures
            self.tree() == node(
                Label::While,
                self.span,
                kids2((*self.test).tree(), (*self.body).tree()),
            ),
    {
        reveal(Expr::tree);
        reveal(Stmt::tree);
        reveal(WhileStmt::tree);
    }
}

impl ForStmt {
    /// The tree of the node.
    #[verifier::opaque]
    pub open spec fn tree(self) -> Tree
        decreases self,
    {
        node(
            Label::For,
            self.span,
            kids4(
                match self.init {
                    Some(x) => x.tree(),
                    None => absent(),
                },
                match self.test {
                    Some(x) => (*x).tree(),
                    None => absent(),
                },
                match self.update {
                    Some(x) => (*x).tree(),
                    None => absent(),
                },
                (*self.body).tree(),
            ),
        )
    }

    /// The tree, out of the trees of the parts.
    pub proof fn lemma_tree(self)
        ensures
            self.tree() == node(
                Label::For,
                self.span,
                kids4(
                    match self.init {
                        Some(x) => x.tree(),
                        None => absent(),
                    },
                    match self.test {
                        Some(x) => (*x).tree(),
                        None => absent(),
                    },
                    match self.update {
                        Some(x) => (*x).tree(),
                        None => absent(),
                    },
                    (*self.body).tree(),
                ),
            ),
    {
        reveal(Expr::tree);
        reveal(ForStmt::tree);
        reveal(Stmt::tree);
        reveal(VarDeclOrExpr::tree);
    }
}

impl VarDeclOrExpr {
    /// The tree of the node.
    #[verifier::opaque]
    pub open spec fn tree(self) -> Tree
        decreases self,
    {
        match self {
            VarDeclOrExpr::VarDecl(x) => (*x).tree(),
            VarDeclOrExpr::Expr(x) => (*x).tree(),
        }
    }

    /// The tree, out of the trees of the parts.
    pub proof fn lemma_tree(self)
        ensures
            self.tree() == match self {
                VarDeclOrExpr::VarDecl(x) => (*x).tree(),
                VarDeclOrExpr::Expr(x) => (*x).tree(),
            },
    {
        reveal(Expr::tree);
        reveal(VarDecl::tree);
        reveal(VarDeclOrExpr::tree);
    }
}

impl ExprStmt {
    /// The tree of the node.
    #[verifier::opaque]
    pub open spec fn tree(self) -> Tree
        decreases self,
    {
        node(
            Label::ExprStmt,
            self.span,
            kids1((*self.expr).tree()),
        )
    }

    /// The tree, out of the trees of the parts.
    pub proof fn lemma_tree(self)
        ensures
            self.tree() == node(
                Label::ExprStmt,
                self.span,
                kids1((*self.expr).tree()),
            ),
    {
        reveal(Expr::tree);
        reveal(ExprStmt::tree);
    }
}

impl Module {
    /// The tree of the node.
    pub open spec fn tree(self) -> Tree {
        node(Label::Module, self.span, module_item_trees(self.body@))
    }
}

impl ModuleItem {
    /// The tree of the node.
    pub open spec fn tree(self) -> Tree {
        match self {
            ModuleItem::ModuleDecl(x) => x.tree(),
            ModuleItem::Stmt(x) => x.tree(),
        }
    }
}

impl ModuleDecl {
    /// The tree of the node.
    pub open spec fn tree(self) -> Tree {
        match self {
            ModuleDecl::ExportDecl(x) => node(Label::ExportDecl, x.span, kids1(x.decl.tree())),
            ModuleDecl::ExportDefaultExpr(x) => node(
                Label::ExportDefaultExpr,
                x.span,
                kids1((*x.expr).tree()),
            ),
        }
    }
}

/// The trees of the nodes.
pub open spec fn module_item_trees(v: Seq<ModuleItem>) -> Seq<Tree> {
    Seq::new(v.len(), |k: int| v[k].tree())
}

/// The trees of the nodes.
pub open spec fn stmt_trees(v: Seq<Stmt>) -> Seq<Tree>
    decreases v,
{
    Seq::new(
        v.len(),
        |k: int|
            if 0 <= k < v.len() {
                v[k].tree()
            } else {
                arbitrary()
            },
    )
}

impl HasTree for Stmt {
    open spec fn as_tree(&self) -> Tree {
        self.tree()
    }
}

impl HasTree for BlockStmt {
    open spec fn as_tree(&self) -> Tree {
        self.tree()
    }
}

impl HasTree for VarDeclOrExpr {
    open spec fn as_tree(&self) -> Tree {
        self.tree()
    }
}

impl HasTree for Module {
    open spec fn as_tree(&self) -> Tree {
        self.tree()
    }
}

impl HasTree for ModuleItem {
    open spec fn as_tree(&self) -> Tree {
        self.tree()
    }
}

impl HasTree for ModuleDecl {
    open spec fn as_tree(&self) -> Tree {
        self.tree()
    }
}

impl Stmt {
    /// The content of [`Stmt::Decl`].
    pub fn as_decl(&self) -> (o: Option<&Decl>)
        ensures
            match *self {
                Stmt::Decl(x) => o == Some(&x),
                _ => o is None,
            },
    {
        match self {
            Stmt::Decl(x) => Some(x),
            _ => None,
        }
    }

    /// The content of [`Stmt::Expr`].
    pub fn as_expr(&self) -> (o: Option<&ExprStmt>)
        ensures
            match *self {
                Stmt::Expr(x) => o == Some(&x),
                _ => o is None,
            },
    {
        match self {
            Stmt::Expr(x) => Some(x),
            _ => None,
        }
    }
}

impl Stmt {
    /// The label of the tree tells expression statements from the others.
    pub proof fn lemma_label(self)
        ensures
            (self.tree().label is ExprStmt) == (self is Expr),
    {
        self.lemma_tree();
        match self {
            Stmt::Decl(d) => {
                d.lemma_label();
            },
            Stmt::Block(x) => {
                x.lemma_tree();
            },
            Stmt::Empty(_) => {},
            Stmt::Labeled(x) => {
                x.lemma_tree();
            },
            Stmt::If(x) => {
                x.lemma_tree();
            },
            Stmt::While(x) => {
                x.lemma_tree();
            },
            Stmt::For(x) => {
                x.lemma_tree();
            },
            Stmt::Expr(x) => {
                x.lemma_tree();
            },
        }
    }
}

impl ModuleItem {
    /// The content of [`ModuleItem::ModuleDecl`].
    pub fn as_module_decl(&self) -> (o: Option<&ModuleDecl>)
        ensures
            match *self {
                ModuleItem::ModuleDecl(x) => o == Some(&x),
                _ => o is None,
            },
    {
        match self {
            ModuleItem::ModuleDecl(x) => Some(x),
            _ => None,
        }
    }

    /// The content of [`ModuleItem::Stmt`].
    pub fn as_stmt(&self) -> (o: Option<&Stmt>)
        ensures
            match *self {
                ModuleItem::Stmt(x) => o == Some(&x),
                _ => o is None,
            },
    {
        match self {
            ModuleItem::Stmt(x) => Some(x),
            _ => None,
        }
    }
}

impl ModuleDecl {
    /// The content of [`ModuleDecl::ExportDecl`].
    pub fn as_export_decl(&self) -> (o: Option<&ExportDecl>)
        ensures
            match *self {
                ModuleDecl::ExportDecl(x) => o == Some(&x),
                _ => o is None,
            },
    {
        match self {
            ModuleDecl::ExportDecl(x) => Some(x),
            _ => None,
        }
    }
}

impl HasTree for IfStmt {
    open spec fn as_tree(&self) -> Tree {
        self.tree()
    }
}

impl HasTree for WhileStmt {
    open spec fn as_tree(&self) -> Tree {
        self.tree()
    }
}

impl HasTree for ForStmt {
    open spec fn as_tree(&self) -> Tree {
        self.tree()
    }
}
} // verus!
