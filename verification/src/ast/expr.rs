//! Expressions.
use crate::ast::ident::{Ident, IdentName};
use crate::ast::lit::{Lit, Number, Str};
use crate::ast::pat::{pat_trees, ObjectPat, Pat};
use crate::ast::stmt::{stmt_trees, BlockStmt, Stmt};
use crate::ast::typescript::TsType;
use crate::atom::atom_text;
use crate::span::{Span, SyntaxContext};
use crate::tree::{absent, kids1, kids2, kids3, leaf, list, node, trees, HasTree, Label, Tree};
use swc_atoms::Atom;
use vstd::prelude::*;

verus! {

/// The operators that come before one operand.
#[derive(Clone, Copy, Debug, PartialEq, Eq, Hash, Structural)]
pub enum UnaryOp {
    Minus,
    Plus,
    Bang,
    Tilde,
    TypeOf,
    Void,
    Delete,
}

/// The operators that come between two operands.
#[derive(Clone, Copy, Debug, PartialEq, Eq, Hash, Structural)]
pub enum BinaryOp {
    EqEq,
    NotEq,
    EqEqEq,
    NotEqEq,
    Lt,
    LtEq,
    Gt,
    GtEq,
    LShift,
    RShift,
    ZeroFillRShift,
    Add,
    Sub,
    Mul,
    Div,
    Mod,
    BitOr,
    BitXor,
    BitAnd,
    LogicalOr,
    LogicalAnd,
    In,
    InstanceOf,
    Exp,
    NullishCoalescing,
}

/// The operators that assign.
#[derive(Clone, Copy, Debug, PartialEq, Eq, Hash, Structural)]
pub enum AssignOp {
    Assign,
    AddAssign,
    SubAssign,
    MulAssign,
    DivAssign,
    ModAssign,
}

/// An expression.
#[derive(Debug, PartialEq, Eq, Hash)]
pub enum Expr {
    Array(ArrayLit),
    Object(ObjectLit),
    Unary(UnaryExpr),
    Bin(BinExpr),
    Assign(AssignExpr),
    Member(MemberExpr),
    Cond(CondExpr),
    Call(CallExpr),
    SeqExpr(SeqExpr),
    Ident(Ident),
    Lit(Lit),
    Arrow(ArrowExpr),
    Paren(ParenExpr),
    Tpl(Tpl),
    TaggedTpl(TaggedTpl),
    TsNonNull(TsNonNullExpr),
    TsAs(TsAsExpr),
    TsSatisfies(TsSatisfiesExpr),
    Match(MatchExpr),
    ZtsIf(ZtsIfExpr),
    ZtsExprBlock(ZtsExprBlock),
}

/// `[a, b]`
#[derive(Debug, PartialEq, Eq, Hash)]
pub struct ArrayLit {
    pub span: Span,
    pub elems: Vec<Box<Expr>>,
}

/// `{ a, b: c }`
#[derive(Debug, PartialEq, Eq, Hash)]
pub struct ObjectLit {
    pub span: Span,
    pub props: Vec<Prop>,
}

/// One property of an [`ObjectLit`].
#[derive(Debug, PartialEq, Eq, Hash)]
pub enum Prop {
    Shorthand(Ident),
    KeyValue(KeyValueProp),
}

/// `key: value`
#[derive(Debug, PartialEq, Eq, Hash)]
pub struct KeyValueProp {
    pub key: PropName,
    pub value: Box<Expr>,
}

/// The name of a property.
#[derive(Debug, PartialEq, Eq, Hash)]
pub enum PropName {
    Ident(IdentName),
    Str(Str),
    Num(Number),
}

/// An operator before its operand.
#[derive(Debug, PartialEq, Eq, Hash)]
pub struct UnaryExpr {
    pub span: Span,
    pub op: UnaryOp,
    pub arg: Box<Expr>,
}

/// An operator between its operands.
#[derive(Debug, PartialEq, Eq, Hash)]
pub struct BinExpr {
    pub span: Span,
    pub op: BinaryOp,
    pub left: Box<Expr>,
    pub right: Box<Expr>,
}

/// `left = right`
#[derive(Debug, PartialEq, Eq, Hash)]
pub struct AssignExpr {
    pub span: Span,
    pub op: AssignOp,
    pub left: Box<Expr>,
    pub right: Box<Expr>,
}

/// `obj.prop` or `obj[prop]`
#[derive(Debug, PartialEq, Eq, Hash)]
pub struct MemberExpr {
    pub span: Span,
    pub obj: Box<Expr>,
    pub prop: MemberProp,
}

/// The property of a [`MemberExpr`].
#[derive(Debug, PartialEq, Eq, Hash)]
pub enum MemberProp {
    Ident(IdentName),
    Computed(ComputedPropName),
}

/// `[expr]`
#[derive(Debug, PartialEq, Eq, Hash)]
pub struct ComputedPropName {
    pub span: Span,
    pub expr: Box<Expr>,
}

/// `test ? cons : alt`
#[derive(Debug, PartialEq, Eq, Hash)]
pub struct CondExpr {
    pub span: Span,
    pub test: Box<Expr>,
    pub cons: Box<Expr>,
    pub alt: Box<Expr>,
}

/// `callee(args)`
#[derive(Debug, PartialEq, Eq, Hash)]
pub struct CallExpr {
    pub span: Span,
    pub ctxt: SyntaxContext,
    pub callee: Box<Expr>,
    pub args: Vec<Box<Expr>>,
}

/// `a, b`
#[derive(Debug, PartialEq, Eq, Hash)]
pub struct SeqExpr {
    pub span: Span,
    pub exprs: Vec<Box<Expr>>,
}

/// `(params) => body`
#[derive(Debug, PartialEq, Eq, Hash)]
pub struct ArrowExpr {
    pub span: Span,
    pub ctxt: SyntaxContext,
    pub params: Vec<Pat>,
    pub body: Box<BlockStmtOrExpr>,
}

/// The body of an [`ArrowExpr`].
#[derive(Debug, PartialEq, Eq, Hash)]
pub enum BlockStmtOrExpr {
    BlockStmt(BlockStmt),
    Expr(Box<Expr>),
}

/// `(expr)`
#[derive(Debug, PartialEq, Eq, Hash)]
pub struct ParenExpr {
    pub span: Span,
    pub expr: Box<Expr>,
}

/// A template: `` `a${b}c` ``. There is one more quasi than there are expressions.
#[derive(Debug, PartialEq, Eq, Hash)]
pub struct Tpl {
    pub span: Span,
    pub exprs: Vec<Box<Expr>>,
    pub quasis: Vec<TplElement>,
}

/// A piece of the text of a [`Tpl`], with the quotes and the marks of the
/// substitutions next to it.
#[derive(Debug, PartialEq, Eq, Hash)]
pub struct TplElement {
    pub span: Span,
    pub tail: bool,
    pub raw: Atom,
}

/// A template with a tag: `` tag`a` ``
#[derive(Debug, PartialEq, Eq, Hash)]
pub struct TaggedTpl {
    pub span: Span,
    pub ctxt: SyntaxContext,
    pub tag: Box<Expr>,
    pub tpl: Box<Tpl>,
}

/// `expr!`
#[derive(Debug, PartialEq, Eq, Hash)]
pub struct TsNonNullExpr {
    pub span: Span,
    pub expr: Box<Expr>,
}

/// `expr as T`
#[derive(Debug, PartialEq, Eq, Hash)]
pub struct TsAsExpr {
    pub span: Span,
    pub expr: Box<Expr>,
    pub type_ann: Box<TsType>,
}

/// `expr satisfies T`
#[derive(Debug, PartialEq, Eq, Hash)]
pub struct TsSatisfiesExpr {
    pub span: Span,
    pub expr: Box<Expr>,
    pub type_ann: Box<TsType>,
}

/// `match (discriminant) { arms }`
#[derive(Debug, PartialEq, Eq, Hash)]
pub struct MatchExpr {
    pub span: Span,
    pub discriminant: Box<Expr>,
    pub arms: Vec<MatchArm>,
}

/// `pattern => body`
#[derive(Debug, PartialEq, Eq, Hash)]
pub struct MatchArm {
    pub span: Span,
    pub pattern: MatchPat,
    pub body: Box<Expr>,
}

/// The pattern of a [`MatchArm`].
#[derive(Debug, PartialEq, Eq, Hash)]
pub enum MatchPat {
    Variant(MatchVariantPat),
    Wildcard(MatchWildcardPat),
    Lit(MatchLitPat),
}

/// `Variant { bindings }`
#[derive(Debug, PartialEq, Eq, Hash)]
pub struct MatchVariantPat {
    pub span: Span,
    pub name: Ident,
    pub binding: Option<ObjectPat>,
}

/// `_`
#[derive(Debug, PartialEq, Eq, Hash)]
pub struct MatchWildcardPat {
    pub span: Span,
}

/// A literal; `neg` says that a minus sign comes before it.
#[derive(Debug, PartialEq, Eq, Hash)]
pub struct MatchLitPat {
    pub span: Span,
    pub lit: Lit,
    pub neg: bool,
}

/// `if (test) { cons } else { alt }` as an expression.
#[derive(Debug, PartialEq, Eq, Hash)]
pub struct ZtsIfExpr {
    pub span: Span,
    pub test: Box<Expr>,
    pub cons: ZtsExprBlock,
    pub alt: ZtsIfAlt,
}

/// What comes after the `else` of a [`ZtsIfExpr`].
#[derive(Debug, PartialEq, Eq, Hash)]
pub enum ZtsIfAlt {
    Block(ZtsExprBlock),
    If(Box<ZtsIfExpr>),
}

/// `{ stmts; tail }`, a block whose value is that of its tail.
#[derive(Debug, PartialEq, Eq, Hash)]
pub struct ZtsExprBlock {
    pub span: Span,
    pub stmts: Vec<Stmt>,
    pub tail: Box<Expr>,
}

impl Expr {
    /// The tree of the node.
    #[verifier::opaque]
    pub open spec fn tree(self) -> Tree
        decreases self,
    {
        match self {
            Expr::Array(x) => x.tree(),
            Expr::Object(x) => x.tree(),
            Expr::Unary(x) => x.tree(),
            Expr::Bin(x) => x.tree(),
            Expr::Assign(x) => x.tree(),
            Expr::Member(x) => x.tree(),
            Expr::Cond(x) => x.tree(),
            Expr::Call(x) => x.tree(),
            Expr::SeqExpr(x) => x.tree(),
            Expr::Ident(x) => x.tree(),
            Expr::Lit(x) => x.tree(),
            Expr::Arrow(x) => x.tree(),
            Expr::Paren(x) => x.tree(),
            Expr::Tpl(x) => x.tree(),
            Expr::TaggedTpl(x) => x.tree(),
            Expr::TsNonNull(x) => x.tree(),
            Expr::TsAs(x) => x.tree(),
            Expr::TsSatisfies(x) => x.tree(),
            Expr::Match(x) => x.tree(),
            Expr::ZtsIf(x) => x.tree(),
            Expr::ZtsExprBlock(x) => x.tree(),
        }
    }

    /// The tree, out of the trees of the parts.
    pub proof fn lemma_tree(self)
        ensures
            self.tree() == match self {
                Expr::Array(x) => x.tree(),
                Expr::Object(x) => x.tree(),
                Expr::Unary(x) => x.tree(),
                Expr::Bin(x) => x.tree(),
                Expr::Assign(x) => x.tree(),
                Expr::Member(x) => x.tree(),
                Expr::Cond(x) => x.tree(),
                Expr::Call(x) => x.tree(),
                Expr::SeqExpr(x) => x.tree(),
                Expr::Ident(x) => x.tree(),
                Expr::Lit(x) => x.tree(),
                Expr::Arrow(x) => x.tree(),
                Expr::Paren(x) => x.tree(),
                Expr::Tpl(x) => x.tree(),
                Expr::TaggedTpl(x) => x.tree(),
                Expr::TsNonNull(x) => x.tree(),
                Expr::TsAs(x) => x.tree(),
                Expr::TsSatisfies(x) => x.tree(),
                Expr::Match(x) => x.tree(),
                Expr::ZtsIf(x) => x.tree(),
                Expr::ZtsExprBlock(x) => x.tree(),
            },
    {
        reveal(TaggedTpl::tree);
        reveal(Tpl::tree);
        reveal(ArrayLit::tree);
        reveal(ArrowExpr::tree);
        reveal(AssignExpr::tree);
        reveal(BinExpr::tree);
        reveal(CallExpr::tree);
        reveal(CondExpr::tree);
        reveal(Expr::tree);
        reveal(MatchExpr::tree);
        reveal(MemberExpr::tree);
        reveal(ObjectLit::tree);
        reveal(ParenExpr::tree);
        reveal(SeqExpr::tree);
        reveal(TsAsExpr::tree);
        reveal(TsNonNullExpr::tree);
        reveal(TsSatisfiesExpr::tree);
        reveal(UnaryExpr::tree);
        reveal(ZtsExprBlock::tree);
        reveal(ZtsIfExpr::tree);
    }
}

/// The trees of the nodes.
pub open spec fn expr_trees(v: Seq<Box<Expr>>) -> Seq<Tree>
    decreases v,
{
    Seq::new(
        v.len(),
        |k: int|
            if 0 <= k < v.len() {
                (*v[k]).tree()
            } else {
                arbitrary()
            },
    )
}

/// The trees of the nodes.
pub open spec fn prop_trees(v: Seq<Prop>) -> Seq<Tree>
    decreases v,
{
    Seq::new(
        v.len(),
        |k: int|
            if 0 <= k < v.len() {
                v[k].tree()
            } else {
                arbitrary()
            },
    )
}

/// The trees of the nodes.
pub open spec fn match_arm_trees(v: Seq<MatchArm>) -> Seq<Tree>
    decreases v,
{
    Seq::new(
        v.len(),
        |k: int|
            if 0 <= k < v.len() {
                v[k].tree()
            } else {
                arbitrary()
            },
    )
}

impl ArrayLit {
    /// The tree of the node.
    #[verifier::opaque]
    pub open spec fn tree(self) -> Tree
        decreases self,
    {
        node(Label::Array, self.span, expr_trees(self.elems@))
    }

    /// The tree, out of the trees of the parts.
    pub proof fn lemma_tree(self)
        ensures
            self.tree() == node(Label::Array, self.span, trees(self.elems@)),
    {
        reveal(ArrayLit::tree);
        reveal(Expr::tree);
        assert(expr_trees(self.elems@) =~= trees(self.elems@));
    }
}

impl ObjectLit {
    /// The tree of the node.
    #[verifier::opaque]
    pub open spec fn tree(self) -> Tree
        decreases self,
    {
        node(Label::Object, self.span, prop_trees(self.props@))
    }

    /// The tree, out of the trees of the parts.
    pub proof fn lemma_tree(self)
        ensures
            self.tree() == node(Label::Object, self.span, trees(self.props@)),
    {
        reveal(ObjectLit::tree);
        reveal(Prop::tree);
        assert(prop_trees(self.props@) =~= trees(self.props@));
    }
}

impl Prop {
    /// The tree of the node.
    #[verifier::opaque]
    pub open spec fn tree(self) -> Tree
        decreases self,
    {
        match self {
            Prop::Shorthand(x) => x.tree(),
            Prop::KeyValue(x) => node(
                Label::KeyValueProp,
                Span::spec_dummy(),
                kids2(x.key.tree(), (*x.value).tree()),
            ),
        }
    }

    /// The tree, out of the trees of the parts.
    pub proof fn lemma_tree(self)
        ensures
            self.tree() == match self {
                Prop::Shorthand(x) => x.tree(),
                Prop::KeyValue(x) => node(
                    Label::KeyValueProp,
                    Span::spec_dummy(),
                    kids2(x.key.tree(), (*x.value).tree()),
                ),
            },
    {
        reveal(Expr::tree);
        reveal(Prop::tree);
    }
}

impl PropName {
    /// The tree of the node.
    pub open spec fn tree(self) -> Tree {
        match self {
            PropName::Ident(x) => x.tree(),
            PropName::Str(x) => x.tree(),
            PropName::Num(x) => x.tree(),
        }
    }
}

impl UnaryExpr {
    /// The tree of the node.
    #[verifier::opaque]
    pub open spec fn tree(self) -> Tree
        decreases self,
    {
        node(
            Label::Unary { op: self.op },
            self.span,
            kids1((*self.arg).tree()),
        )
    }

    /// The tree, out of the trees of the parts.
    pub proof fn lemma_tree(self)
        ensures
            self.tree() == node(
                Label::Unary { op: self.op },
                self.span,
                kids1((*self.arg).tree()),
            ),
    {
        reveal(Expr::tree);
        reveal(UnaryExpr::tree);
    }
}

impl BinExpr {
    /// The tree of the node.
    #[verifier::opaque]
    pub open spec fn tree(self) -> Tree
        decreases self,
    {
        node(
            Label::Bin { op: self.op },
            self.span,
            kids2((*self.left).tree(), (*self.right).tree()),
        )
    }

    /// The tree, out of the trees of the parts.
    pub proof fn lemma_tree(self)
        ensures
            self.tree() == node(
                Label::Bin { op: self.op },
                self.span,
                kids2((*self.left).tree(), (*self.right).tree()),
            ),
    {
        reveal(BinExpr::tree);
        reveal(Expr::tree);
    }
}

impl AssignExpr {
    /// The tree of the node.
    #[verifier::opaque]
    pub open spec fn tree(self) -> Tree
        decreases self,
    {
        node(
            Label::Assign { op: self.op },
            self.span,
            kids2((*self.left).tree(), (*self.right).tree()),
        )
    }

    /// The tree, out of the trees of the parts.
    pub proof fn lemma_tree(self)
        ensures
            self.tree() == node(
                Label::Assign { op: self.op },
                self.span,
                kids2((*self.left).tree(), (*self.right).tree()),
            ),
    {
        reveal(AssignExpr::tree);
        reveal(Expr::tree);
    }
}

impl MemberExpr {
    /// The tree of the node.
    #[verifier::opaque]
    pub open spec fn tree(self) -> Tree
        decreases self,
    {
        node(
            Label::Member,
            self.span,
            kids2((*self.obj).tree(), self.prop.tree()),
        )
    }

    /// The tree, out of the trees of the parts.
    pub proof fn lemma_tree(self)
        ensures
            self.tree() == node(
                Label::Member,
                self.span,
                kids2((*self.obj).tree(), self.prop.tree()),
            ),
    {
        reveal(Expr::tree);
        reveal(MemberExpr::tree);
        reveal(MemberProp::tree);
    }
}

impl MemberProp {
    /// The tree of the node.
    #[verifier::opaque]
    pub open spec fn tree(self) -> Tree
        decreases self,
    {
        match self {
            MemberProp::Ident(x) => x.tree(),
            MemberProp::Computed(x) => node(Label::ComputedProp, x.span, kids1((*x.expr).tree())),
        }
    }

    /// The tree, out of the trees of the parts.
    pub proof fn lemma_tree(self)
        ensures
            self.tree() == match self {
                MemberProp::Ident(x) => x.tree(),
                MemberProp::Computed(x) => node(
                    Label::ComputedProp,
                    x.span,
                    kids1((*x.expr).tree()),
                ),
            },
    {
        reveal(Expr::tree);
        reveal(MemberProp::tree);
    }
}

impl CondExpr {
    /// The tree of the node.
    #[verifier::opaque]
    pub open spec fn tree(self) -> Tree
        decreases self,
    {
        node(
            Label::Cond,
            self.span,
            kids3((*self.test).tree(), (*self.cons).tree(), (*self.alt).tree()),
        )
    }

    /// The tree, out of the trees of the parts.
    pub proof fn lemma_tree(self)
        ensures
            self.tree() == node(
                Label::Cond,
                self.span,
                kids3((*self.test).tree(), (*self.cons).tree(), (*self.alt).tree()),
            ),
    {
        reveal(CondExpr::tree);
        reveal(Expr::tree);
    }
}

impl CallExpr {
    /// The tree of the node.
    #[verifier::opaque]
    pub open spec fn tree(self) -> Tree
        decreases self,
    {
        node(
            Label::Call { ctxt: self.ctxt },
            self.span,
            kids2((*self.callee).tree(), list(expr_trees(self.args@))),
        )
    }

    /// The tree, out of the trees of the parts.
    pub proof fn lemma_tree(self)
        ensures
            self.tree() == node(
                Label::Call { ctxt: self.ctxt },
                self.span,
                kids2((*self.callee).tree(), list(trees(self.args@))),
            ),
    {
        reveal(CallExpr::tree);
        reveal(Expr::tree);
        assert(expr_trees(self.args@) =~= trees(self.args@));
    }
}

impl SeqExpr {
    /// The tree of the node.
    #[verifier::opaque]
    pub open spec fn tree(self) -> Tree
        decreases self,
    {
        node(Label::SeqExpr, self.span, expr_trees(self.exprs@))
    }

    /// The tree, out of the trees of the parts.
    pub proof fn lemma_tree(self)
        ensures
            self.tree() == node(Label::SeqExpr, self.span, trees(self.exprs@)),
    {
        reveal(Expr::tree);
        reveal(SeqExpr::tree);
        assert(expr_trees(self.exprs@) =~= trees(self.exprs@));
    }
}

impl ArrowExpr {
    /// The tree of the node.
    #[verifier::opaque]
    pub open spec fn tree(self) -> Tree
        decreases self,
    {
        node(
            Label::Arrow { ctxt: self.ctxt },
            self.span,
            kids2(list(pat_trees(self.params@)), (*self.body).tree()),
        )
    }

    /// The tree, out of the trees of the parts.
    pub proof fn lemma_tree(self)
        ensures
            self.tree() == node(
                Label::Arrow { ctxt: self.ctxt },
                self.span,
                kids2(list(trees(self.params@)), (*self.body).tree()),
            ),
    {
        reveal(ArrowExpr::tree);
        reveal(BlockStmtOrExpr::tree);
        reveal(Pat::tree);
        assert(pat_trees(self.params@) =~= trees(self.params@));
    }
}

impl BlockStmtOrExpr {
    /// The tree of the node.
    #[verifier::opaque]
    pub open spec fn tree(self) -> Tree
        decreases self,
    {
        match self {
            BlockStmtOrExpr::BlockStmt(x) => x.tree(),
            BlockStmtOrExpr::Expr(x) => (*x).tree(),
        }
    }

    /// The tree, out of the trees of the parts.
    pub proof fn lemma_tree(self)
        ensures
            self.tree() == match self {
                BlockStmtOrExpr::BlockStmt(x) => x.tree(),
                BlockStmtOrExpr::Expr(x) => (*x).tree(),
            },
    {
        reveal(BlockStmt::tree);
        reveal(BlockStmtOrExpr::tree);
        reveal(Expr::tree);
    }
}

impl ParenExpr {
    /// The tree of the node.
    #[verifier::opaque]
    pub open spec fn tree(self) -> Tree
        decreases self,
    {
        node(
            Label::Paren,
            self.span,
            kids1((*self.expr).tree()),
        )
    }

    /// The tree, out of the trees of the parts.
    pub proof fn lemma_tree(self)
        ensures
            self.tree() == node(
                Label::Paren,
                self.span,
                kids1((*self.expr).tree()),
            ),
    {
        reveal(Expr::tree);
        reveal(ParenExpr::tree);
    }
}

impl Tpl {
    /// The tree of the node.
    #[verifier::opaque]
    pub open spec fn tree(self) -> Tree
        decreases self,
    {
        node(
            Label::Tpl,
            self.span,
            kids2(list(expr_trees(self.exprs@)), list(trees(self.quasis@))),
        )
    }

    /// The tree, out of the trees of the parts.
    pub proof fn lemma_tree(self)
        ensures
            self.tree() == node(
                Label::Tpl,
                self.span,
                kids2(list(trees(self.exprs@)), list(trees(self.quasis@))),
            ),
    {
        reveal(Expr::tree);
        reveal(Tpl::tree);
        assert(expr_trees(self.exprs@) =~= trees(self.exprs@));
    }
}

impl TplElement {
    /// The tree of the node.
    pub open spec fn tree(self) -> Tree {
        leaf(Label::TplElement { tail: self.tail, raw: atom_text(self.raw) }, self.span)
    }
}

impl TaggedTpl {
    /// The tree of the node.
    #[verifier::opaque]
    pub open spec fn tree(self) -> Tree
        decreases self,
    {
        node(
            Label::TaggedTpl { ctxt: self.ctxt },
            self.span,
            kids2((*self.tag).tree(), (*self.tpl).tree()),
        )
    }

    /// The tree, out of the trees of the parts.
    pub proof fn lemma_tree(self)
        ensures
            self.tree() == node(
                Label::TaggedTpl { ctxt: self.ctxt },
                self.span,
                kids2((*self.tag).tree(), (*self.tpl).tree()),
            ),
    {
        reveal(Expr::tree);
        reveal(TaggedTpl::tree);
        reveal(Tpl::tree);
    }
}

impl TsNonNullExpr {
    /// The tree of the node.
    #[verifier::opaque]
    pub open spec fn tree(self) -> Tree
        decreases self,
    {
        node(
            Label::TsNonNull,
            self.span,
            kids1((*self.expr).tree()),
        )
    }

    /// The tree, out of the trees of the parts.
    pub proof fn lemma_tree(self)
        ensures
            self.tree() == node(
                Label::TsNonNull,
                self.span,
                kids1((*self.expr).tree()),
            ),
    {
        reveal(Expr::tree);
        reveal(TsNonNullExpr::tree);
    }
}

impl TsAsExpr {
    /// The tree of the node.
    #[verifier::opaque]
    pub open spec fn tree(self) -> Tree
        decreases self,
    {
        node(
            Label::TsAs,
            self.span,
            kids2((*self.expr).tree(), (*self.type_ann).tree()),
        )
    }

    /// The tree, out of the trees of the parts.
    pub proof fn lemma_tree(self)
        ensures
            self.tree() == node(
                Label::TsAs,
                self.span,
                kids2((*self.expr).tree(), (*self.type_ann).tree()),
            ),
    {
        reveal(Expr::tree);
        reveal(TsAsExpr::tree);
        reveal(TsType::tree);
    }
}

impl TsSatisfiesExpr {
    /// The tree of the node.
    #[verifier::opaque]
    pub open spec fn tree(self) -> Tree
        decreases self,
    {
        node(
            Label::TsSatisfies,
            self.span,
            kids2((*self.expr).tree(), (*self.type_ann).tree()),
        )
    }

    /// The tree, out of the trees of the parts.
    pub proof fn lemma_tree(self)
        ensures
            self.tree() == node(
                Label::TsSatisfies,
                self.span,
                kids2((*self.expr).tree(), (*self.type_ann).tree()),
            ),
    {
        reveal(Expr::tree);
        reveal(TsSatisfiesExpr::tree);
        reveal(TsType::tree);
    }
}

impl MatchExpr {
    /// The tree of the node.
    #[verifier::opaque]
    pub open spec fn tree(self) -> Tree
        decreases self,
    {
        node(
            Label::Match,
            self.span,
            kids2((*self.discriminant).tree(), list(match_arm_trees(self.arms@))),
        )
    }

    /// The tree, out of the trees of the parts.
    pub proof fn lemma_tree(self)
        ensures
            self.tree() == node(
                Label::Match,
                self.span,
                kids2((*self.discriminant).tree(), list(trees(self.arms@))),
            ),
    {
        reveal(Expr::tree);
        reveal(MatchArm::tree);
        reveal(MatchExpr::tree);
        assert(match_arm_trees(self.arms@) =~= trees(self.arms@));
    }
}

impl MatchArm {
    /// The tree of the node.
    #[verifier::opaque]
    pub open spec fn tree(self) -> Tree
        decreases self,
    {
        node(
            Label::MatchArm,
            self.span,
            kids2(self.pattern.tree(), (*self.body).tree()),
        )
    }

    /// The tree, out of the trees of the parts.
    pub proof fn lemma_tree(self)
        ensures
            self.tree() == node(
                Label::MatchArm,
                self.span,
                kids2(self.pattern.tree(), (*self.body).tree()),
            ),
    {
        reveal(Expr::tree);
        reveal(MatchArm::tree);
        reveal(MatchPat::tree);
    }
}

impl MatchPat {
    /// The tree of the node.
    #[verifier::opaque]
    pub open spec fn tree(self) -> Tree
        decreases self,
    {
        match self {
            MatchPat::Variant(x) => node(
                Label::MatchVariant,
                x.span,
                kids2(
                    x.name.tree(),
                    match x.binding {
                        Some(b) => b.tree(),
                        None => absent(),
                    },
                ),
            ),
            MatchPat::Wildcard(x) => leaf(Label::MatchWildcard, x.span),
            MatchPat::Lit(x) => node(Label::MatchLit { neg: x.neg }, x.span, kids1(x.lit.tree())),
        }
    }

    /// The tree, out of the trees of the parts.
    pub proof fn lemma_tree(self)
        ensures
            self.tree() == match self {
                MatchPat::Variant(x) => node(
                    Label::MatchVariant,
                    x.span,
                    kids2(
                        x.name.tree(),
                        match x.binding {
                            Some(b) => b.tree(),
                            None => absent(),
                        },
                    ),
                ),
                MatchPat::Wildcard(x) => leaf(Label::MatchWildcard, x.span),
                MatchPat::Lit(x) => node(
                    Label::MatchLit { neg: x.neg },
                    x.span,
                    kids1(x.lit.tree()),
                ),
            },
    {
        reveal(MatchPat::tree);
        reveal(ObjectPat::tree);
    }
}

impl ZtsIfExpr {
    /// The tree of the node.
    #[verifier::opaque]
    pub open spec fn tree(self) -> Tree
        decreases self,
    {
        node(
            Label::ZtsIf,
            self.span,
            kids3((*self.test).tree(), self.cons.tree(), self.alt.tree()),
        )
    }

    /// The tree, out of the trees of the parts.
    pub proof fn lemma_tree(self)
        ensures
            self.tree() == node(
                Label::ZtsIf,
                self.span,
                kids3((*self.test).tree(), self.cons.tree(), self.alt.tree()),
            ),
    {
        reveal(Expr::tree);
        reveal(ZtsExprBlock::tree);
        reveal(ZtsIfAlt::tree);
        reveal(ZtsIfExpr::tree);
    }
}

impl ZtsIfAlt {
    /// The tree of the node.
    #[verifier::opaque]
    pub open spec fn tree(self) -> Tree
        decreases self,
    {
        match self {
            ZtsIfAlt::Block(x) => x.tree(),
            ZtsIfAlt::If(x) => (*x).tree(),
        }
    }

    /// The tree, out of the trees of the parts.
    pub proof fn lemma_tree(self)
        ensures
            self.tree() == match self {
                ZtsIfAlt::Block(x) => x.tree(),
                ZtsIfAlt::If(x) => (*x).tree(),
            },
    {
        reveal(ZtsExprBlock::tree);
        reveal(ZtsIfAlt::tree);
        reveal(ZtsIfExpr::tree);
    }
}

impl ZtsExprBlock {
    /// The tree of the node.
    #[verifier::opaque]
    pub open spec fn tree(self) -> Tree
        decreases self,
    {
        node(
            Label::ZtsExprBlock,
            self.span,
            kids2(list(stmt_trees(self.stmts@)), (*self.tail).tree()),
        )
    }

    /// The tree, out of the trees of the parts.
    pub proof fn lemma_tree(self)
        ensures
            self.tree() == node(
                Label::ZtsExprBlock,
                self.span,
                kids2(list(trees(self.stmts@)), (*self.tail).tree()),
            ),
    {
        reveal(Expr::tree);
        reveal(Stmt::tree);
        reveal(ZtsExprBlock::tree);
        assert(stmt_trees(self.stmts@) =~= trees(self.stmts@));
    }
}

impl HasTree for Tpl {
    open spec fn as_tree(&self) -> Tree {
        self.tree()
    }
}

impl HasTree for TplElement {
    open spec fn as_tree(&self) -> Tree {
        self.tree()
    }
}

impl HasTree for Expr {
    open spec fn as_tree(&self) -> Tree {
        self.tree()
    }
}

impl HasTree for Prop {
    open spec fn as_tree(&self) -> Tree {
        self.tree()
    }
}

impl HasTree for PropName {
    open spec fn as_tree(&self) -> Tree {
        self.tree()
    }
}

impl HasTree for MatchArm {
    open spec fn as_tree(&self) -> Tree {
        self.tree()
    }
}

impl HasTree for MatchPat {
    open spec fn as_tree(&self) -> Tree {
        self.tree()
    }
}

impl HasTree for ZtsIfExpr {
    open spec fn as_tree(&self) -> Tree {
        self.tree()
    }
}

impl HasTree for ZtsExprBlock {
    open spec fn as_tree(&self) -> Tree {
        self.tree()
    }
}

impl Expr {
    /// Whether this is [`Expr::Unary`].
    pub fn is_unary(&self) -> (b: bool)
        ensures
            b == (self is Unary),
    {
        match self {
            Expr::Unary(_) => true,
            _ => false,
        }
    }

    /// The content of [`Expr::Unary`].
    pub fn as_unary(&self) -> (o: Option<&UnaryExpr>)
        ensures
            match *self {
                Expr::Unary(x) => o == Some(&x),
                _ => o is None,
            },
    {
        match self {
            Expr::Unary(x) => Some(x),
            _ => None,
        }
    }

    /// Whether this is [`Expr::Bin`].
    pub fn is_bin(&self) -> (b: bool)
        ensures
            b == (self is Bin),
    {
        match self {
            Expr::Bin(_) => true,
            _ => false,
        }
    }

    /// The content of [`Expr::Bin`].
    pub fn as_bin(&self) -> (o: Option<&BinExpr>)
        ensures
            match *self {
                Expr::Bin(x) => o == Some(&x),
                _ => o is None,
            },
    {
        match self {
            Expr::Bin(x) => Some(x),
            _ => None,
        }
    }

    /// Whether this is [`Expr::Assign`].
    pub fn is_assign(&self) -> (b: bool)
        ensures
            b == (self is Assign),
    {
        match self {
            Expr::Assign(_) => true,
            _ => false,
        }
    }

    /// The content of [`Expr::Assign`].
    pub fn as_assign(&self) -> (o: Option<&AssignExpr>)
        ensures
            match *self {
                Expr::Assign(x) => o == Some(&x),
                _ => o is None,
            },
    {
        match self {
            Expr::Assign(x) => Some(x),
            _ => None,
        }
    }

    /// Whether this is [`Expr::Member`].
    pub fn is_member(&self) -> (b: bool)
        ensures
            b == (self is Member),
    {
        match self {
            Expr::Member(_) => true,
            _ => false,
        }
    }

    /// Whether this is [`Expr::Cond`].
    pub fn is_cond(&self) -> (b: bool)
        ensures
            b == (self is Cond),
    {
        match self {
            Expr::Cond(_) => true,
            _ => false,
        }
    }

    /// Whether this is [`Expr::Call`].
    pub fn is_call(&self) -> (b: bool)
        ensures
            b == (self is Call),
    {
        match self {
            Expr::Call(_) => true,
            _ => false,
        }
    }

    /// Whether this is [`Expr::SeqExpr`].
    pub fn is_seq(&self) -> (b: bool)
        ensures
            b == (self is SeqExpr),
    {
        match self {
            Expr::SeqExpr(_) => true,
            _ => false,
        }
    }

    /// Whether this is [`Expr::Ident`].
    pub fn is_ident(&self) -> (b: bool)
        ensures
            b == (self is Ident),
    {
        match self {
            Expr::Ident(_) => true,
            _ => false,
        }
    }

    /// Whether this is [`Expr::Lit`].
    pub fn is_lit(&self) -> (b: bool)
        ensures
            b == (self is Lit),
    {
        match self {
            Expr::Lit(_) => true,
            _ => false,
        }
    }

    /// The content of [`Expr::Lit`].
    pub fn as_lit(&self) -> (o: Option<&Lit>)
        ensures
            match *self {
                Expr::Lit(x) => o == Some(&x),
                _ => o is None,
            },
    {
        match self {
            Expr::Lit(x) => Some(x),
            _ => None,
        }
    }

    /// Whether this is [`Expr::Arrow`].
    pub fn is_arrow(&self) -> (b: bool)
        ensures
            b == (self is Arrow),
    {
        match self {
            Expr::Arrow(_) => true,
            _ => false,
        }
    }

    /// Whether this is [`Expr::Tpl`].
    pub fn is_tpl(&self) -> (b: bool)
        ensures
            b == (self is Tpl),
    {
        match self {
            Expr::Tpl(_) => true,
            _ => false,
        }
    }

    /// The node, if this is [`Expr::TaggedTpl`].
    pub fn as_tagged_tpl(&self) -> (r: Option<&TaggedTpl>)
        ensures
            match *self {
                Expr::TaggedTpl(x) => r matches Some(y) && *y == x,
                _ => r is None,
            },
    {
        match self {
            Expr::TaggedTpl(x) => Some(x),
            _ => None,
        }
    }

    /// Whether this is [`Expr::Paren`].
    pub fn is_paren(&self) -> (b: bool)
        ensures
            b == (self is Paren),
    {
        match self {
            Expr::Paren(_) => true,
            _ => false,
        }
    }

    /// Whether this is [`Expr::TsAs`].
    pub fn is_ts_as(&self) -> (b: bool)
        ensures
            b == (self is TsAs),
    {
        match self {
            Expr::TsAs(_) => true,
            _ => false,
        }
    }

    /// Whether this is [`Expr::Match`].
    pub fn is_match_expr(&self) -> (b: bool)
        ensures
            b == (self is Match),
    {
        match self {
            Expr::Match(_) => true,
            _ => false,
        }
    }

    /// Whether this is [`Expr::ZtsIf`].
    pub fn is_zts_if(&self) -> (b: bool)
        ensures
            b == (self is ZtsIf),
    {
        match self {
            Expr::ZtsIf(_) => true,
            _ => false,
        }
    }

    /// Whether this is [`Expr::ZtsExprBlock`].
    pub fn is_zts_expr_block(&self) -> (b: bool)
        ensures
            b == (self is ZtsExprBlock),
    {
        match self {
            Expr::ZtsExprBlock(_) => true,
            _ => false,
        }
    }

    /// The content of [`Expr::ZtsExprBlock`].
    pub fn as_zts_expr_block(&self) -> (o: Option<&ZtsExprBlock>)
        ensures
            match *self {
                Expr::ZtsExprBlock(x) => o == Some(&x),
                _ => o is None,
            },
    {
        match self {
            Expr::ZtsExprBlock(x) => Some(x),
            _ => None,
        }
    }
}

impl Expr {
    /// Where the expression stands.
    pub fn span(&self) -> (s: Span)
        ensures
            s == self.tree().span,
    {
        proof {
            self.lemma_tree();
            match self {
                Expr::Array(x) => x.lemma_tree(),
                Expr::Object(x) => x.lemma_tree(),
                Expr::Unary(x) => x.lemma_tree(),
                Expr::Bin(x) => x.lemma_tree(),
                Expr::Assign(x) => x.lemma_tree(),
                Expr::Member(x) => x.lemma_tree(),
                Expr::Cond(x) => x.lemma_tree(),
                Expr::Call(x) => x.lemma_tree(),
                Expr::SeqExpr(x) => x.lemma_tree(),
                Expr::Ident(_) => {},
                Expr::Lit(_) => {},
                Expr::Arrow(x) => x.lemma_tree(),
                Expr::Paren(x) => x.lemma_tree(),
                Expr::Tpl(x) => x.lemma_tree(),
                Expr::TaggedTpl(x) => x.lemma_tree(),
                Expr::TsNonNull(x) => x.lemma_tree(),
                Expr::TsAs(x) => x.lemma_tree(),
                Expr::TsSatisfies(x) => x.lemma_tree(),
                Expr::Match(x) => x.lemma_tree(),
                Expr::ZtsIf(x) => x.lemma_tree(),
                Expr::ZtsExprBlock(x) => x.lemma_tree(),
            }
        }
        match self {
            Expr::Array(x) => x.span,
            Expr::Object(x) => x.span,
            Expr::Unary(x) => x.span,
            Expr::Bin(x) => x.span,
            Expr::Assign(x) => x.span,
            Expr::Member(x) => x.span,
            Expr::Cond(x) => x.span,
            Expr::Call(x) => x.span,
            Expr::SeqExpr(x) => x.span,
            Expr::Ident(x) => x.span,
            Expr::Lit(x) => x.span(),
            Expr::Arrow(x) => x.span,
            Expr::Paren(x) => x.span,
            Expr::Tpl(x) => x.span,
            Expr::TaggedTpl(x) => x.span,
            Expr::TsNonNull(x) => x.span,
            Expr::TsAs(x) => x.span,
            Expr::TsSatisfies(x) => x.span,
            Expr::Match(x) => x.span,
            Expr::ZtsIf(x) => x.span,
            Expr::ZtsExprBlock(x) => x.span,
        }
    }

    /// The label of the tree tells identifiers, sequences and members from the
    /// other expressions.
    pub proof fn lemma_label(self)
        ensures
            (self.tree().label is Ident) == (self is Ident),
            (self.tree().label is SeqExpr) == (self is SeqExpr),
            (self.tree().label is Member) == (self is Member),
            (self.tree().label is Unary) == (self is Unary),
            (self.tree().label is Bin) == (self is Bin),
            (self.tree().label is Match) == (self is Match),
            (self.tree().label is ZtsIf) == (self is ZtsIf),
            (self.tree().label is ZtsExprBlock) == (self is ZtsExprBlock),
    {
        self.lemma_tree();
        match self {
            Expr::Array(x) => {
                x.lemma_tree();
            },
            Expr::Object(x) => {
                x.lemma_tree();
            },
            Expr::Unary(x) => {
                x.lemma_tree();
            },
            Expr::Bin(x) => {
                x.lemma_tree();
            },
            Expr::Assign(x) => {
                x.lemma_tree();
            },
            Expr::Member(x) => {
                x.lemma_tree();
            },
            Expr::Cond(x) => {
                x.lemma_tree();
            },
            Expr::Call(x) => {
                x.lemma_tree();
            },
            Expr::SeqExpr(x) => {
                x.lemma_tree();
            },
            Expr::Ident(_) => {},
            Expr::Lit(_) => {},
            Expr::Arrow(x) => {
                x.lemma_tree();
            },
            Expr::Paren(x) => {
                x.lemma_tree();
            },
            Expr::Tpl(x) => {
                x.lemma_tree();
            },
            Expr::TaggedTpl(x) => {
                x.lemma_tree();
            },
            Expr::TsNonNull(x) => {
                x.lemma_tree();
            },
            Expr::TsAs(x) => {
                x.lemma_tree();
            },
            Expr::TsSatisfies(x) => {
                x.lemma_tree();
            },
            Expr::Match(x) => {
                x.lemma_tree();
            },
            Expr::ZtsIf(x) => {
                x.lemma_tree();
            },
            Expr::ZtsExprBlock(x) => {
                x.lemma_tree();
            },
        }
    }
}

impl Expr {
    /// Takes [`Expr::Match`] apart.
    pub fn expect_match_expr(self) -> (m: MatchExpr)
        requires
            self is Match,
        ensures
            self == Expr::Match(m),
    {
        match self {
            Expr::Match(m) => m,
            _ => vstd::pervasive::unreached(),
        }
    }

    /// Takes [`Expr::ZtsIf`] apart.
    pub fn expect_zts_if(self) -> (i: ZtsIfExpr)
        requires
            self is ZtsIf,
        ensures
            self == Expr::ZtsIf(i),
    {
        match self {
            Expr::ZtsIf(i) => i,
            _ => vstd::pervasive::unreached(),
        }
    }
}

impl MatchPat {
    /// Whether this is [`MatchPat::Variant`].
    pub fn is_variant(&self) -> (b: bool)
        ensures
            b == (self is Variant),
    {
        match self {
            MatchPat::Variant(_) => true,
            _ => false,
        }
    }

    /// The content of [`MatchPat::Variant`].
    pub fn as_variant(&self) -> (o: Option<&MatchVariantPat>)
        ensures
            match *self {
                MatchPat::Variant(x) => o == Some(&x),
                _ => o is None,
            },
    {
        match self {
            MatchPat::Variant(x) => Some(x),
            _ => None,
        }
    }

    /// Whether this is [`MatchPat::Wildcard`].
    pub fn is_wildcard(&self) -> (b: bool)
        ensures
            b == (self is Wildcard),
    {
        match self {
            MatchPat::Wildcard(_) => true,
            _ => false,
        }
    }

    /// Whether this is [`MatchPat::Lit`].
    pub fn is_lit(&self) -> (b: bool)
        ensures
            b == (self is Lit),
    {
        match self {
            MatchPat::Lit(_) => true,
            _ => false,
        }
    }

    /// The content of [`MatchPat::Lit`].
    pub fn as_lit(&self) -> (o: Option<&MatchLitPat>)
        ensures
            match *self {
                MatchPat::Lit(x) => o == Some(&x),
                _ => o is None,
            },
    {
        match self {
            MatchPat::Lit(x) => Some(x),
            _ => None,
        }
    }
}

impl ZtsIfAlt {
    /// Whether this is [`ZtsIfAlt::Block`].
    pub fn is_block(&self) -> (b: bool)
        ensures
            b == (self is Block),
    {
        match self {
            ZtsIfAlt::Block(_) => true,
            _ => false,
        }
    }
}
} // verus!
