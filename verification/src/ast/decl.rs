//! Declarations.
use crate::ast::expr::Expr;
use crate::ast::function::{Class, Function};
use crate::ast::ident::{Ident, IdentName};
use crate::ast::lit::{Number, Str};
use crate::ast::pat::{Invalid, Pat};
use crate::ast::stmt::{stmt_trees, Stmt};
use crate::ast::typescript::{
    TsEnumDecl, TsInterfaceDecl, TsKeywordType, TsKeywordTypeKind, TsModuleDecl, TsType,
    TsTypeAliasDecl,
};
use crate::span::{Span, SyntaxContext};
use crate::tree::{absent, kids1, kids2, kids3, list, node, trees, HasTree, Label, Tree};
use vstd::prelude::*;

verus! {

/// A declaration.
///
/// The order of the variants is part of their encoding: a new variant goes to
/// the end.
#[derive(Debug, PartialEq, Eq, Hash)]
pub enum Decl {
    /// `class C { ... }`
    Class(ClassDecl),
    /// `function f() { ... }`
    Fn(FnDecl),
    /// `var`, `let` and `const`.
    Var(Box<VarDecl>),
    /// `using x = f();`
    Using(Box<UsingDecl>),
    /// `interface I { ... }`
    TsInterface(Box<TsInterfaceDecl>),
    /// `type T = string;`
    TsTypeAlias(Box<TsTypeAliasDecl>),
    /// `enum Color { Red }`, as TypeScript has it.
    TsEnum(Box<TsEnumDecl>),
    /// `namespace N { ... }`
    TsModule(Box<TsModuleDecl>),
    /// An enum with data. Has to be lowered to a tagged union type alias and
    /// a factory object before code is generated.
    ZtsEnum(Box<ZtsEnumDecl>),
    /// `newtype AccountId = string;`. Has to be lowered to a branded type
    /// alias and a factory function before code is generated.
    ZtsNewtype(Box<ZtsNewtypeDecl>),
    /// `union Level = 'a' | 'b';`, a closed vocabulary of literals. Has to be
    /// lowered to a type alias and a values/has object before code is
    /// generated.
    ZtsUnion(Box<ZtsUnionDecl>),
    /// `impl Display for Shape { fn fmt(self) -> string { ... } }`. Has to be
    /// lowered, its methods merged into the factory constant of the type,
    /// before code is generated.
    ZtsImpl(Box<ZtsImplDecl>),
}

/// `function f() { ... }`
#[derive(Debug, PartialEq, Eq, Hash)]
pub struct FnDecl {
    pub ident: Ident,
    pub declare: bool,
    pub function: Box<Function>,
}

/// `class C { ... }`
#[derive(Debug, PartialEq, Eq, Hash)]
pub struct ClassDecl {
    pub ident: Ident,
    pub declare: bool,
    pub class: Box<Class>,
}

/// `var`, `let` and `const`.
#[derive(Debug, PartialEq, Eq, Hash)]
pub struct VarDecl {
    pub span: Span,
    pub ctxt: SyntaxContext,
    pub kind: VarDeclKind,
    pub declare: bool,
    pub decls: Vec<VarDeclarator>,
}

/// The word that a [`VarDecl`] starts with.
#[derive(Clone, Copy, Debug, PartialEq, Eq, PartialOrd, Ord, Hash, Structural)]
pub enum VarDeclKind {
    /// `var`
    Var,
    /// `let`
    Let,
    /// `const`
    Const,
}

/// One binding of a [`VarDecl`], and the expression it starts from.
#[derive(Debug, PartialEq, Eq, Hash)]
pub struct VarDeclarator {
    pub span: Span,
    pub name: Pat,
    pub init: Option<Box<Expr>>,
    pub definite: bool,
}

/// `using x = f();`
#[derive(Debug, PartialEq, Eq, Hash)]
pub struct UsingDecl {
    pub span: Span,
    pub is_await: bool,
    pub decls: Vec<VarDeclarator>,
}

/// `enum Shape { Circle { radius: number }, Square { side: number } }`
///
/// Takes the place of the enum of TypeScript when zts is on.
#[derive(Debug, PartialEq, Eq, Hash)]
pub struct ZtsEnumDecl {
    pub span: Span,
    pub ident: Ident,
    pub variants: Vec<ZtsEnumVariant>,
}

/// One variant of a [`ZtsEnumDecl`]: `Circle { radius: number }`.
#[derive(Debug, PartialEq, Eq, Hash)]
pub struct ZtsEnumVariant {
    pub span: Span,
    pub name: Ident,
    pub fields: Vec<ZtsEnumField>,
}

/// One field of a [`ZtsEnumVariant`]: `radius: number`.
#[derive(Debug, PartialEq, Eq, Hash)]
pub struct ZtsEnumField {
    pub span: Span,
    pub name: IdentName,
    pub type_ann: Box<TsType>,
}

/// `newtype AccountId = string;`
#[derive(Debug, PartialEq, Eq, Hash)]
pub struct ZtsNewtypeDecl {
    pub span: Span,
    pub ident: Ident,
    pub type_ann: Box<TsType>,
}

/// `impl Display for Shape { fn fmt(self) -> string { ... } }`
///
/// The trait is a plain interface, the type is declared in the same module.
#[derive(Debug, PartialEq, Eq, Hash)]
pub struct ZtsImplDecl {
    pub span: Span,
    pub trait_ident: Ident,
    pub for_ident: Ident,
    pub methods: Vec<ZtsImplMethod>,
}

/// One method of a [`ZtsImplDecl`]: `fn fmt(self) -> string { ... }`.
///
/// The receiver `self` is the first parameter of the function, a binding without
/// a type.
#[derive(Debug, PartialEq, Eq, Hash)]
pub struct ZtsImplMethod {
    pub span: Span,
    pub name: Ident,
    pub function: Box<Function>,
}

/// `union Level = 'a' | 'b';`
#[derive(Debug, PartialEq, Eq, Hash)]
pub struct ZtsUnionDecl {
    pub span: Span,
    pub ident: Ident,
    pub members: Vec<ZtsUnionMember>,
}

/// One member of a [`ZtsUnionDecl`]: a string or a number.
#[derive(Debug, PartialEq, Eq, Hash)]
pub enum ZtsUnionMember {
    Str(Str),
    Num(Number),
}

impl Decl {
    /// The tree of the node.
    #[verifier::opaque]
    pub open spec fn tree(self) -> Tree
        decreases self,
    {
        match self {
            Decl::Class(x) => x.tree(),
            Decl::Fn(x) => x.tree(),
            Decl::Var(x) => (*x).tree(),
            Decl::Using(x) => (*x).tree(),
            Decl::TsEnum(x) => (*x).tree(),
            Decl::ZtsEnum(x) => (*x).tree(),
            Decl::ZtsNewtype(x) => (*x).tree(),
            Decl::ZtsUnion(x) => (*x).tree(),
            Decl::ZtsImpl(x) => (*x).tree(),
            Decl::TsInterface(x) => node(
                Label::TsInterface { declare: x.declare },
                x.span,
                kids1(x.id.tree()),
            ),
            Decl::TsTypeAlias(x) => node(
                Label::TsTypeAlias { declare: x.declare },
                x.span,
                kids2(x.id.tree(), (*x.type_ann).tree()),
            ),
            Decl::TsModule(x) => node(
                Label::TsModule { declare: x.declare },
                x.span,
                kids2(x.id.tree(), list(stmt_trees(x.body@))),
            ),
        }
    }

    /// The tree, out of the trees of the parts.
    pub proof fn lemma_tree(self)
        ensures
            self.tree() == match self {
                Decl::Class(x) => x.tree(),
                Decl::Fn(x) => x.tree(),
                Decl::Var(x) => (*x).tree(),
                Decl::Using(x) => (*x).tree(),
                Decl::TsEnum(x) => (*x).tree(),
                Decl::ZtsEnum(x) => (*x).tree(),
                Decl::ZtsNewtype(x) => (*x).tree(),
                Decl::ZtsUnion(x) => (*x).tree(),
                Decl::ZtsImpl(x) => (*x).tree(),
                Decl::TsInterface(x) => node(
                    Label::TsInterface { declare: x.declare },
                    x.span,
                    kids1(x.id.tree()),
                ),
                Decl::TsTypeAlias(x) => node(
                    Label::TsTypeAlias { declare: x.declare },
                    x.span,
                    kids2(x.id.tree(), (*x.type_ann).tree()),
                ),
                Decl::TsModule(x) => node(
                    Label::TsModule { declare: x.declare },
                    x.span,
                    kids2(x.id.tree(), list(trees(x.body@))),
                ),
            },
    {
        reveal(ClassDecl::tree);
        reveal(Decl::tree);
        reveal(FnDecl::tree);
        reveal(Stmt::tree);
        reveal(TsEnumDecl::tree);
        reveal(TsType::tree);
        reveal(UsingDecl::tree);
        reveal(VarDecl::tree);
        reveal(ZtsEnumDecl::tree);
        reveal(ZtsImplDecl::tree);
        reveal(ZtsNewtypeDecl::tree);
        match self {
            Decl::TsModule(x) => {
                assert(stmt_trees(x.body@) =~= trees(x.body@));
            },
            _ => {},
        }
    }
}

impl FnDecl {
    /// The tree of the node.
    #[verifier::opaque]
    pub open spec fn tree(self) -> Tree
        decreases self,
    {
        node(
            Label::Fn { declare: self.declare },
            self.function.span,
            kids2(self.ident.tree(), (*self.function).tree()),
        )
    }

    /// The tree, out of the trees of the parts.
    pub proof fn lemma_tree(self)
        ensures
            self.tree() == node(
                Label::Fn { declare: self.declare },
                self.function.span,
                kids2(self.ident.tree(), (*self.function).tree()),
            ),
    {
        reveal(FnDecl::tree);
        reveal(Function::tree);
    }
}

impl ClassDecl {
    /// The tree of the node.
    #[verifier::opaque]
    pub open spec fn tree(self) -> Tree
        decreases self,
    {
        node(
            Label::Class { declare: self.declare },
            self.class.span,
            kids2(self.ident.tree(), (*self.class).tree()),
        )
    }

    /// The tree, out of the trees of the parts.
    pub proof fn lemma_tree(self)
        ensures
            self.tree() == node(
                Label::Class { declare: self.declare },
                self.class.span,
                kids2(self.ident.tree(), (*self.class).tree()),
            ),
    {
        reveal(Class::tree);
        reveal(ClassDecl::tree);
    }
}

impl VarDecl {
    /// The tree of the node.
    #[verifier::opaque]
    pub open spec fn tree(self) -> Tree
        decreases self,
    {
        node(
            Label::Var { ctxt: self.ctxt, kind: self.kind, declare: self.declare },
            self.span,
            var_declarator_trees(self.decls@),
        )
    }

    /// The tree, out of the trees of the parts.
    pub proof fn lemma_tree(self)
        ensures
            self.tree() == node(
                Label::Var { ctxt: self.ctxt, kind: self.kind, declare: self.declare },
                self.span,
                trees(self.decls@),
            ),
    {
        reveal(VarDecl::tree);
        reveal(VarDeclarator::tree);
        assert(var_declarator_trees(self.decls@) =~= trees(self.decls@));
    }
}

impl VarDeclarator {
    /// The tree of the node.
    #[verifier::opaque]
    pub open spec fn tree(self) -> Tree
        decreases self,
    {
        node(
            Label::Declarator { definite: self.definite },
            self.span,
            kids2(
                self.name.tree(),
                match self.init {
                    Some(x) => (*x).tree(),
                    None => absent(),
                },
            ),
        )
    }

    /// The tree, out of the trees of the parts.
    pub proof fn lemma_tree(self)
        ensures
            self.tree() == node(
                Label::Declarator { definite: self.definite },
                self.span,
                kids2(
                    self.name.tree(),
                    match self.init {
                        Some(x) => (*x).tree(),
                        None => absent(),
                    },
                ),
            ),
    {
        reveal(Expr::tree);
        reveal(Pat::tree);
        reveal(VarDeclarator::tree);
    }
}

impl UsingDecl {
    /// The tree of the node.
    #[verifier::opaque]
    pub open spec fn tree(self) -> Tree
        decreases self,
    {
        node(
            Label::Using { is_await: self.is_await },
            self.span,
            var_declarator_trees(self.decls@),
        )
    }

    /// The tree, out of the trees of the parts.
    pub proof fn lemma_tree(self)
        ensures
            self.tree() == node(
                Label::Using { is_await: self.is_await },
                self.span,
                trees(self.decls@),
            ),
    {
        reveal(UsingDecl::tree);
        reveal(VarDeclarator::tree);
        assert(var_declarator_trees(self.decls@) =~= trees(self.decls@));
    }
}

impl ZtsEnumDecl {
    /// The tree of the node.
    #[verifier::opaque]
    pub open spec fn tree(self) -> Tree
        decreases self,
    {
        node(
            Label::ZtsEnum,
            self.span,
            kids2(self.ident.tree(), list(zts_enum_variant_trees(self.variants@))),
        )
    }

    /// The tree, out of the trees of the parts.
    pub proof fn lemma_tree(self)
        ensures
            self.tree() == node(
                Label::ZtsEnum,
                self.span,
                kids2(self.ident.tree(), list(trees(self.variants@))),
            ),
    {
        reveal(ZtsEnumDecl::tree);
        reveal(ZtsEnumVariant::tree);
        assert(zts_enum_variant_trees(self.variants@) =~= trees(self.variants@));
    }
}

impl ZtsEnumVariant {
    /// The tree of the node.
    #[verifier::opaque]
    pub open spec fn tree(self) -> Tree
        decreases self,
    {
        node(
            Label::ZtsEnumVariant,
            self.span,
            kids2(self.name.tree(), list(zts_enum_field_trees(self.fields@))),
        )
    }

    /// The tree, out of the trees of the parts.
    pub proof fn lemma_tree(self)
        ensures
            self.tree() == node(
                Label::ZtsEnumVariant,
                self.span,
                kids2(self.name.tree(), list(trees(self.fields@))),
            ),
    {
        reveal(ZtsEnumField::tree);
        reveal(ZtsEnumVariant::tree);
        assert(zts_enum_field_trees(self.fields@) =~= trees(self.fields@));
    }
}

impl ZtsEnumField {
    /// The tree of the node.
    #[verifier::opaque]
    pub open spec fn tree(self) -> Tree
        decreases self,
    {
        node(
            Label::ZtsEnumField,
            self.span,
            kids2(self.name.tree(), (*self.type_ann).tree()),
        )
    }

    /// The tree, out of the trees of the parts.
    pub proof fn lemma_tree(self)
        ensures
            self.tree() == node(
                Label::ZtsEnumField,
                self.span,
                kids2(self.name.tree(), (*self.type_ann).tree()),
            ),
    {
        reveal(TsType::tree);
        reveal(ZtsEnumField::tree);
    }
}

impl ZtsNewtypeDecl {
    /// The tree of the node.
    #[verifier::opaque]
    pub open spec fn tree(self) -> Tree
        decreases self,
    {
        node(
            Label::ZtsNewtype,
            self.span,
            kids2(self.ident.tree(), (*self.type_ann).tree()),
        )
    }

    /// The tree, out of the trees of the parts.
    pub proof fn lemma_tree(self)
        ensures
            self.tree() == node(
                Label::ZtsNewtype,
                self.span,
                kids2(self.ident.tree(), (*self.type_ann).tree()),
            ),
    {
        reveal(TsType::tree);
        reveal(ZtsNewtypeDecl::tree);
    }
}

impl ZtsImplDecl {
    /// The tree of the node.
    #[verifier::opaque]
    pub open spec fn tree(self) -> Tree
        decreases self,
    {
        node(
            Label::ZtsImpl,
            self.span,
            kids3(
                self.trait_ident.tree(),
                self.for_ident.tree(),
                list(zts_impl_method_trees(self.methods@)),
            ),
        )
    }

    /// The tree, out of the trees of the parts.
    pub proof fn lemma_tree(self)
        ensures
            self.tree() == node(
                Label::ZtsImpl,
                self.span,
                kids3(
                    self.trait_ident.tree(),
                    self.for_ident.tree(),
                    list(trees(self.methods@)),
                ),
            ),
    {
        reveal(ZtsImplDecl::tree);
        reveal(ZtsImplMethod::tree);
        assert(zts_impl_method_trees(self.methods@) =~= trees(self.methods@));
    }
}

impl ZtsImplMethod {
    /// The tree of the node.
    #[verifier::opaque]
    pub open spec fn tree(self) -> Tree
        decreases self,
    {
        node(
            Label::ZtsImplMethod,
            self.span,
            kids2(self.name.tree(), (*self.function).tree()),
        )
    }

    /// The tree, out of the trees of the parts.
    pub proof fn lemma_tree(self)
        ensures
            self.tree() == node(
                Label::ZtsImplMethod,
                self.span,
                kids2(self.name.tree(), (*self.function).tree()),
            ),
    {
        reveal(Function::tree);
        reveal(ZtsImplMethod::tree);
    }
}

impl ZtsUnionDecl {
    /// The tree of the node.
    pub open spec fn tree(self) -> Tree {
        node(
            Label::ZtsUnion,
            self.span,
            kids2(self.ident.tree(), list(zts_union_member_trees(self.members@))),
        )
    }
}

impl ZtsUnionMember {
    /// The tree of the node.
    pub open spec fn tree(self) -> Tree {
        match self {
            ZtsUnionMember::Str(x) => x.tree(),
            ZtsUnionMember::Num(x) => x.tree(),
        }
    }
}

/// The trees of the nodes.
pub open spec fn zts_union_member_trees(v: Seq<ZtsUnionMember>) -> Seq<Tree> {
    Seq::new(v.len(), |k: int| v[k].tree())
}

/// The trees of the nodes.
pub open spec fn var_declarator_trees(v: Seq<VarDeclarator>) -> Seq<Tree>
    decreases v,
{
    Seq::new(
        v.len(),
        |k: int|
            if 0 <= k < v.len() {
                v[k].tree()
            } else {
                arbitrary()
            },
    )
}

/// The trees of the nodes.
pub open spec fn zts_enum_variant_trees(v: Seq<ZtsEnumVariant>) -> Seq<Tree>
    decreases v,
{
    Seq::new(
        v.len(),
        |k: int|
            if 0 <= k < v.len() {
                v[k].tree()
            } else {
                arbitrary()
            },
    )
}

/// The trees of the nodes.
pub open spec fn zts_enum_field_trees(v: Seq<ZtsEnumField>) -> Seq<Tree>
    decreases v,
{
    Seq::new(
        v.len(),
        |k: int|
            if 0 <= k < v.len() {
                v[k].tree()
            } else {
                arbitrary()
            },
    )
}

/// The trees of the nodes.
pub open spec fn zts_impl_method_trees(v: Seq<ZtsImplMethod>) -> Seq<Tree>
    decreases v,
{
    Seq::new(
        v.len(),
        |k: int|
            if 0 <= k < v.len() {
                v[k].tree()
            } else {
                arbitrary()
            },
    )
}

impl Decl {
    /// An empty `var`, for a place that is yet to be filled.
    pub fn dummy() -> (d: Decl)
        ensures
            d matches Decl::Var(v) && v.is_dummy(),
    {
        Decl::Var(Box::new(VarDecl::default()))
    }

    /// Whether this is [`Decl::Class`].
    pub fn is_class(&self) -> (b: bool)
        ensures
            b == (self is Class),
    {
        match self {
            Decl::Class(_) => true,
            _ => false,
        }
    }

    /// The declaration, if this is [`Decl::Class`].
    pub fn as_class(&self) -> (r: Option<&ClassDecl>)
        ensures
            match *self {
                Decl::Class(x) => r matches Some(y) && *y == x,
                _ => r is None,
            },
    {
        match self {
            Decl::Class(x) => Some(x),
            _ => None,
        }
    }

    /// Whether this is [`Decl::Fn`].
    pub fn is_fn_decl(&self) -> (b: bool)
        ensures
            b == (self is Fn),
    {
        match self {
            Decl::Fn(_) => true,
            _ => false,
        }
    }

    /// The declaration, if this is [`Decl::Fn`].
    pub fn as_fn_decl(&self) -> (r: Option<&FnDecl>)
        ensures
            match *self {
                Decl::Fn(x) => r matches Some(y) && *y == x,
                _ => r is None,
            },
    {
        match self {
            Decl::Fn(x) => Some(x),
            _ => None,
        }
    }

    /// Whether this is [`Decl::Var`].
    pub fn is_var(&self) -> (b: bool)
        ensures
            b == (self is Var),
    {
        match self {
            Decl::Var(_) => true,
            _ => false,
        }
    }

    /// The declaration, if this is [`Decl::Var`].
    pub fn as_var(&self) -> (r: Option<&VarDecl>)
        ensures
            match *self {
                Decl::Var(x) => r matches Some(y) && *y == *x,
                _ => r is None,
            },
    {
        match self {
            Decl::Var(x) => Some(&**x),
            _ => None,
        }
    }

    /// Whether this is [`Decl::Using`].
    pub fn is_using(&self) -> (b: bool)
        ensures
            b == (self is Using),
    {
        match self {
            Decl::Using(_) => true,
            _ => false,
        }
    }

    /// The declaration, if this is [`Decl::Using`].
    pub fn as_using(&self) -> (r: Option<&UsingDecl>)
        ensures
            match *self {
                Decl::Using(x) => r matches Some(y) && *y == *x,
                _ => r is None,
            },
    {
        match self {
            Decl::Using(x) => Some(&**x),
            _ => None,
        }
    }

    /// Whether this is [`Decl::TsInterface`].
    pub fn is_ts_interface(&self) -> (b: bool)
        ensures
            b == (self is TsInterface),
    {
        match self {
            Decl::TsInterface(_) => true,
            _ => false,
        }
    }

    /// The declaration, if this is [`Decl::TsInterface`].
    pub fn as_ts_interface(&self) -> (r: Option<&TsInterfaceDecl>)
        ensures
            match *self {
                Decl::TsInterface(x) => r matches Some(y) && *y == *x,
                _ => r is None,
            },
    {
        match self {
            Decl::TsInterface(x) => Some(&**x),
            _ => None,
        }
    }

    /// Whether this is [`Decl::TsTypeAlias`].
    pub fn is_ts_type_alias(&self) -> (b: bool)
        ensures
            b == (self is TsTypeAlias),
    {
        match self {
            Decl::TsTypeAlias(_) => true,
            _ => false,
        }
    }

    /// The declaration, if this is [`Decl::TsTypeAlias`].
    pub fn as_ts_type_alias(&self) -> (r: Option<&TsTypeAliasDecl>)
        ensures
            match *self {
                Decl::TsTypeAlias(x) => r matches Some(y) && *y == *x,
                _ => r is None,
            },
    {
        match self {
            Decl::TsTypeAlias(x) => Some(&**x),
            _ => None,
        }
    }

    /// Whether this is [`Decl::TsEnum`].
    pub fn is_ts_enum(&self) -> (b: bool)
        ensures
            b == (self is TsEnum),
    {
        match self {
            Decl::TsEnum(_) => true,
            _ => false,
        }
    }

    /// The declaration, if this is [`Decl::TsEnum`].
    pub fn as_ts_enum(&self) -> (r: Option<&TsEnumDecl>)
        ensures
            match *self {
                Decl::TsEnum(x) => r matches Some(y) && *y == *x,
                _ => r is None,
            },
    {
        match self {
            Decl::TsEnum(x) => Some(&**x),
            _ => None,
        }
    }

    /// Whether this is [`Decl::TsModule`].
    pub fn is_ts_module(&self) -> (b: bool)
        ensures
            b == (self is TsModule),
    {
        match self {
            Decl::TsModule(_) => true,
            _ => false,
        }
    }

    /// The declaration, if this is [`Decl::TsModule`].
    pub fn as_ts_module(&self) -> (r: Option<&TsModuleDecl>)
        ensures
            match *self {
                Decl::TsModule(x) => r matches Some(y) && *y == *x,
                _ => r is None,
            },
    {
        match self {
            Decl::TsModule(x) => Some(&**x),
            _ => None,
        }
    }

    /// Whether this is [`Decl::ZtsEnum`].
    pub fn is_zts_enum(&self) -> (b: bool)
        ensures
            b == (self is ZtsEnum),
    {
        match self {
            Decl::ZtsEnum(_) => true,
            _ => false,
        }
    }

    /// The declaration, if this is [`Decl::ZtsEnum`].
    pub fn as_zts_enum(&self) -> (r: Option<&ZtsEnumDecl>)
        ensures
            match *self {
                Decl::ZtsEnum(x) => r matches Some(y) && *y == *x,
                _ => r is None,
            },
    {
        match self {
            Decl::ZtsEnum(x) => Some(&**x),
            _ => None,
        }
    }

    /// Whether this is [`Decl::ZtsNewtype`].
    pub fn is_zts_newtype(&self) -> (b: bool)
        ensures
            b == (self is ZtsNewtype),
    {
        match self {
            Decl::ZtsNewtype(_) => true,
            _ => false,
        }
    }

    /// The declaration, if this is [`Decl::ZtsNewtype`].
    pub fn as_zts_newtype(&self) -> (r: Option<&ZtsNewtypeDecl>)
        ensures
            match *self {
                Decl::ZtsNewtype(x) => r matches Some(y) && *y == *x,
                _ => r is None,
            },
    {
        match self {
            Decl::ZtsNewtype(x) => Some(&**x),
            _ => None,
        }
    }

    /// Whether this is [`Decl::ZtsUnion`].
    pub fn is_zts_union(&self) -> (b: bool)
        ensures
            b == (self is ZtsUnion),
    {
        match self {
            Decl::ZtsUnion(_) => true,
            _ => false,
        }
    }

    /// The declaration, if this is [`Decl::ZtsUnion`].
    pub fn as_zts_union(&self) -> (r: Option<&ZtsUnionDecl>)
        ensures
            match *self {
                Decl::ZtsUnion(x) => r matches Some(y) && *y == *x,
                _ => r is None,
            },
    {
        match self {
            Decl::ZtsUnion(x) => Some(&**x),
            _ => None,
        }
    }

    /// Whether this is [`Decl::ZtsImpl`].
    pub fn is_zts_impl(&self) -> (b: bool)
        ensures
            b == (self is ZtsImpl),
    {
        match self {
            Decl::ZtsImpl(_) => true,
            _ => false,
        }
    }

    /// The declaration, if this is [`Decl::ZtsImpl`].
    pub fn as_zts_impl(&self) -> (r: Option<&ZtsImplDecl>)
        ensures
            match *self {
                Decl::ZtsImpl(x) => r matches Some(y) && *y == *x,
                _ => r is None,
            },
    {
        match self {
            Decl::ZtsImpl(x) => Some(&**x),
            _ => None,
        }
    }

    /// No declaration has the label of an expression statement.
    pub proof fn lemma_label(self)
        ensures
            !(self.tree().label is ExprStmt),
    {
        self.lemma_tree();
        match self {
            Decl::Class(x) => {
                x.lemma_tree();
            },
            Decl::Fn(x) => {
                x.lemma_tree();
            },
            Decl::Var(x) => {
                x.lemma_tree();
            },
            Decl::Using(x) => {
                x.lemma_tree();
            },
            Decl::TsEnum(x) => {
                x.lemma_tree();
            },
            Decl::ZtsEnum(x) => {
                x.lemma_tree();
            },
            Decl::ZtsNewtype(x) => {
                x.lemma_tree();
            },
            Decl::ZtsUnion(_) => {},
            Decl::ZtsImpl(x) => {
                x.lemma_tree();
            },
            _ => {},
        }
    }
}

impl FnDecl {
    /// A function without a name, for a place that is yet to be filled.
    pub open spec fn is_dummy(self) -> bool {
        &&& self.ident.is_dummy()
        &&& !self.declare
        &&& (*self.function).tree() == Function::blank()
    }

    /// A function without a name, for a place that is yet to be filled.
    pub fn dummy() -> (d: FnDecl)
        ensures
            d.is_dummy(),
    {
        FnDecl { ident: Ident::dummy(), declare: false, function: Box::new(Function::dummy()) }
    }
}

impl ClassDecl {
    /// A class without a name, for a place that is yet to be filled.
    pub open spec fn is_dummy(self) -> bool {
        &&& self.ident.is_dummy()
        &&& !self.declare
        &&& (*self.class).tree() == Class::blank()
    }

    /// A class without a name, for a place that is yet to be filled.
    pub fn dummy() -> (d: ClassDecl)
        ensures
            d.is_dummy(),
    {
        ClassDecl { ident: Ident::dummy(), declare: false, class: Box::new(Class::dummy()) }
    }
}

impl VarDecl {
    /// A `var` without bindings.
    pub open spec fn is_dummy(self) -> bool {
        &&& self.span == Span::spec_dummy()
        &&& self.ctxt == SyntaxContext(0)
        &&& self.kind == VarDeclKind::Var
        &&& !self.declare
        &&& self.decls@.len() == 0
    }

    /// A `var` without bindings.
    pub fn dummy() -> (d: VarDecl)
        ensures
            d.is_dummy(),
    {
        VarDecl {
            span: Span::dummy(),
            ctxt: SyntaxContext::empty(),
            kind: VarDeclKind::default(),
            declare: false,
            decls: Vec::new(),
        }
    }
}

impl Default for VarDecl {
    fn default() -> (d: VarDecl)
        ensures
            d.is_dummy(),
    {
        VarDecl::dummy()
    }
}

impl VarDeclarator {
    /// A binding that is yet to be filled.
    pub open spec fn is_dummy(self) -> bool {
        &&& self.span == Span::spec_dummy()
        &&& self.name == Pat::Invalid(Invalid { span: Span::spec_dummy() })
        &&& self.init is None
        &&& !self.definite
    }

    /// A binding that is yet to be filled.
    pub fn dummy() -> (d: VarDeclarator)
        ensures
            d.is_dummy(),
    {
        VarDeclarator {
            span: Span::dummy(),
            name: Pat::Invalid(Invalid { span: Span::dummy() }),
            init: None,
            definite: false,
        }
    }
}

impl UsingDecl {
    /// A `using` without bindings.
    pub open spec fn is_dummy(self) -> bool {
        &&& self.span == Span::spec_dummy()
        &&& !self.is_await
        &&& self.decls@.len() == 0
    }

    /// A `using` without bindings.
    pub fn dummy() -> (d: UsingDecl)
        ensures
            d.is_dummy(),
    {
        UsingDecl { span: Span::dummy(), is_await: false, decls: Vec::new() }
    }
}

impl ZtsEnumDecl {
    /// An enum without a name and without variants.
    pub open spec fn is_dummy(self) -> bool {
        &&& self.span == Span::spec_dummy()
        &&& self.ident.is_dummy()
        &&& self.variants@.len() == 0
    }

    /// An enum without a name and without variants.
    pub fn dummy() -> (d: ZtsEnumDecl)
        ensures
            d.is_dummy(),
    {
        ZtsEnumDecl { span: Span::dummy(), ident: Ident::dummy(), variants: Vec::new() }
    }
}

impl Default for ZtsEnumDecl {
    fn default() -> (d: ZtsEnumDecl)
        ensures
            d.is_dummy(),
    {
        ZtsEnumDecl::dummy()
    }
}

impl ZtsEnumVariant {
    /// A variant without a name and without fields.
    pub open spec fn is_dummy(self) -> bool {
        &&& self.span == Span::spec_dummy()
        &&& self.name.is_dummy()
        &&& self.fields@.len() == 0
    }

    /// A variant without a name and without fields.
    pub fn dummy() -> (d: ZtsEnumVariant)
        ensures
            d.is_dummy(),
    {
        ZtsEnumVariant { span: Span::dummy(), name: Ident::dummy(), fields: Vec::new() }
    }
}

impl Default for ZtsEnumVariant {
    fn default() -> (d: ZtsEnumVariant)
        ensures
            d.is_dummy(),
    {
        ZtsEnumVariant::dummy()
    }
}

impl ZtsNewtypeDecl {
    /// A newtype of `any` without a name.
    pub open spec fn is_dummy(self) -> bool {
        &&& self.span == Span::spec_dummy()
        &&& self.ident.is_dummy()
        &&& *self.type_ann == TsType::TsKeywordType(
            TsKeywordType {
                span: Span::spec_dummy(),
                kind: TsKeywordTypeKind::TsAnyKeyword,
            },
        )
    }

    /// A newtype of `any` without a name.
    pub fn dummy() -> (d: ZtsNewtypeDecl)
        ensures
            d.is_dummy(),
    {
        ZtsNewtypeDecl {
            span: Span::dummy(),
            ident: Ident::dummy(),
            type_ann: Box::new(
                TsType::TsKeywordType(
                    TsKeywordType { span: Span::dummy(), kind: TsKeywordTypeKind::TsAnyKeyword },
                ),
            ),
        }
    }
}

impl ZtsImplDecl {
    /// An impl without names and without methods.
    pub open spec fn is_dummy(self) -> bool {
        &&& self.span == Span::spec_dummy()
        &&& self.trait_ident.is_dummy()
        &&& self.for_ident.is_dummy()
        &&& self.methods@.len() == 0
    }

    /// An impl without names and without methods.
    pub fn dummy() -> (d: ZtsImplDecl)
        ensures
            d.is_dummy(),
    {
        ZtsImplDecl {
            span: Span::dummy(),
            trait_ident: Ident::dummy(),
            for_ident: Ident::dummy(),
            methods: Vec::new(),
        }
    }
}

impl Default for ZtsImplDecl {
    fn default() -> (d: ZtsImplDecl)
        ensures
            d.is_dummy(),
    {
        ZtsImplDecl::dummy()
    }
}

impl ZtsImplMethod {
    /// A method without a name and without a body.
    pub open spec fn is_dummy(self) -> bool {
        &&& self.span == Span::spec_dummy()
        &&& self.name.is_dummy()
        &&& (*self.function).tree() == Function::blank()
    }

    /// A method without a name and without a body.
    pub fn dummy() -> (d: ZtsImplMethod)
        ensures
            d.is_dummy(),
    {
        ZtsImplMethod {
            span: Span::dummy(),
            name: Ident::dummy(),
            function: Box::new(Function::dummy()),
        }
    }
}

impl Default for ZtsImplMethod {
    fn default() -> (d: ZtsImplMethod)
        ensures
            d.is_dummy(),
    {
        ZtsImplMethod::dummy()
    }
}

impl ZtsUnionDecl {
    /// A union without a name and without members.
    pub open spec fn is_dummy(self) -> bool {
        &&& self.span == Span::spec_dummy()
        &&& self.ident.is_dummy()
        &&& self.members@.len() == 0
    }

    /// A union without a name and without members.
    pub fn dummy() -> (d: ZtsUnionDecl)
        ensures
            d.is_dummy(),
    {
        ZtsUnionDecl { span: Span::dummy(), ident: Ident::dummy(), members: Vec::new() }
    }
}

impl Default for ZtsUnionDecl {
    fn default() -> (d: ZtsUnionDecl)
        ensures
            d.is_dummy(),
    {
        ZtsUnionDecl::dummy()
    }
}

impl Default for VarDeclKind {
    fn default() -> (k: VarDeclKind)
        ensures
            k == VarDeclKind::Var,
    {
        VarDeclKind::Var
    }
}

impl VarDeclKind {
    /// The word.
    pub open spec fn word(self) -> Seq<char> {
        match self {
            VarDeclKind::Var => "var"@,
            VarDeclKind::Let => "let"@,
            VarDeclKind::Const => "const"@,
        }
    }

    /// The word.
    pub fn as_str(&self) -> (s: &'static str)
        ensures
            s@ == self.word(),
    {
        match self {
            VarDeclKind::Var => "var",
            VarDeclKind::Let => "let",
            VarDeclKind::Const => "const",
        }
    }

    /// What a word stands for, if it is one of the three.
    pub fn from_str(s: &str) -> (r: Result<VarDeclKind, ()>)
        ensures
            match r {
                Ok(k) => k.word() == s@,
                Err(_) => forall|k: VarDeclKind| #[trigger] k.word() != s@,
            },
    {
        let w = s.to_owned();
        if w == "var".to_owned() {
            Ok(VarDeclKind::Var)
        } else if w == "let".to_owned() {
            Ok(VarDeclKind::Let)
        } else if w == "const".to_owned() {
            Ok(VarDeclKind::Const)
        } else {
            Err(())
        }
    }

    /// No two of them have the same word.
    pub proof fn lemma_word_injective(self, other: VarDeclKind)
        requires
            self.word() == other.word(),
        ensures
            self == other,
    {
        reveal_strlit("var");
        reveal_strlit("let");
        reveal_strlit("const");
        assert("var"@[0] != "let"@[0]);
    }
}

impl HasTree for Decl {
    open spec fn as_tree(&self) -> Tree {
        self.tree()
    }
}

impl HasTree for VarDecl {
    open spec fn as_tree(&self) -> Tree {
        self.tree()
    }
}

impl HasTree for VarDeclarator {
    open spec fn as_tree(&self) -> Tree {
        self.tree()
    }
}

impl HasTree for ZtsEnumVariant {
    open spec fn as_tree(&self) -> Tree {
        self.tree()
    }
}

impl HasTree for ZtsEnumField {
    open spec fn as_tree(&self) -> Tree {
        self.tree()
    }
}

impl HasTree for ZtsImplMethod {
    open spec fn as_tree(&self) -> Tree {
        self.tree()
    }
}

impl HasTree for ZtsUnionMember {
    open spec fn as_tree(&self) -> Tree {
        self.tree()
    }
}

} // verus!
