//! Copies of syntax nodes: a copy has the same tree.
use crate::ast::decl::{
    zts_union_member_trees, ClassDecl, Decl, FnDecl, UsingDecl, VarDecl, VarDeclarator,
    ZtsEnumDecl, ZtsEnumField, ZtsEnumVariant, ZtsImplDecl, ZtsImplMethod, ZtsNewtypeDecl,
    ZtsUnionDecl, ZtsUnionMember,
};
use crate::ast::expr::{
    ArrayLit, ArrowExpr, AssignExpr, BinExpr, BlockStmtOrExpr, CallExpr, ComputedPropName,
    CondExpr, Expr, KeyValueProp, MatchArm, MatchExpr, MatchLitPat, MatchPat, MatchVariantPat,
    MatchWildcardPat, MemberExpr, MemberProp, ObjectLit, ParenExpr, Prop, PropName, SeqExpr,
    TaggedTpl, Tpl, TplElement, TsAsExpr, TsNonNullExpr, TsSatisfiesExpr, UnaryExpr, ZtsExprBlock,
    ZtsIfAlt, ZtsIfExpr,
};
use crate::ast::function::{Class, ClassMember, ClassMethod, Function, Param};
use crate::ast::ident::{BindingIdent, Ident, IdentName};
use crate::ast::lit::{BigInt, Bool, Lit, Null, Number, Str};
use crate::ast::pat::{
    AssignPat, AssignPatProp, Invalid, KeyValuePatProp, ObjectPat, ObjectPatProp, Pat, RestPat,
};
use crate::ast::stmt::{
    module_item_trees, BlockStmt, EmptyStmt, ExportDecl, ExportDefaultExpr, ExprStmt, ForStmt,
    IfStmt, LabeledStmt, Module, ModuleDecl, ModuleItem, Stmt, VarDeclOrExpr, WhileStmt,
};
use crate::ast::typescript::{
    TsArrayType, TsEnumDecl, TsEnumMember, TsInterfaceDecl, TsKeywordType, TsLitType, TsModuleDecl,
    TsParenthesizedType, TsType, TsTypeAliasDecl, TsTypeAnn, TsTypeRef, TsUnionType,
};
use crate::atom::atom_text;
use crate::tree::{lemma_trees_push, trees, HasTree};
use vstd::prelude::*;

verus! {

/// A copy of the nodes.
fn clone_exprs(v: &Vec<Box<Expr>>) -> (c: Vec<Box<Expr>>)
    ensures
        trees(c@) == trees(v@),
    decreases v,
{
    let mut c: Vec<Box<Expr>> = Vec::new();
    let mut i: usize = 0;
    while i < v.len()
        invariant
            i <= v@.len(),
            trees(c@) == trees(v@.take(i as int)),
        decreases v@.len() - i,
    {
        let x = Box::new((*v[i]).clone());
        proof {
            lemma_trees_push(c@, x);
            lemma_trees_push(v@.take(i as int), v@[i as int]);
            assert(v@.take(i as int).push(v@[i as int]) =~= v@.take(i + 1));
        }
        c.push(x);
        i = i + 1;
    }
    assert(v@.take(i as int) =~= v@);
    c
}

/// A copy of the nodes.
fn clone_ts_types(v: &Vec<Box<TsType>>) -> (c: Vec<Box<TsType>>)
    ensures
        trees(c@) == trees(v@),
    decreases v,
{
    let mut c: Vec<Box<TsType>> = Vec::new();
    let mut i: usize = 0;
    while i < v.len()
        invariant
            i <= v@.len(),
            trees(c@) == trees(v@.take(i as int)),
        decreases v@.len() - i,
    {
        let x = Box::new((*v[i]).clone());
        proof {
            lemma_trees_push(c@, x);
            lemma_trees_push(v@.take(i as int), v@[i as int]);
            assert(v@.take(i as int).push(v@[i as int]) =~= v@.take(i + 1));
        }
        c.push(x);
        i = i + 1;
    }
    assert(v@.take(i as int) =~= v@);
    c
}

/// A copy of the nodes.
fn clone_class_members(v: &Vec<ClassMember>) -> (c: Vec<ClassMember>)
    ensures
        trees(c@) == trees(v@),
    decreases v,
{
    let mut c: Vec<ClassMember> = Vec::new();
    let mut i: usize = 0;
    while i < v.len()
        invariant
            i <= v@.len(),
            trees(c@) == trees(v@.take(i as int)),
        decreases v@.len() - i,
    {
        let x = v[i].clone();
        proof {
            lemma_trees_push(c@, x);
            lemma_trees_push(v@.take(i as int), v@[i as int]);
            assert(v@.take(i as int).push(v@[i as int]) =~= v@.take(i + 1));
        }
        c.push(x);
        i = i + 1;
    }
    assert(v@.take(i as int) =~= v@);
    c
}

/// A copy of the nodes.
fn clone_match_arms(v: &Vec<MatchArm>) -> (c: Vec<MatchArm>)
    ensures
        trees(c@) == trees(v@),
    decreases v,
{
    let mut c: Vec<MatchArm> = Vec::new();
    let mut i: usize = 0;
    while i < v.len()
        invariant
            i <= v@.len(),
            trees(c@) == trees(v@.take(i as int)),
        decreases v@.len() - i,
    {
        let x = v[i].clone();
        proof {
            lemma_trees_push(c@, x);
            lemma_trees_push(v@.take(i as int), v@[i as int]);
            assert(v@.take(i as int).push(v@[i as int]) =~= v@.take(i + 1));
        }
        c.push(x);
        i = i + 1;
    }
    assert(v@.take(i as int) =~= v@);
    c
}

/// A copy of the nodes.
fn clone_module_items(v: &Vec<ModuleItem>) -> (c: Vec<ModuleItem>)
    ensures
        trees(c@) == trees(v@),
    decreases v,
{
    let mut c: Vec<ModuleItem> = Vec::new();
    let mut i: usize = 0;
    while i < v.len()
        invariant
            i <= v@.len(),
            trees(c@) == trees(v@.take(i as int)),
        decreases v@.len() - i,
    {
        let x = v[i].clone();
        proof {
            lemma_trees_push(c@, x);
            lemma_trees_push(v@.take(i as int), v@[i as int]);
            assert(v@.take(i as int).push(v@[i as int]) =~= v@.take(i + 1));
        }
        c.push(x);
        i = i + 1;
    }
    assert(v@.take(i as int) =~= v@);
    c
}

/// A copy of the nodes.
fn clone_object_pat_props(v: &Vec<ObjectPatProp>) -> (c: Vec<ObjectPatProp>)
    ensures
        trees(c@) == trees(v@),
    decreases v,
{
    let mut c: Vec<ObjectPatProp> = Vec::new();
    let mut i: usize = 0;
    while i < v.len()
        invariant
            i <= v@.len(),
            trees(c@) == trees(v@.take(i as int)),
        decreases v@.len() - i,
    {
        let x = v[i].clone();
        proof {
            lemma_trees_push(c@, x);
            lemma_trees_push(v@.take(i as int), v@[i as int]);
            assert(v@.take(i as int).push(v@[i as int]) =~= v@.take(i + 1));
        }
        c.push(x);
        i = i + 1;
    }
    assert(v@.take(i as int) =~= v@);
    c
}

/// A copy of the nodes.
fn clone_params(v: &Vec<Param>) -> (c: Vec<Param>)
    ensures
        trees(c@) == trees(v@),
    decreases v,
{
    let mut c: Vec<Param> = Vec::new();
    let mut i: usize = 0;
    while i < v.len()
        invariant
            i <= v@.len(),
            trees(c@) == trees(v@.take(i as int)),
        decreases v@.len() - i,
    {
        let x = v[i].clone();
        proof {
            lemma_trees_push(c@, x);
            lemma_trees_push(v@.take(i as int), v@[i as int]);
            assert(v@.take(i as int).push(v@[i as int]) =~= v@.take(i + 1));
        }
        c.push(x);
        i = i + 1;
    }
    assert(v@.take(i as int) =~= v@);
    c
}

/// A copy of the nodes.
fn clone_pats(v: &Vec<Pat>) -> (c: Vec<Pat>)
    ensures
        trees(c@) == trees(v@),
    decreases v,
{
    let mut c: Vec<Pat> = Vec::new();
    let mut i: usize = 0;
    while i < v.len()
        invariant
            i <= v@.len(),
            trees(c@) == trees(v@.take(i as int)),
        decreases v@.len() - i,
    {
        let x = v[i].clone();
        proof {
            lemma_trees_push(c@, x);
            lemma_trees_push(v@.take(i as int), v@[i as int]);
            assert(v@.take(i as int).push(v@[i as int]) =~= v@.take(i + 1));
        }
        c.push(x);
        i = i + 1;
    }
    assert(v@.take(i as int) =~= v@);
    c
}

/// A copy of the nodes.
fn clone_props(v: &Vec<Prop>) -> (c: Vec<Prop>)
    ensures
        trees(c@) == trees(v@),
    decreases v,
{
    let mut c: Vec<Prop> = Vec::new();
    let mut i: usize = 0;
    while i < v.len()
        invariant
            i <= v@.len(),
            trees(c@) == trees(v@.take(i as int)),
        decreases v@.len() - i,
    {
        let x = v[i].clone();
        proof {
            lemma_trees_push(c@, x);
            lemma_trees_push(v@.take(i as int), v@[i as int]);
            assert(v@.take(i as int).push(v@[i as int]) =~= v@.take(i + 1));
        }
        c.push(x);
        i = i + 1;
    }
    assert(v@.take(i as int) =~= v@);
    c
}

/// A copy of the nodes.
fn clone_stmts(v: &Vec<Stmt>) -> (c: Vec<Stmt>)
    ensures
        trees(c@) == trees(v@),
    decreases v,
{
    let mut c: Vec<Stmt> = Vec::new();
    let mut i: usize = 0;
    while i < v.len()
        invariant
            i <= v@.len(),
            trees(c@) == trees(v@.take(i as int)),
        decreases v@.len() - i,
    {
        let x = v[i].clone();
        proof {
            lemma_trees_push(c@, x);
            lemma_trees_push(v@.take(i as int), v@[i as int]);
            assert(v@.take(i as int).push(v@[i as int]) =~= v@.take(i + 1));
        }
        c.push(x);
        i = i + 1;
    }
    assert(v@.take(i as int) =~= v@);
    c
}

/// A copy of the nodes.
fn clone_tpl_elements(v: &Vec<TplElement>) -> (c: Vec<TplElement>)
    ensures
        trees(c@) == trees(v@),
    decreases v,
{
    let mut c: Vec<TplElement> = Vec::new();
    let mut i: usize = 0;
    while i < v.len()
        invariant
            i <= v@.len(),
            trees(c@) == trees(v@.take(i as int)),
        decreases v@.len() - i,
    {
        let x = v[i].clone();
        proof {
            lemma_trees_push(c@, x);
            lemma_trees_push(v@.take(i as int), v@[i as int]);
            assert(v@.take(i as int).push(v@[i as int]) =~= v@.take(i + 1));
        }
        c.push(x);
        i = i + 1;
    }
    assert(v@.take(i as int) =~= v@);
    c
}

/// A copy of the nodes.
fn clone_ts_enum_members(v: &Vec<TsEnumMember>) -> (c: Vec<TsEnumMember>)
    ensures
        trees(c@) == trees(v@),
    decreases v,
{
    let mut c: Vec<TsEnumMember> = Vec::new();
    let mut i: usize = 0;
    while i < v.len()
        invariant
            i <= v@.len(),
            trees(c@) == trees(v@.take(i as int)),
        decreases v@.len() - i,
    {
        let x = v[i].clone();
        proof {
            lemma_trees_push(c@, x);
            lemma_trees_push(v@.take(i as int), v@[i as int]);
            assert(v@.take(i as int).push(v@[i as int]) =~= v@.take(i + 1));
        }
        c.push(x);
        i = i + 1;
    }
    assert(v@.take(i as int) =~= v@);
    c
}

/// A copy of the nodes.
fn clone_var_declarators(v: &Vec<VarDeclarator>) -> (c: Vec<VarDeclarator>)
    ensures
        trees(c@) == trees(v@),
    decreases v,
{
    let mut c: Vec<VarDeclarator> = Vec::new();
    let mut i: usize = 0;
    while i < v.len()
        invariant
            i <= v@.len(),
            trees(c@) == trees(v@.take(i as int)),
        decreases v@.len() - i,
    {
        let x = v[i].clone();
        proof {
            lemma_trees_push(c@, x);
            lemma_trees_push(v@.take(i as int), v@[i as int]);
            assert(v@.take(i as int).push(v@[i as int]) =~= v@.take(i + 1));
        }
        c.push(x);
        i = i + 1;
    }
    assert(v@.take(i as int) =~= v@);
    c
}

/// A copy of the nodes.
fn clone_zts_enum_fields(v: &Vec<ZtsEnumField>) -> (c: Vec<ZtsEnumField>)
    ensures
        trees(c@) == trees(v@),
    decreases v,
{
    let mut c: Vec<ZtsEnumField> = Vec::new();
    let mut i: usize = 0;
    while i < v.len()
        invariant
            i <= v@.len(),
            trees(c@) == trees(v@.take(i as int)),
        decreases v@.len() - i,
    {
        let x = v[i].clone();
        proof {
            lemma_trees_push(c@, x);
            lemma_trees_push(v@.take(i as int), v@[i as int]);
            assert(v@.take(i as int).push(v@[i as int]) =~= v@.take(i + 1));
        }
        c.push(x);
        i = i + 1;
    }
    assert(v@.take(i as int) =~= v@);
    c
}

/// A copy of the nodes.
fn clone_zts_enum_variants(v: &Vec<ZtsEnumVariant>) -> (c: Vec<ZtsEnumVariant>)
    ensures
        trees(c@) == trees(v@),
    decreases v,
{
    let mut c: Vec<ZtsEnumVariant> = Vec::new();
    let mut i: usize = 0;
    while i < v.len()
        invariant
            i <= v@.len(),
            trees(c@) == trees(v@.take(i as int)),
        decreases v@.len() - i,
    {
        let x = v[i].clone();
        proof {
            lemma_trees_push(c@, x);
            lemma_trees_push(v@.take(i as int), v@[i as int]);
            assert(v@.take(i as int).push(v@[i as int]) =~= v@.take(i + 1));
        }
        c.push(x);
        i = i + 1;
    }
    assert(v@.take(i as int) =~= v@);
    c
}

/// A copy of the nodes.
fn clone_zts_impl_methods(v: &Vec<ZtsImplMethod>) -> (c: Vec<ZtsImplMethod>)
    ensures
        trees(c@) == trees(v@),
    decreases v,
{
    let mut c: Vec<ZtsImplMethod> = Vec::new();
    let mut i: usize = 0;
    while i < v.len()
        invariant
            i <= v@.len(),
            trees(c@) == trees(v@.take(i as int)),
        decreases v@.len() - i,
    {
        let x = v[i].clone();
        proof {
            lemma_trees_push(c@, x);
            lemma_trees_push(v@.take(i as int), v@[i as int]);
            assert(v@.take(i as int).push(v@[i as int]) =~= v@.take(i + 1));
        }
        c.push(x);
        i = i + 1;
    }
    assert(v@.take(i as int) =~= v@);
    c
}

/// A copy of the nodes.
fn clone_zts_union_members(v: &Vec<ZtsUnionMember>) -> (c: Vec<ZtsUnionMember>)
    ensures
        trees(c@) == trees(v@),
    decreases v,
{
    let mut c: Vec<ZtsUnionMember> = Vec::new();
    let mut i: usize = 0;
    while i < v.len()
        invariant
            i <= v@.len(),
            trees(c@) == trees(v@.take(i as int)),
        decreases v@.len() - i,
    {
        let x = v[i].clone();
        proof {
            lemma_trees_push(c@, x);
            lemma_trees_push(v@.take(i as int), v@[i as int]);
            assert(v@.take(i as int).push(v@[i as int]) =~= v@.take(i + 1));
        }
        c.push(x);
        i = i + 1;
    }
    assert(v@.take(i as int) =~= v@);
    c
}

impl Clone for Ident {
    fn clone(&self) -> (c: Ident)
        ensures
            c.tree() == self.tree(),
        decreases self,
    {
        let c = Ident {
            span: self.span,
            ctxt: self.ctxt,
            sym: self.sym.clone(),
            optional: self.optional,
        };
        c
    }
}

impl Clone for IdentName {
    fn clone(&self) -> (c: IdentName)
        ensures
            c.tree() == self.tree(),
        decreases self,
    {
        let c = IdentName {
            span: self.span,
            sym: self.sym.clone(),
        };
        c
    }
}

impl Clone for BindingIdent {
    fn clone(&self) -> (c: BindingIdent)
        ensures
            c.tree() == self.tree(),
        decreases self,
    {
        let c = BindingIdent {
            id: self.id.clone(),
            type_ann: match &self.type_ann {
                Some(x) => Some(Box::new((**x).clone())),
                None => None,
            },
        };
        proof {
            self.lemma_tree();
            c.lemma_tree();
        }
        c
    }
}

impl Clone for Str {
    fn clone(&self) -> (c: Str)
        ensures
            c.tree() == self.tree(),
        decreases self,
    {
        let c = Str {
            span: self.span,
            raw: self.raw.clone(),
        };
        c
    }
}

impl Clone for Number {
    fn clone(&self) -> (c: Number)
        ensures
            c.tree() == self.tree(),
        decreases self,
    {
        let c = Number {
            span: self.span,
            raw: self.raw.clone(),
        };
        c
    }
}

impl Clone for BigInt {
    fn clone(&self) -> (c: BigInt)
        ensures
            c.span == self.span,
            atom_text(c.raw) == atom_text(self.raw),
        decreases self,
    {
        let c = BigInt {
            span: self.span,
            raw: self.raw.clone(),
        };
        c
    }
}

impl Clone for Bool {
    fn clone(&self) -> (c: Bool)
        ensures
            c.span == self.span,
            c.value == self.value,
        decreases self,
    {
        let c = Bool {
            span: self.span,
            value: self.value,
        };
        c
    }
}

impl Clone for Null {
    fn clone(&self) -> (c: Null)
        ensures
            c.span == self.span,
        decreases self,
    {
        let c = Null {
            span: self.span,
        };
        c
    }
}

impl Clone for Lit {
    fn clone(&self) -> (c: Lit)
        ensures
            c.tree() == self.tree(),
        decreases self,
    {
        let c = match self {
            Lit::Str(x) => Lit::Str(x.clone()),
            Lit::Bool(x) => Lit::Bool(x.clone()),
            Lit::Null(x) => Lit::Null(x.clone()),
            Lit::Num(x) => Lit::Num(x.clone()),
            Lit::BigInt(x) => Lit::BigInt(x.clone()),
        };
        c
    }
}

impl Clone for Pat {
    fn clone(&self) -> (c: Pat)
        ensures
            c.tree() == self.tree(),
        decreases self,
    {
        let c = match self {
            Pat::Ident(x) => Pat::Ident(x.clone()),
            Pat::Object(x) => Pat::Object(x.clone()),
            Pat::Assign(x) => Pat::Assign(x.clone()),
            Pat::Invalid(x) => Pat::Invalid(x.clone()),
        };
        proof {
            self.lemma_tree();
            c.lemma_tree();
        }
        c
    }
}

impl Clone for ObjectPat {
    fn clone(&self) -> (c: ObjectPat)
        ensures
            c.tree() == self.tree(),
        decreases self,
    {
        let c = ObjectPat {
            span: self.span,
            props: clone_object_pat_props(&self.props),
            optional: self.optional,
            type_ann: match &self.type_ann {
                Some(x) => Some(Box::new((**x).clone())),
                None => None,
            },
        };
        proof {
            self.lemma_tree();
            c.lemma_tree();
        }
        c
    }
}

impl Clone for ObjectPatProp {
    fn clone(&self) -> (c: ObjectPatProp)
        ensures
            c.tree() == self.tree(),
        decreases self,
    {
        let c = match self {
            ObjectPatProp::KeyValue(x) => ObjectPatProp::KeyValue(x.clone()),
            ObjectPatProp::Assign(x) => ObjectPatProp::Assign(x.clone()),
            ObjectPatProp::Rest(x) => ObjectPatProp::Rest(x.clone()),
        };
        proof {
            self.lemma_tree();
            c.lemma_tree();
        }
        c
    }
}

impl Clone for KeyValuePatProp {
    fn clone(&self) -> (c: KeyValuePatProp)
        ensures
            c.key.tree() == self.key.tree(),
            (*c.value).tree() == (*self.value).tree(),
        decreases self,
    {
        let c = KeyValuePatProp {
            key: self.key.clone(),
            value: Box::new((*self.value).clone()),
        };
        c
    }
}

impl Clone for AssignPatProp {
    fn clone(&self) -> (c: AssignPatProp)
        ensures
            c.span == self.span,
            c.key.tree() == self.key.tree(),
            c.value.as_tree() == self.value.as_tree(),
        decreases self,
    {
        let c = AssignPatProp {
            span: self.span,
            key: self.key.clone(),
            value: match &self.value {
                Some(x) => Some(Box::new((**x).clone())),
                None => None,
            },
        };
        c
    }
}

impl Clone for RestPat {
    fn clone(&self) -> (c: RestPat)
        ensures
            c.span == self.span,
            c.dot3_token == self.dot3_token,
            (*c.arg).tree() == (*self.arg).tree(),
        decreases self,
    {
        let c = RestPat {
            span: self.span,
            dot3_token: self.dot3_token,
            arg: Box::new((*self.arg).clone()),
        };
        c
    }
}

impl Clone for AssignPat {
    fn clone(&self) -> (c: AssignPat)
        ensures
            c.tree() == self.tree(),
        decreases self,
    {
        let c = AssignPat {
            span: self.span,
            left: Box::new((*self.left).clone()),
            right: Box::new((*self.right).clone()),
        };
        proof {
            self.lemma_tree();
            c.lemma_tree();
        }
        c
    }
}

impl Clone for Invalid {
    fn clone(&self) -> (c: Invalid)
        ensures
            c.span == self.span,
        decreases self,
    {
        let c = Invalid {
            span: self.span,
        };
        c
    }
}

impl Clone for Expr {
    fn clone(&self) -> (c: Expr)
        ensures
            c.tree() == self.tree(),
        decreases self,
    {
        let c = match self {
            Expr::Array(x) => Expr::Array(x.clone()),
            Expr::Object(x) => Expr::Object(x.clone()),
            Expr::Unary(x) => Expr::Unary(x.clone()),
            Expr::Bin(x) => Expr::Bin(x.clone()),
            Expr::Assign(x) => Expr::Assign(x.clone()),
            Expr::Member(x) => Expr::Member(x.clone()),
            Expr::Cond(x) => Expr::Cond(x.clone()),
            Expr::Call(x) => Expr::Call(x.clone()),
            Expr::SeqExpr(x) => Expr::SeqExpr(x.clone()),
            Expr::Ident(x) => Expr::Ident(x.clone()),
            Expr::Lit(x) => Expr::Lit(x.clone()),
            Expr::Arrow(x) => Expr::Arrow(x.clone()),
            Expr::Paren(x) => Expr::Paren(x.clone()),
            Expr::Tpl(x) => Expr::Tpl(x.clone()),
            Expr::TaggedTpl(x) => Expr::TaggedTpl(x.clone()),
            Expr::TsNonNull(x) => Expr::TsNonNull(x.clone()),
            Expr::TsAs(x) => Expr::TsAs(x.clone()),
            Expr::TsSatisfies(x) => Expr::TsSatisfies(x.clone()),
            Expr::Match(x) => Expr::Match(x.clone()),
            Expr::ZtsIf(x) => Expr::ZtsIf(x.clone()),
            Expr::ZtsExprBlock(x) => Expr::ZtsExprBlock(x.clone()),
        };
        proof {
            self.lemma_tree();
            c.lemma_tree();
        }
        c
    }
}

impl Clone for ArrayLit {
    fn clone(&self) -> (c: ArrayLit)
        ensures
            c.tree() == self.tree(),
        decreases self,
    {
        let c = ArrayLit {
            span: self.span,
            elems: clone_exprs(&self.elems),
        };
        proof {
            self.lemma_tree();
            c.lemma_tree();
        }
        c
    }
}

impl Clone for ObjectLit {
    fn clone(&self) -> (c: ObjectLit)
        ensures
            c.tree() == self.tree(),
        decreases self,
    {
        let c = ObjectLit {
            span: self.span,
            props: clone_props(&self.props),
        };
        proof {
            self.lemma_tree();
            c.lemma_tree();
        }
        c
    }
}

impl Clone for Prop {
    fn clone(&self) -> (c: Prop)
        ensures
            c.tree() == self.tree(),
        decreases self,
    {
        let c = match self {
            Prop::Shorthand(x) => Prop::Shorthand(x.clone()),
            Prop::KeyValue(x) => Prop::KeyValue(x.clone()),
        };
        proof {
            self.lemma_tree();
            c.lemma_tree();
        }
        c
    }
}

impl Clone for KeyValueProp {
    fn clone(&self) -> (c: KeyValueProp)
        ensures
            c.key.tree() == self.key.tree(),
            (*c.value).tree() == (*self.value).tree(),
        decreases self,
    {
        let c = KeyValueProp {
            key: self.key.clone(),
            value: Box::new((*self.value).clone()),
        };
        c
    }
}

impl Clone for PropName {
    fn clone(&self) -> (c: PropName)
        ensures
            c.tree() == self.tree(),
        decreases self,
    {
        let c = match self {
            PropName::Ident(x) => PropName::Ident(x.clone()),
            PropName::Str(x) => PropName::Str(x.clone()),
            PropName::Num(x) => PropName::Num(x.clone()),
        };
        c
    }
}

impl Clone for UnaryExpr {
    fn clone(&self) -> (c: UnaryExpr)
        ensures
            c.tree() == self.tree(),
        decreases self,
    {
        let c = UnaryExpr {
            span: self.span,
            op: self.op,
            arg: Box::new((*self.arg).clone()),
        };
        proof {
            self.lemma_tree();
            c.lemma_tree();
        }
        c
    }
}

impl Clone for BinExpr {
    fn clone(&self) -> (c: BinExpr)
        ensures
            c.tree() == self.tree(),
        decreases self,
    {
        let c = BinExpr {
            span: self.span,
            op: self.op,
            left: Box::new((*self.left).clone()),
            right: Box::new((*self.right).clone()),
        };
        proof {
            self.lemma_tree();
            c.lemma_tree();
        }
        c
    }
}

impl Clone for AssignExpr {
    fn clone(&self) -> (c: AssignExpr)
        ensures
            c.tree() == self.tree(),
        decreases self,
    {
        let c = AssignExpr {
            span: self.span,
            op: self.op,
            left: Box::new((*self.left).clone()),
            right: Box::new((*self.right).clone()),
        };
        proof {
            self.lemma_tree();
            c.lemma_tree();
        }
        c
    }
}

impl Clone for MemberExpr {
    fn clone(&self) -> (c: MemberExpr)
        ensures
            c.tree() == self.tree(),
        decreases self,
    {
        let c = MemberExpr {
            span: self.span,
            obj: Box::new((*self.obj).clone()),
            prop: self.prop.clone(),
        };
        proof {
            self.lemma_tree();
            c.lemma_tree();
        }
        c
    }
}

impl Clone for MemberProp {
    fn clone(&self) -> (c: MemberProp)
        ensures
            c.tree() == self.tree(),
        decreases self,
    {
        let c = match self {
            MemberProp::Ident(x) => MemberProp::Ident(x.clone()),
            MemberProp::Computed(x) => MemberProp::Computed(x.clone()),
        };
        proof {
            self.lemma_tree();
            c.lemma_tree();
        }
        c
    }
}

impl Clone for ComputedPropName {
    fn clone(&self) -> (c: ComputedPropName)
        ensures
            c.span == self.span,
            (*c.expr).tree() == (*self.expr).tree(),
        decreases self,
    {
        let c = ComputedPropName {
            span: self.span,
            expr: Box::new((*self.expr).clone()),
        };
        c
    }
}

impl Clone for CondExpr {
    fn clone(&self) -> (c: CondExpr)
        ensures
            c.tree() == self.tree(),
        decreases self,
    {
        let c = CondExpr {
            span: self.span,
            test: Box::new((*self.test).clone()),
            cons: Box::new((*self.cons).clone()),
            alt: Box::new((*self.alt).clone()),
        };
        proof {
            self.lemma_tree();
            c.lemma_tree();
        }
        c
    }
}

impl Clone for CallExpr {
    fn clone(&self) -> (c: CallExpr)
        ensures
            c.tree() == self.tree(),
        decreases self,
    {
        let c = CallExpr {
            span: self.span,
            ctxt: self.ctxt,
            callee: Box::new((*self.callee).clone()),
            args: clone_exprs(&self.args),
        };
        proof {
            self.lemma_tree();
            c.lemma_tree();
        }
        c
    }
}

impl Clone for SeqExpr {
    fn clone(&self) -> (c: SeqExpr)
        ensures
            c.tree() == self.tree(),
        decreases self,
    {
        let c = SeqExpr {
            span: self.span,
            exprs: clone_exprs(&self.exprs),
        };
        proof {
            self.lemma_tree();
            c.lemma_tree();
        }
        c
    }
}

impl Clone for ArrowExpr {
    fn clone(&self) -> (c: ArrowExpr)
        ensures
            c.tree() == self.tree(),
        decreases self,
    {
        let c = ArrowExpr {
            span: self.span,
            ctxt: self.ctxt,
            params: clone_pats(&self.params),
            body: Box::new((*self.body).clone()),
        };
        proof {
            self.lemma_tree();
            c.lemma_tree();
        }
        c
    }
}

impl Clone for BlockStmtOrExpr {
    fn clone(&self) -> (c: BlockStmtOrExpr)
        ensures
            c.tree() == self.tree(),
        decreases self,
    {
        let c = match self {
            BlockStmtOrExpr::BlockStmt(x) => BlockStmtOrExpr::BlockStmt(x.clone()),
            BlockStmtOrExpr::Expr(x) => BlockStmtOrExpr::Expr(Box::new((**x).clone())),
        };
        proof {
            self.lemma_tree();
            c.lemma_tree();
        }
        c
    }
}

impl Clone for ParenExpr {
    fn clone(&self) -> (c: ParenExpr)
        ensures
            c.tree() == self.tree(),
        decreases self,
    {
        let c = ParenExpr {
            span: self.span,
            expr: Box::new((*self.expr).clone()),
        };
        proof {
            self.lemma_tree();
            c.lemma_tree();
        }
        c
    }
}

impl Clone for Tpl {
    fn clone(&self) -> (c: Tpl)
        ensures
            c.tree() == self.tree(),
        decreases self,
    {
        let c = Tpl {
            span: self.span,
            exprs: clone_exprs(&self.exprs),
            quasis: clone_tpl_elements(&self.quasis),
        };
        proof {
            self.lemma_tree();
            c.lemma_tree();
        }
        c
    }
}

impl Clone for TplElement {
    fn clone(&self) -> (c: TplElement)
        ensures
            c.tree() == self.tree(),
        decreases self,
    {
        let c = TplElement {
            span: self.span,
            tail: self.tail,
            raw: self.raw.clone(),
        };
        c
    }
}

impl Clone for TaggedTpl {
    fn clone(&self) -> (c: TaggedTpl)
        ensures
            c.tree() == self.tree(),
        decreases self,
    {
        let c = TaggedTpl {
            span: self.span,
            ctxt: self.ctxt,
            tag: Box::new((*self.tag).clone()),
            tpl: Box::new((*self.tpl).clone()),
        };
        proof {
            self.lemma_tree();
            c.lemma_tree();
        }
        c
    }
}

impl Clone for TsNonNullExpr {
    fn clone(&self) -> (c: TsNonNullExpr)
        ensures
            c.tree() == self.tree(),
        decreases self,
    {
        let c = TsNonNullExpr {
            span: self.span,
            expr: Box::new((*self.expr).clone()),
        };
        proof {
            self.lemma_tree();
            c.lemma_tree();
        }
        c
    }
}

impl Clone for TsAsExpr {
    fn clone(&self) -> (c: TsAsExpr)
        ensures
            c.tree() == self.tree(),
        decreases self,
    {
        let c = TsAsExpr {
            span: self.span,
            expr: Box::new((*self.expr).clone()),
            type_ann: Box::new((*self.type_ann).clone()),
        };
        proof {
            self.lemma_tree();
            c.lemma_tree();
        }
        c
    }
}

impl Clone for TsSatisfiesExpr {
    fn clone(&self) -> (c: TsSatisfiesExpr)
        ensures
            c.tree() == self.tree(),
        decreases self,
    {
        let c = TsSatisfiesExpr {
            span: self.span,
            expr: Box::new((*self.expr).clone()),
            type_ann: Box::new((*self.type_ann).clone()),
        };
        proof {
            self.lemma_tree();
            c.lemma_tree();
        }
        c
    }
}

impl Clone for MatchExpr {
    fn clone(&self) -> (c: MatchExpr)
        ensures
            c.tree() == self.tree(),
        decreases self,
    {
        let c = MatchExpr {
            span: self.span,
            discriminant: Box::new((*self.discriminant).clone()),
            arms: clone_match_arms(&self.arms),
        };
        proof {
            self.lemma_tree();
            c.lemma_tree();
        }
        c
    }
}

impl Clone for MatchArm {
    fn clone(&self) -> (c: MatchArm)
        ensures
            c.tree() == self.tree(),
        decreases self,
    {
        let c = MatchArm {
            span: self.span,
            pattern: self.pattern.clone(),
            body: Box::new((*self.body).clone()),
        };
        proof {
            self.lemma_tree();
            c.lemma_tree();
        }
        c
    }
}

impl Clone for MatchPat {
    fn clone(&self) -> (c: MatchPat)
        ensures
            c.tree() == self.tree(),
        decreases self,
    {
        let c = match self {
            MatchPat::Variant(x) => MatchPat::Variant(x.clone()),
            MatchPat::Wildcard(x) => MatchPat::Wildcard(x.clone()),
            MatchPat::Lit(x) => MatchPat::Lit(x.clone()),
        };
        proof {
            self.lemma_tree();
            c.lemma_tree();
        }
        c
    }
}

impl Clone for MatchVariantPat {
    fn clone(&self) -> (c: MatchVariantPat)
        ensures
            c.span == self.span,
            c.name.tree() == self.name.tree(),
            c.binding.as_tree() == self.binding.as_tree(),
        decreases self,
    {
        let c = MatchVariantPat {
            span: self.span,
            name: self.name.clone(),
            binding: match &self.binding {
                Some(x) => Some(x.clone()),
                None => None,
            },
        };
        c
    }
}

impl Clone for MatchWildcardPat {
    fn clone(&self) -> (c: MatchWildcardPat)
        ensures
            c.span == self.span,
        decreases self,
    {
        let c = MatchWildcardPat {
            span: self.span,
        };
        c
    }
}

impl Clone for MatchLitPat {
    fn clone(&self) -> (c: MatchLitPat)
        ensures
            c.span == self.span,
            c.lit.tree() == self.lit.tree(),
            c.neg == self.neg,
        decreases self,
    {
        let c = MatchLitPat {
            span: self.span,
            lit: self.lit.clone(),
            neg: self.neg,
        };
        c
    }
}

impl Clone for ZtsIfExpr {
    fn clone(&self) -> (c: ZtsIfExpr)
        ensures
            c.tree() == self.tree(),
        decreases self,
    {
        let c = ZtsIfExpr {
            span: self.span,
            test: Box::new((*self.test).clone()),
            cons: self.cons.clone(),
            alt: self.alt.clone(),
        };
        proof {
            self.lemma_tree();
            c.lemma_tree();
        }
        c
    }
}

impl Clone for ZtsIfAlt {
    fn clone(&self) -> (c: ZtsIfAlt)
        ensures
            c.tree() == self.tree(),
        decreases self,
    {
        let c = match self {
            ZtsIfAlt::Block(x) => ZtsIfAlt::Block(x.clone()),
            ZtsIfAlt::If(x) => ZtsIfAlt::If(Box::new((**x).clone())),
        };
        proof {
            self.lemma_tree();
            c.lemma_tree();
        }
        c
    }
}

impl Clone for ZtsExprBlock {
    fn clone(&self) -> (c: ZtsExprBlock)
        ensures
            c.tree() == self.tree(),
        decreases self,
    {
        let c = ZtsExprBlock {
            span: self.span,
            stmts: clone_stmts(&self.stmts),
            tail: Box::new((*self.tail).clone()),
        };
        proof {
            self.lemma_tree();
            c.lemma_tree();
        }
        c
    }
}

impl Clone for Function {
    fn clone(&self) -> (c: Function)
        ensures
            c.tree() == self.tree(),
        decreases self,
    {
        let c = Function {
            params: clone_params(&self.params),
            span: self.span,
            ctxt: self.ctxt,
            body: match &self.body {
                Some(x) => Some(x.clone()),
                None => None,
            },
            is_generator: self.is_generator,
            is_async: self.is_async,
            return_type: match &self.return_type {
                Some(x) => Some(Box::new((**x).clone())),
                None => None,
            },
        };
        proof {
            self.lemma_tree();
            c.lemma_tree();
        }
        c
    }
}

impl Clone for Param {
    fn clone(&self) -> (c: Param)
        ensures
            c.tree() == self.tree(),
        decreases self,
    {
        let c = Param {
            span: self.span,
            pat: self.pat.clone(),
        };
        proof {
            self.lemma_tree();
            c.lemma_tree();
        }
        c
    }
}

impl Clone for Class {
    fn clone(&self) -> (c: Class)
        ensures
            c.tree() == self.tree(),
        decreases self,
    {
        let c = Class {
            span: self.span,
            ctxt: self.ctxt,
            body: clone_class_members(&self.body),
            super_class: match &self.super_class {
                Some(x) => Some(Box::new((**x).clone())),
                None => None,
            },
            is_abstract: self.is_abstract,
        };
        proof {
            self.lemma_tree();
            c.lemma_tree();
        }
        c
    }
}

impl Clone for ClassMember {
    fn clone(&self) -> (c: ClassMember)
        ensures
            c.tree() == self.tree(),
        decreases self,
    {
        let c = match self {
            ClassMember::Method(x) => ClassMember::Method(x.clone()),
            ClassMember::Empty(x) => ClassMember::Empty(x.clone()),
        };
        proof {
            self.lemma_tree();
            c.lemma_tree();
        }
        c
    }
}

impl Clone for ClassMethod {
    fn clone(&self) -> (c: ClassMethod)
        ensures
            c.span == self.span,
            c.key.tree() == self.key.tree(),
            (*c.function).tree() == (*self.function).tree(),
            c.is_static == self.is_static,
        decreases self,
    {
        let c = ClassMethod {
            span: self.span,
            key: self.key.clone(),
            function: Box::new((*self.function).clone()),
            is_static: self.is_static,
        };
        c
    }
}

impl Clone for TsTypeAnn {
    fn clone(&self) -> (c: TsTypeAnn)
        ensures
            c.tree() == self.tree(),
        decreases self,
    {
        let c = TsTypeAnn {
            span: self.span,
            type_ann: Box::new((*self.type_ann).clone()),
        };
        proof {
            self.lemma_tree();
            c.lemma_tree();
        }
        c
    }
}

impl Clone for TsType {
    fn clone(&self) -> (c: TsType)
        ensures
            c.tree() == self.tree(),
        decreases self,
    {
        let c = match self {
            TsType::TsKeywordType(x) => TsType::TsKeywordType(x.clone()),
            TsType::TsTypeRef(x) => TsType::TsTypeRef(x.clone()),
            TsType::TsArrayType(x) => TsType::TsArrayType(x.clone()),
            TsType::TsUnionType(x) => TsType::TsUnionType(x.clone()),
            TsType::TsParenthesizedType(x) => TsType::TsParenthesizedType(x.clone()),
            TsType::TsLitType(x) => TsType::TsLitType(x.clone()),
        };
        proof {
            self.lemma_tree();
            c.lemma_tree();
        }
        c
    }
}

impl Clone for TsKeywordType {
    fn clone(&self) -> (c: TsKeywordType)
        ensures
            c.span == self.span,
            c.kind == self.kind,
        decreases self,
    {
        let c = TsKeywordType {
            span: self.span,
            kind: self.kind,
        };
        c
    }
}

impl Clone for TsTypeRef {
    fn clone(&self) -> (c: TsTypeRef)
        ensures
            c.span == self.span,
            c.name.tree() == self.name.tree(),
        decreases self,
    {
        let c = TsTypeRef {
            span: self.span,
            name: self.name.clone(),
        };
        c
    }
}

impl Clone for TsArrayType {
    fn clone(&self) -> (c: TsArrayType)
        ensures
            c.span == self.span,
            (*c.elem_type).tree() == (*self.elem_type).tree(),
        decreases self,
    {
        let c = TsArrayType {
            span: self.span,
            elem_type: Box::new((*self.elem_type).clone()),
        };
        c
    }
}

impl Clone for TsUnionType {
    fn clone(&self) -> (c: TsUnionType)
        ensures
            c.span == self.span,
            trees(c.types@) == trees(self.types@),
        decreases self,
    {
        let c = TsUnionType {
            span: self.span,
            types: clone_ts_types(&self.types),
        };
        c
    }
}

impl Clone for TsParenthesizedType {
    fn clone(&self) -> (c: TsParenthesizedType)
        ensures
            c.span == self.span,
            (*c.type_ann).tree() == (*self.type_ann).tree(),
        decreases self,
    {
        let c = TsParenthesizedType {
            span: self.span,
            type_ann: Box::new((*self.type_ann).clone()),
        };
        c
    }
}

impl Clone for TsLitType {
    fn clone(&self) -> (c: TsLitType)
        ensures
            c.span == self.span,
            c.lit.tree() == self.lit.tree(),
        decreases self,
    {
        let c = TsLitType {
            span: self.span,
            lit: self.lit.clone(),
        };
        c
    }
}

impl Clone for TsEnumDecl {
    fn clone(&self) -> (c: TsEnumDecl)
        ensures
            c.tree() == self.tree(),
        decreases self,
    {
        let c = TsEnumDecl {
            span: self.span,
            declare: self.declare,
            is_const: self.is_const,
            id: self.id.clone(),
            members: clone_ts_enum_members(&self.members),
        };
        proof {
            self.lemma_tree();
            c.lemma_tree();
        }
        c
    }
}

impl Clone for TsEnumMember {
    fn clone(&self) -> (c: TsEnumMember)
        ensures
            c.tree() == self.tree(),
        decreases self,
    {
        let c = TsEnumMember {
            span: self.span,
            id: self.id.clone(),
            init: match &self.init {
                Some(x) => Some(Box::new((**x).clone())),
                None => None,
            },
        };
        proof {
            self.lemma_tree();
            c.lemma_tree();
        }
        c
    }
}

impl Clone for TsInterfaceDecl {
    fn clone(&self) -> (c: TsInterfaceDecl)
        ensures
            c.span == self.span,
            c.id.tree() == self.id.tree(),
            c.declare == self.declare,
        decreases self,
    {
        let c = TsInterfaceDecl {
            span: self.span,
            id: self.id.clone(),
            declare: self.declare,
        };
        c
    }
}

impl Clone for TsTypeAliasDecl {
    fn clone(&self) -> (c: TsTypeAliasDecl)
        ensures
            c.span == self.span,
            c.declare == self.declare,
            c.id.tree() == self.id.tree(),
            (*c.type_ann).tree() == (*self.type_ann).tree(),
        decreases self,
    {
        let c = TsTypeAliasDecl {
            span: self.span,
            declare: self.declare,
            id: self.id.clone(),
            type_ann: Box::new((*self.type_ann).clone()),
        };
        c
    }
}

impl Clone for TsModuleDecl {
    fn clone(&self) -> (c: TsModuleDecl)
        ensures
            c.span == self.span,
            c.declare == self.declare,
            c.id.tree() == self.id.tree(),
            trees(c.body@) == trees(self.body@),
        decreases self,
    {
        let c = TsModuleDecl {
            span: self.span,
            declare: self.declare,
            id: self.id.clone(),
            body: clone_stmts(&self.body),
        };
        c
    }
}

impl Clone for Stmt {
    fn clone(&self) -> (c: Stmt)
        ensures
            c.tree() == self.tree(),
        decreases self,
    {
        let c = match self {
            Stmt::Block(x) => Stmt::Block(x.clone()),
            Stmt::Empty(x) => Stmt::Empty(x.clone()),
            Stmt::Labeled(x) => Stmt::Labeled(x.clone()),
            Stmt::If(x) => Stmt::If(x.clone()),
            Stmt::While(x) => Stmt::While(x.clone()),
            Stmt::For(x) => Stmt::For(x.clone()),
            Stmt::Decl(x) => Stmt::Decl(x.clone()),
            Stmt::Expr(x) => Stmt::Expr(x.clone()),
        };
        proof {
            self.lemma_tree();
            c.lemma_tree();
        }
        c
    }
}

impl Clone for BlockStmt {
    fn clone(&self) -> (c: BlockStmt)
        ensures
            c.tree() == self.tree(),
        decreases self,
    {
        let c = BlockStmt {
            span: self.span,
            ctxt: self.ctxt,
            stmts: clone_stmts(&self.stmts),
        };
        proof {
            self.lemma_tree();
            c.lemma_tree();
        }
        c
    }
}

impl Clone for EmptyStmt {
    fn clone(&self) -> (c: EmptyStmt)
        ensures
            c.tree() == self.tree(),
        decreases self,
    {
        let c = EmptyStmt {
            span: self.span,
        };
        c
    }
}

impl Clone for LabeledStmt {
    fn clone(&self) -> (c: LabeledStmt)
        ensures
            c.tree() == self.tree(),
        decreases self,
    {
        let c = LabeledStmt {
            span: self.span,
            label: self.label.clone(),
            body: Box::new((*self.body).clone()),
        };
        proof {
            self.lemma_tree();
            c.lemma_tree();
        }
        c
    }
}

impl Clone for IfStmt {
    fn clone(&self) -> (c: IfStmt)
        ensures
            c.tree() == self.tree(),
        decreases self,
    {
        let c = IfStmt {
            span: self.span,
            test: Box::new((*self.test).clone()),
            cons: Box::new((*self.cons).clone()),
            alt: match &self.alt {
                Some(x) => Some(Box::new((**x).clone())),
                None => None,
            },
        };
        proof {
            self.lemma_tree();
            c.lemma_tree();
        }
        c
    }
}

impl Clone for WhileStmt {
    fn clone(&self) -> (c: WhileStmt)
        ensures
            c.tree() == self.tree(),
        decreases self,
    {
        let c = WhileStmt {
            span: self.span,
            test: Box::new((*self.test).clone()),
            body: Box::new((*self.body).clone()),
        };
        proof {
            self.lemma_tree();
            c.lemma_tree();
        }
        c
    }
}

impl Clone for ForStmt {
    fn clone(&self) -> (c: ForStmt)
        ensures
            c.tree() == self.tree(),
        decreases self,
    {
        let c = ForStmt {
            span: self.span,
            init: match &self.init {
                Some(x) => Some(x.clone()),
                None => None,
            },
            test: match &self.test {
                Some(x) => Some(Box::new((**x).clone())),
                None => None,
            },
            update: match &self.update {
                Some(x) => Some(Box::new((**x).clone())),
                None => None,
            },
            body: Box::new((*self.body).clone()),
        };
        proof {
            self.lemma_tree();
            c.lemma_tree();
        }
        c
    }
}

impl Clone for VarDeclOrExpr {
    fn clone(&self) -> (c: VarDeclOrExpr)
        ensures
            c.tree() == self.tree(),
        decreases self,
    {
        let c = match self {
            VarDeclOrExpr::VarDecl(x) => VarDeclOrExpr::VarDecl(Box::new((**x).clone())),
            VarDeclOrExpr::Expr(x) => VarDeclOrExpr::Expr(Box::new((**x).clone())),
        };
        proof {
            self.lemma_tree();
            c.lemma_tree();
        }
        c
    }
}

impl Clone for ExprStmt {
    fn clone(&self) -> (c: ExprStmt)
        ensures
            c.tree() == self.tree(),
        decreases self,
    {
        let c = ExprStmt {
            span: self.span,
            expr: Box::new((*self.expr).clone()),
        };
        proof {
            self.lemma_tree();
            c.lemma_tree();
        }
        c
    }
}

impl Clone for Module {
    fn clone(&self) -> (c: Module)
        ensures
            c.tree() == self.tree(),
        decreases self,
    {
        let c = Module {
            span: self.span,
            body: clone_module_items(&self.body),
        };
        assert(module_item_trees(c.body@) =~= trees(c.body@));
        assert(module_item_trees(self.body@) =~= trees(self.body@));
        c
    }
}

impl Clone for ModuleItem {
    fn clone(&self) -> (c: ModuleItem)
        ensures
            c.tree() == self.tree(),
        decreases self,
    {
        let c = match self {
            ModuleItem::ModuleDecl(x) => ModuleItem::ModuleDecl(x.clone()),
            ModuleItem::Stmt(x) => ModuleItem::Stmt(x.clone()),
        };
        c
    }
}

impl Clone for ModuleDecl {
    fn clone(&self) -> (c: ModuleDecl)
        ensures
            c.tree() == self.tree(),
        decreases self,
    {
        let c = match self {
            ModuleDecl::ExportDecl(x) => ModuleDecl::ExportDecl(x.clone()),
            ModuleDecl::ExportDefaultExpr(x) => ModuleDecl::ExportDefaultExpr(x.clone()),
        };
        c
    }
}

impl Clone for ExportDecl {
    fn clone(&self) -> (c: ExportDecl)
        ensures
            c.span == self.span,
            c.decl.tree() == self.decl.tree(),
        decreases self,
    {
        let c = ExportDecl {
            span: self.span,
            decl: self.decl.clone(),
        };
        c
    }
}

impl Clone for ExportDefaultExpr {
    fn clone(&self) -> (c: ExportDefaultExpr)
        ensures
            c.span == self.span,
            (*c.expr).tree() == (*self.expr).tree(),
        decreases self,
    {
        let c = ExportDefaultExpr {
            span: self.span,
            expr: Box::new((*self.expr).clone()),
        };
        c
    }
}

impl Clone for Decl {
    fn clone(&self) -> (c: Decl)
        ensures
            c.tree() == self.tree(),
        decreases self,
    {
        let c = match self {
            Decl::Class(x) => Decl::Class(x.clone()),
            Decl::Fn(x) => Decl::Fn(x.clone()),
            Decl::Var(x) => Decl::Var(Box::new((**x).clone())),
            Decl::Using(x) => Decl::Using(Box::new((**x).clone())),
            Decl::TsInterface(x) => Decl::TsInterface(Box::new((**x).clone())),
            Decl::TsTypeAlias(x) => Decl::TsTypeAlias(Box::new((**x).clone())),
            Decl::TsEnum(x) => Decl::TsEnum(Box::new((**x).clone())),
            Decl::TsModule(x) => Decl::TsModule(Box::new((**x).clone())),
            Decl::ZtsEnum(x) => Decl::ZtsEnum(Box::new((**x).clone())),
            Decl::ZtsNewtype(x) => Decl::ZtsNewtype(Box::new((**x).clone())),
            Decl::ZtsUnion(x) => Decl::ZtsUnion(Box::new((**x).clone())),
            Decl::ZtsImpl(x) => Decl::ZtsImpl(Box::new((**x).clone())),
        };
        proof {
            self.lemma_tree();
            c.lemma_tree();
        }
        c
    }
}

impl Clone for FnDecl {
    fn clone(&self) -> (c: FnDecl)
        ensures
            c.tree() == self.tree(),
        decreases self,
    {
        let c = FnDecl {
            ident: self.ident.clone(),
            declare: self.declare,
            function: Box::new((*self.function).clone()),
        };
        proof {
            self.lemma_tree();
            c.lemma_tree();
            (*self.function).lemma_tree();
            (*c.function).lemma_tree();
        }
        c
    }
}

impl Clone for ClassDecl {
    fn clone(&self) -> (c: ClassDecl)
        ensures
            c.tree() == self.tree(),
        decreases self,
    {
        let c = ClassDecl {
            ident: self.ident.clone(),
            declare: self.declare,
            class: Box::new((*self.class).clone()),
        };
        proof {
            self.lemma_tree();
            c.lemma_tree();
            (*self.class).lemma_tree();
            (*c.class).lemma_tree();
        }
        c
    }
}

impl Clone for VarDecl {
    fn clone(&self) -> (c: VarDecl)
        ensures
            c.tree() == self.tree(),
        decreases self,
    {
        let c = VarDecl {
            span: self.span,
            ctxt: self.ctxt,
            kind: self.kind,
            declare: self.declare,
            decls: clone_var_declarators(&self.decls),
        };
        proof {
            self.lemma_tree();
            c.lemma_tree();
        }
        c
    }
}

impl Clone for VarDeclarator {
    fn clone(&self) -> (c: VarDeclarator)
        ensures
            c.tree() == self.tree(),
        decreases self,
    {
        let c = VarDeclarator {
            span: self.span,
            name: self.name.clone(),
            init: match &self.init {
                Some(x) => Some(Box::new((**x).clone())),
                None => None,
            },
            definite: self.definite,
        };
        proof {
            self.lemma_tree();
            c.lemma_tree();
        }
        c
    }
}

impl Clone for UsingDecl {
    fn clone(&self) -> (c: UsingDecl)
        ensures
            c.tree() == self.tree(),
        decreases self,
    {
        let c = UsingDecl {
            span: self.span,
            is_await: self.is_await,
            decls: clone_var_declarators(&self.decls),
        };
        proof {
            self.lemma_tree();
            c.lemma_tree();
        }
        c
    }
}

impl Clone for ZtsEnumDecl {
    fn clone(&self) -> (c: ZtsEnumDecl)
        ensures
            c.tree() == self.tree(),
        decreases self,
    {
        let c = ZtsEnumDecl {
            span: self.span,
            ident: self.ident.clone(),
            variants: clone_zts_enum_variants(&self.variants),
        };
        proof {
            self.lemma_tree();
            c.lemma_tree();
        }
        c
    }
}

impl Clone for ZtsEnumVariant {
    fn clone(&self) -> (c: ZtsEnumVariant)
        ensures
            c.tree() == self.tree(),
        decreases self,
    {
        let c = ZtsEnumVariant {
            span: self.span,
            name: self.name.clone(),
            fields: clone_zts_enum_fields(&self.fields),
        };
        proof {
            self.lemma_tree();
            c.lemma_tree();
        }
        c
    }
}

impl Clone for ZtsEnumField {
    fn clone(&self) -> (c: ZtsEnumField)
        ensures
            c.tree() == self.tree(),
        decreases self,
    {
        let c = ZtsEnumField {
            span: self.span,
            name: self.name.clone(),
            type_ann: Box::new((*self.type_ann).clone()),
        };
        proof {
            self.lemma_tree();
            c.lemma_tree();
        }
        c
    }
}

impl Clone for ZtsNewtypeDecl {
    fn clone(&self) -> (c: ZtsNewtypeDecl)
        ensures
            c.tree() == self.tree(),
        decreases self,
    {
        let c = ZtsNewtypeDecl {
            span: self.span,
            ident: self.ident.clone(),
            type_ann: Box::new((*self.type_ann).clone()),
        };
        proof {
            self.lemma_tree();
            c.lemma_tree();
        }
        c
    }
}

impl Clone for ZtsImplDecl {
    fn clone(&self) -> (c: ZtsImplDecl)
        ensures
            c.tree() == self.tree(),
        decreases self,
    {
        let c = ZtsImplDecl {
            span: self.span,
            trait_ident: self.trait_ident.clone(),
            for_ident: self.for_ident.clone(),
            methods: clone_zts_impl_methods(&self.methods),
        };
        proof {
            self.lemma_tree();
            c.lemma_tree();
        }
        c
    }
}

impl Clone for ZtsImplMethod {
    fn clone(&self) -> (c: ZtsImplMethod)
        ensures
            c.tree() == self.tree(),
        decreases self,
    {
        let c = ZtsImplMethod {
            span: self.span,
            name: self.name.clone(),
            function: Box::new((*self.function).clone()),
        };
        proof {
            self.lemma_tree();
            c.lemma_tree();
        }
        c
    }
}

impl Clone for ZtsUnionDecl {
    fn clone(&self) -> (c: ZtsUnionDecl)
        ensures
            c.tree() == self.tree(),
        decreases self,
    {
        let c = ZtsUnionDecl {
            span: self.span,
            ident: self.ident.clone(),
            members: clone_zts_union_members(&self.members),
        };
        assert(zts_union_member_trees(c.members@) =~= trees(c.members@));
        assert(zts_union_member_trees(self.members@) =~= trees(self.members@));
        c
    }
}

impl Clone for ZtsUnionMember {
    fn clone(&self) -> (c: ZtsUnionMember)
        ensures
            c.tree() == self.tree(),
        decreases self,
    {
        let c = match self {
            ZtsUnionMember::Str(x) => ZtsUnionMember::Str(x.clone()),
            ZtsUnionMember::Num(x) => ZtsUnionMember::Num(x.clone()),
        };
        c
    }
}

} // verus!
