//! Declarations as statements and as items of a module.
use crate::ast::decl::{
    ClassDecl, Decl, FnDecl, UsingDecl, VarDecl, ZtsEnumDecl, ZtsImplDecl, ZtsNewtypeDecl,
    ZtsUnionDecl,
};
use crate::ast::stmt::{ModuleItem, Stmt};
use crate::ast::typescript::{TsEnumDecl, TsInterfaceDecl, TsModuleDecl, TsTypeAliasDecl};
use vstd::prelude::*;
use vstd::std_specs::convert::FromSpecImpl;

verus! {

impl From<ClassDecl> for Decl {
    fn from(x: ClassDecl) -> (d: Decl) {
        Decl::Class(x)
    }
}

impl FromSpecImpl<ClassDecl> for Decl {
    open spec fn obeys_from_spec() -> bool {
        true
    }

    open spec fn from_spec(x: ClassDecl) -> Decl {
        Decl::Class(x)
    }
}

impl From<FnDecl> for Decl {
    fn from(x: FnDecl) -> (d: Decl) {
        Decl::Fn(x)
    }
}

impl FromSpecImpl<FnDecl> for Decl {
    open spec fn obeys_from_spec() -> bool {
        true
    }

    open spec fn from_spec(x: FnDecl) -> Decl {
        Decl::Fn(x)
    }
}

impl From<VarDecl> for Decl {
    fn from(x: VarDecl) -> (d: Decl) {
        Decl::Var(Box::new(x))
    }
}

impl FromSpecImpl<VarDecl> for Decl {
    open spec fn obeys_from_spec() -> bool {
        true
    }

    open spec fn from_spec(x: VarDecl) -> Decl {
        Decl::Var(Box::new(x))
    }
}

impl From<Box<VarDecl>> for Decl {
    fn from(x: Box<VarDecl>) -> (d: Decl) {
        Decl::Var(x)
    }
}

impl FromSpecImpl<Box<VarDecl>> for Decl {
    open spec fn obeys_from_spec() -> bool {
        true
    }

    open spec fn from_spec(x: Box<VarDecl>) -> Decl {
        Decl::Var(x)
    }
}

impl From<UsingDecl> for Decl {
    fn from(x: UsingDecl) -> (d: Decl) {
        Decl::Using(Box::new(x))
    }
}

impl FromSpecImpl<UsingDecl> for Decl {
    open spec fn obeys_from_spec() -> bool {
        true
    }

    open spec fn from_spec(x: UsingDecl) -> Decl {
        Decl::Using(Box::new(x))
    }
}

impl From<Box<UsingDecl>> for Decl {
    fn from(x: Box<UsingDecl>) -> (d: Decl) {
        Decl::Using(x)
    }
}

impl FromSpecImpl<Box<UsingDecl>> for Decl {
    open spec fn obeys_from_spec() -> bool {
        true
    }

    open spec fn from_spec(x: Box<UsingDecl>) -> Decl {
        Decl::Using(x)
    }
}

impl From<TsInterfaceDecl> for Decl {
    fn from(x: TsInterfaceDecl) -> (d: Decl) {
        Decl::TsInterface(Box::new(x))
    }
}

impl FromSpecImpl<TsInterfaceDecl> for Decl {
    open spec fn obeys_from_spec() -> bool {
        true
    }

    open spec fn from_spec(x: TsInterfaceDecl) -> Decl {
        Decl::TsInterface(Box::new(x))
    }
}

impl From<Box<TsInterfaceDecl>> for Decl {
    fn from(x: Box<TsInterfaceDecl>) -> (d: Decl) {
        Decl::TsInterface(x)
    }
}

impl FromSpecImpl<Box<TsInterfaceDecl>> for Decl {
    open spec fn obeys_from_spec() -> bool {
        true
    }

    open spec fn from_spec(x: Box<TsInterfaceDecl>) -> Decl {
        Decl::TsInterface(x)
    }
}

impl From<TsTypeAliasDecl> for Decl {
    fn from(x: TsTypeAliasDecl) -> (d: Decl) {
        Decl::TsTypeAlias(Box::new(x))
    }
}

impl FromSpecImpl<TsTypeAliasDecl> for Decl {
    open spec fn obeys_from_spec() -> bool {
        true
    }

    open spec fn from_spec(x: TsTypeAliasDecl) -> Decl {
        Decl::TsTypeAlias(Box::new(x))
    }
}

impl From<Box<TsTypeAliasDecl>> for Decl {
    fn from(x: Box<TsTypeAliasDecl>) -> (d: Decl) {
        Decl::TsTypeAlias(x)
    }
}

impl FromSpecImpl<Box<TsTypeAliasDecl>> for Decl {
    open spec fn obeys_from_spec() -> bool {
        true
    }

    open spec fn from_spec(x: Box<TsTypeAliasDecl>) -> Decl {
        Decl::TsTypeAlias(x)
    }
}

impl From<TsEnumDecl> for Decl {
    fn from(x: TsEnumDecl) -> (d: Decl) {
        Decl::TsEnum(Box::new(x))
    }
}

impl FromSpecImpl<TsEnumDecl> for Decl {
    open spec fn obeys_from_spec() -> bool {
        true
    }

    open spec fn from_spec(x: TsEnumDecl) -> Decl {
        Decl::TsEnum(Box::new(x))
    }
}

impl From<Box<TsEnumDecl>> for Decl {
    fn from(x: Box<TsEnumDecl>) -> (d: Decl) {
        Decl::TsEnum(x)
    }
}

impl FromSpecImpl<Box<TsEnumDecl>> for Decl {
    open spec fn obeys_from_spec() -> bool {
        true
    }

    open spec fn from_spec(x: Box<TsEnumDecl>) -> Decl {
        Decl::TsEnum(x)
    }
}

impl From<TsModuleDecl> for Decl {
    fn from(x: TsModuleDecl) -> (d: Decl) {
        Decl::TsModule(Box::new(x))
    }
}

impl FromSpecImpl<TsModuleDecl> for Decl {
    open spec fn obeys_from_spec() -> bool {
        true
    }

    open spec fn from_spec(x: TsModuleDecl) -> Decl {
        Decl::TsModule(Box::new(x))
    }
}

impl From<Box<TsModuleDecl>> for Decl {
    fn from(x: Box<TsModuleDecl>) -> (d: Decl) {
        Decl::TsModule(x)
    }
}

impl FromSpecImpl<Box<TsModuleDecl>> for Decl {
    open spec fn obeys_from_spec() -> bool {
        true
    }

    open spec fn from_spec(x: Box<TsModuleDecl>) -> Decl {
        Decl::TsModule(x)
    }
}

impl From<Box<ZtsEnumDecl>> for Decl {
    fn from(x: Box<ZtsEnumDecl>) -> (d: Decl) {
        Decl::ZtsEnum(x)
    }
}

impl FromSpecImpl<Box<ZtsEnumDecl>> for Decl {
    open spec fn obeys_from_spec() -> bool {
        true
    }

    open spec fn from_spec(x: Box<ZtsEnumDecl>) -> Decl {
        Decl::ZtsEnum(x)
    }
}

impl From<Box<ZtsNewtypeDecl>> for Decl {
    fn from(x: Box<ZtsNewtypeDecl>) -> (d: Decl) {
        Decl::ZtsNewtype(x)
    }
}

impl FromSpecImpl<Box<ZtsNewtypeDecl>> for Decl {
    open spec fn obeys_from_spec() -> bool {
        true
    }

    open spec fn from_spec(x: Box<ZtsNewtypeDecl>) -> Decl {
        Decl::ZtsNewtype(x)
    }
}

impl From<Box<ZtsUnionDecl>> for Decl {
    fn from(x: Box<ZtsUnionDecl>) -> (d: Decl) {
        Decl::ZtsUnion(x)
    }
}

impl FromSpecImpl<Box<ZtsUnionDecl>> for Decl {
    open spec fn obeys_from_spec() -> bool {
        true
    }

    open spec fn from_spec(x: Box<ZtsUnionDecl>) -> Decl {
        Decl::ZtsUnion(x)
    }
}

impl From<Box<ZtsImplDecl>> for Decl {
    fn from(x: Box<ZtsImplDecl>) -> (d: Decl) {
        Decl::ZtsImpl(x)
    }
}

impl FromSpecImpl<Box<ZtsImplDecl>> for Decl {
    open spec fn obeys_from_spec() -> bool {
        true
    }

    open spec fn from_spec(x: Box<ZtsImplDecl>) -> Decl {
        Decl::ZtsImpl(x)
    }
}

impl From<Decl> for Stmt {
    fn from(x: Decl) -> (d: Stmt) {
        Stmt::Decl(x)
    }
}

impl FromSpecImpl<Decl> for Stmt {
    open spec fn obeys_from_spec() -> bool {
        true
    }

    open spec fn from_spec(x: Decl) -> Stmt {
        Stmt::Decl(x)
    }
}

impl From<ClassDecl> for Stmt {
    fn from(x: ClassDecl) -> (d: Stmt) {
        Stmt::Decl(Decl::Class(x))
    }
}

impl FromSpecImpl<ClassDecl> for Stmt {
    open spec fn obeys_from_spec() -> bool {
        true
    }

    open spec fn from_spec(x: ClassDecl) -> Stmt {
        Stmt::Decl(Decl::Class(x))
    }
}

impl From<FnDecl> for Stmt {
    fn from(x: FnDecl) -> (d: Stmt) {
        Stmt::Decl(Decl::Fn(x))
    }
}

impl FromSpecImpl<FnDecl> for Stmt {
    open spec fn obeys_from_spec() -> bool {
        true
    }

    open spec fn from_spec(x: FnDecl) -> Stmt {
        Stmt::Decl(Decl::Fn(x))
    }
}

impl From<VarDecl> for Stmt {
    fn from(x: VarDecl) -> (d: Stmt) {
        Stmt::Decl(Decl::Var(Box::new(x)))
    }
}

impl FromSpecImpl<VarDecl> for Stmt {
    open spec fn obeys_from_spec() -> bool {
        true
    }

    open spec fn from_spec(x: VarDecl) -> Stmt {
        Stmt::Decl(Decl::Var(Box::new(x)))
    }
}

impl From<Box<VarDecl>> for Stmt {
    fn from(x: Box<VarDecl>) -> (d: Stmt) {
        Stmt::Decl(Decl::Var(x))
    }
}

impl FromSpecImpl<Box<VarDecl>> for Stmt {
    open spec fn obeys_from_spec() -> bool {
        true
    }

    open spec fn from_spec(x: Box<VarDecl>) -> Stmt {
        Stmt::Decl(Decl::Var(x))
    }
}

impl From<UsingDecl> for Stmt {
    fn from(x: UsingDecl) -> (d: Stmt) {
        Stmt::Decl(Decl::Using(Box::new(x)))
    }
}

impl FromSpecImpl<UsingDecl> for Stmt {
    open spec fn obeys_from_spec() -> bool {
        true
    }

    open spec fn from_spec(x: UsingDecl) -> Stmt {
        Stmt::Decl(Decl::Using(Box::new(x)))
    }
}

impl From<Box<UsingDecl>> for Stmt {
    fn from(x: Box<UsingDecl>) -> (d: Stmt) {
        Stmt::Decl(Decl::Using(x))
    }
}

impl FromSpecImpl<Box<UsingDecl>> for Stmt {
    open spec fn obeys_from_spec() -> bool {
        true
    }

    open spec fn from_spec(x: Box<UsingDecl>) -> Stmt {
        Stmt::Decl(Decl::Using(x))
    }
}

impl From<TsInterfaceDecl> for Stmt {
    fn from(x: TsInterfaceDecl) -> (d: Stmt) {
        Stmt::Decl(Decl::TsInterface(Box::new(x)))
    }
}

impl FromSpecImpl<TsInterfaceDecl> for Stmt {
    open spec fn obeys_from_spec() -> bool {
        true
    }

    open spec fn from_spec(x: TsInterfaceDecl) -> Stmt {
        Stmt::Decl(Decl::TsInterface(Box::new(x)))
    }
}

impl From<Box<TsInterfaceDecl>> for Stmt {
    fn from(x: Box<TsInterfaceDecl>) -> (d: Stmt) {
        Stmt::Decl(Decl::TsInterface(x))
    }
}

impl FromSpecImpl<Box<TsInterfaceDecl>> for Stmt {
    open spec fn obeys_from_spec() -> bool {
        true
    }

    open spec fn from_spec(x: Box<TsInterfaceDecl>) -> Stmt {
        Stmt::Decl(Decl::TsInterface(x))
    }
}

impl From<TsTypeAliasDecl> for Stmt {
    fn from(x: TsTypeAliasDecl) -> (d: Stmt) {
        Stmt::Decl(Decl::TsTypeAlias(Box::new(x)))
    }
}

impl FromSpecImpl<TsTypeAliasDecl> for Stmt {
    open spec fn obeys_from_spec() -> bool {
        true
    }

    open spec fn from_spec(x: TsTypeAliasDecl) -> Stmt {
        Stmt::Decl(Decl::TsTypeAlias(Box::new(x)))
    }
}

impl From<Box<TsTypeAliasDecl>> for Stmt {
    fn from(x: Box<TsTypeAliasDecl>) -> (d: Stmt) {
        Stmt::Decl(Decl::TsTypeAlias(x))
    }
}

impl FromSpecImpl<Box<TsTypeAliasDecl>> for Stmt {
    open spec fn obeys_from_spec() -> bool {
        true
    }

    open spec fn from_spec(x: Box<TsTypeAliasDecl>) -> Stmt {
        Stmt::Decl(Decl::TsTypeAlias(x))
    }
}

impl From<TsEnumDecl> for Stmt {
    fn from(x: TsEnumDecl) -> (d: Stmt) {
        Stmt::Decl(Decl::TsEnum(Box::new(x)))
    }
}

impl FromSpecImpl<TsEnumDecl> for Stmt {
    open spec fn obeys_from_spec() -> bool {
        true
    }

    open spec fn from_spec(x: TsEnumDecl) -> Stmt {
        Stmt::Decl(Decl::TsEnum(Box::new(x)))
    }
}

impl From<Box<TsEnumDecl>> for Stmt {
    fn from(x: Box<TsEnumDecl>) -> (d: Stmt) {
        Stmt::Decl(Decl::TsEnum(x))
    }
}

impl FromSpecImpl<Box<TsEnumDecl>> for Stmt {
    open spec fn obeys_from_spec() -> bool {
        true
    }

    open spec fn from_spec(x: Box<TsEnumDecl>) -> Stmt {
        Stmt::Decl(Decl::TsEnum(x))
    }
}

impl From<TsModuleDecl> for Stmt {
    fn from(x: TsModuleDecl) -> (d: Stmt) {
        Stmt::Decl(Decl::TsModule(Box::new(x)))
    }
}

impl FromSpecImpl<TsModuleDecl> for Stmt {
    open spec fn obeys_from_spec() -> bool {
        true
    }

    open spec fn from_spec(x: TsModuleDecl) -> Stmt {
        Stmt::Decl(Decl::TsModule(Box::new(x)))
    }
}

impl From<Box<TsModuleDecl>> for Stmt {
    fn from(x: Box<TsModuleDecl>) -> (d: Stmt) {
        Stmt::Decl(Decl::TsModule(x))
    }
}

impl FromSpecImpl<Box<TsModuleDecl>> for Stmt {
    open spec fn obeys_from_spec() -> bool {
        true
    }

    open spec fn from_spec(x: Box<TsModuleDecl>) -> Stmt {
        Stmt::Decl(Decl::TsModule(x))
    }
}

impl From<Stmt> for ModuleItem {
    fn from(x: Stmt) -> (d: ModuleItem) {
        ModuleItem::Stmt(x)
    }
}

impl FromSpecImpl<Stmt> for ModuleItem {
    open spec fn obeys_from_spec() -> bool {
        true
    }

    open spec fn from_spec(x: Stmt) -> ModuleItem {
        ModuleItem::Stmt(x)
    }
}

impl From<ClassDecl> for ModuleItem {
    fn from(x: ClassDecl) -> (d: ModuleItem) {
        ModuleItem::Stmt(Stmt::Decl(Decl::Class(x)))
    }
}

impl FromSpecImpl<ClassDecl> for ModuleItem {
    open spec fn obeys_from_spec() -> bool {
        true
    }

    open spec fn from_spec(x: ClassDecl) -> ModuleItem {
        ModuleItem::Stmt(Stmt::Decl(Decl::Class(x)))
    }
}

impl From<FnDecl> for ModuleItem {
    fn from(x: FnDecl) -> (d: ModuleItem) {
        ModuleItem::Stmt(Stmt::Decl(Decl::Fn(x)))
    }
}

impl FromSpecImpl<FnDecl> for ModuleItem {
    open spec fn obeys_from_spec() -> bool {
        true
    }

    open spec fn from_spec(x: FnDecl) -> ModuleItem {
        ModuleItem::Stmt(Stmt::Decl(Decl::Fn(x)))
    }
}

impl From<VarDecl> for ModuleItem {
    fn from(x: VarDecl) -> (d: ModuleItem) {
        ModuleItem::Stmt(Stmt::Decl(Decl::Var(Box::new(x))))
    }
}

impl FromSpecImpl<VarDecl> for ModuleItem {
    open spec fn obeys_from_spec() -> bool {
        true
    }

    open spec fn from_spec(x: VarDecl) -> ModuleItem {
        ModuleItem::Stmt(Stmt::Decl(Decl::Var(Box::new(x))))
    }
}

impl From<Box<VarDecl>> for ModuleItem {
    fn from(x: Box<VarDecl>) -> (d: ModuleItem) {
        ModuleItem::Stmt(Stmt::Decl(Decl::Var(x)))
    }
}

impl FromSpecImpl<Box<VarDecl>> for ModuleItem {
    open spec fn obeys_from_spec() -> bool {
        true
    }

    open spec fn from_spec(x: Box<VarDecl>) -> ModuleItem {
        ModuleItem::Stmt(Stmt::Decl(Decl::Var(x)))
    }
}

impl From<UsingDecl> for ModuleItem {
    fn from(x: UsingDecl) -> (d: ModuleItem) {
        ModuleItem::Stmt(Stmt::Decl(Decl::Using(Box::new(x))))
    }
}

impl FromSpecImpl<UsingDecl> for ModuleItem {
    open spec fn obeys_from_spec() -> bool {
        true
    }

    open spec fn from_spec(x: UsingDecl) -> ModuleItem {
        ModuleItem::Stmt(Stmt::Decl(Decl::Using(Box::new(x))))
    }
}

impl From<Box<UsingDecl>> for ModuleItem {
    fn from(x: Box<UsingDecl>) -> (d: ModuleItem) {
        ModuleItem::Stmt(Stmt::Decl(Decl::Using(x)))
    }
}

impl FromSpecImpl<Box<UsingDecl>> for ModuleItem {
    open spec fn obeys_from_spec() -> bool {
        true
    }

    open spec fn from_spec(x: Box<UsingDecl>) -> ModuleItem {
        ModuleItem::Stmt(Stmt::Decl(Decl::Using(x)))
    }
}

impl From<TsInterfaceDecl> for ModuleItem {
    fn from(x: TsInterfaceDecl) -> (d: ModuleItem) {
        ModuleItem::Stmt(Stmt::Decl(Decl::TsInterface(Box::new(x))))
    }
}

impl FromSpecImpl<TsInterfaceDecl> for ModuleItem {
    open spec fn obeys_from_spec() -> bool {
        true
    }

    open spec fn from_spec(x: TsInterfaceDecl) -> ModuleItem {
        ModuleItem::Stmt(Stmt::Decl(Decl::TsInterface(Box::new(x))))
    }
}

impl From<Box<TsInterfaceDecl>> for ModuleItem {
    fn from(x: Box<TsInterfaceDecl>) -> (d: ModuleItem) {
        ModuleItem::Stmt(Stmt::Decl(Decl::TsInterface(x)))
    }
}

impl FromSpecImpl<Box<TsInterfaceDecl>> for ModuleItem {
    open spec fn obeys_from_spec() -> bool {
        true
    }

    open spec fn from_spec(x: Box<TsInterfaceDecl>) -> ModuleItem {
        ModuleItem::Stmt(Stmt::Decl(Decl::TsInterface(x)))
    }
}

impl From<TsTypeAliasDecl> for ModuleItem {
    fn from(x: TsTypeAliasDecl) -> (d: ModuleItem) {
        ModuleItem::Stmt(Stmt::Decl(Decl::TsTypeAlias(Box::new(x))))
    }
}

impl FromSpecImpl<TsTypeAliasDecl> for ModuleItem {
    open spec fn obeys_from_spec() -> bool {
        true
    }

    open spec fn from_spec(x: TsTypeAliasDecl) -> ModuleItem {
        ModuleItem::Stmt(Stmt::Decl(Decl::TsTypeAlias(Box::new(x))))
    }
}

impl From<Box<TsTypeAliasDecl>> for ModuleItem {
    fn from(x: Box<TsTypeAliasDecl>) -> (d: ModuleItem) {
        ModuleItem::Stmt(Stmt::Decl(Decl::TsTypeAlias(x)))
    }
}

impl FromSpecImpl<Box<TsTypeAliasDecl>> for ModuleItem {
    open spec fn obeys_from_spec() -> bool {
        true
    }

    open spec fn from_spec(x: Box<TsTypeAliasDecl>) -> ModuleItem {
        ModuleItem::Stmt(Stmt::Decl(Decl::TsTypeAlias(x)))
    }
}

impl From<TsEnumDecl> for ModuleItem {
    fn from(x: TsEnumDecl) -> (d: ModuleItem) {
        ModuleItem::Stmt(Stmt::Decl(Decl::TsEnum(Box::new(x))))
    }
}

impl FromSpecImpl<TsEnumDecl> for ModuleItem {
    open spec fn obeys_from_spec() -> bool {
        true
    }

    open spec fn from_spec(x: TsEnumDecl) -> ModuleItem {
        ModuleItem::Stmt(Stmt::Decl(Decl::TsEnum(Box::new(x))))
    }
}

impl From<Box<TsEnumDecl>> for ModuleItem {
    fn from(x: Box<TsEnumDecl>) -> (d: ModuleItem) {
        ModuleItem::Stmt(Stmt::Decl(Decl::TsEnum(x)))
    }
}

impl FromSpecImpl<Box<TsEnumDecl>> for ModuleItem {
    open spec fn obeys_from_spec() -> bool {
        true
    }

    open spec fn from_spec(x: Box<TsEnumDecl>) -> ModuleItem {
        ModuleItem::Stmt(Stmt::Decl(Decl::TsEnum(x)))
    }
}

impl From<TsModuleDecl> for ModuleItem {
    fn from(x: TsModuleDecl) -> (d: ModuleItem) {
        ModuleItem::Stmt(Stmt::Decl(Decl::TsModule(Box::new(x))))
    }
}

impl FromSpecImpl<TsModuleDecl> for ModuleItem {
    open spec fn obeys_from_spec() -> bool {
        true
    }

    open spec fn from_spec(x: TsModuleDecl) -> ModuleItem {
        ModuleItem::Stmt(Stmt::Decl(Decl::TsModule(Box::new(x))))
    }
}

impl From<Box<TsModuleDecl>> for ModuleItem {
    fn from(x: Box<TsModuleDecl>) -> (d: ModuleItem) {
        ModuleItem::Stmt(Stmt::Decl(Decl::TsModule(x)))
    }
}

impl FromSpecImpl<Box<TsModuleDecl>> for ModuleItem {
    open spec fn obeys_from_spec() -> bool {
        true
    }

    open spec fn from_spec(x: Box<TsModuleDecl>) -> ModuleItem {
        ModuleItem::Stmt(Stmt::Decl(Decl::TsModule(x)))
    }
}

impl From<VarDecl> for Box<Stmt> {
    fn from(x: VarDecl) -> (d: Box<Stmt>) {
        Box::new(Stmt::Decl(Decl::Var(Box::new(x))))
    }
}

impl FromSpecImpl<VarDecl> for Box<Stmt> {
    open spec fn obeys_from_spec() -> bool {
        true
    }

    open spec fn from_spec(x: VarDecl) -> Box<Stmt> {
        Box::new(Stmt::Decl(Decl::Var(Box::new(x))))
    }
}

impl From<Box<VarDecl>> for Box<Stmt> {
    fn from(x: Box<VarDecl>) -> (d: Box<Stmt>) {
        Box::new(Stmt::Decl(Decl::Var(x)))
    }
}

impl FromSpecImpl<Box<VarDecl>> for Box<Stmt> {
    open spec fn obeys_from_spec() -> bool {
        true
    }

    open spec fn from_spec(x: Box<VarDecl>) -> Box<Stmt> {
        Box::new(Stmt::Decl(Decl::Var(x)))
    }
}

impl From<UsingDecl> for Box<Stmt> {
    fn from(x: UsingDecl) -> (d: Box<Stmt>) {
        Box::new(Stmt::Decl(Decl::Using(Box::new(x))))
    }
}

impl FromSpecImpl<UsingDecl> for Box<Stmt> {
    open spec fn obeys_from_spec() -> bool {
        true
    }

    open spec fn from_spec(x: UsingDecl) -> Box<Stmt> {
        Box::new(Stmt::Decl(Decl::Using(Box::new(x))))
    }
}

impl From<Box<UsingDecl>> for Box<Stmt> {
    fn from(x: Box<UsingDecl>) -> (d: Box<Stmt>) {
        Box::new(Stmt::Decl(Decl::Using(x)))
    }
}

impl FromSpecImpl<Box<UsingDecl>> for Box<Stmt> {
    open spec fn obeys_from_spec() -> bool {
        true
    }

    open spec fn from_spec(x: Box<UsingDecl>) -> Box<Stmt> {
        Box::new(Stmt::Decl(Decl::Using(x)))
    }
}

impl From<TsInterfaceDecl> for Box<Stmt> {
    fn from(x: TsInterfaceDecl) -> (d: Box<Stmt>) {
        Box::new(Stmt::Decl(Decl::TsInterface(Box::new(x))))
    }
}

impl FromSpecImpl<TsInterfaceDecl> for Box<Stmt> {
    open spec fn obeys_from_spec() -> bool {
        true
    }

    open spec fn from_spec(x: TsInterfaceDecl) -> Box<Stmt> {
        Box::new(Stmt::Decl(Decl::TsInterface(Box::new(x))))
    }
}

impl From<Box<TsInterfaceDecl>> for Box<Stmt> {
    fn from(x: Box<TsInterfaceDecl>) -> (d: Box<Stmt>) {
        Box::new(Stmt::Decl(Decl::TsInterface(x)))
    }
}

impl FromSpecImpl<Box<TsInterfaceDecl>> for Box<Stmt> {
    open spec fn obeys_from_spec() -> bool {
        true
    }

    open spec fn from_spec(x: Box<TsInterfaceDecl>) -> Box<Stmt> {
        Box::new(Stmt::Decl(Decl::TsInterface(x)))
    }
}

impl From<TsTypeAliasDecl> for Box<Stmt> {
    fn from(x: TsTypeAliasDecl) -> (d: Box<Stmt>) {
        Box::new(Stmt::Decl(Decl::TsTypeAlias(Box::new(x))))
    }
}

impl FromSpecImpl<TsTypeAliasDecl> for Box<Stmt> {
    open spec fn obeys_from_spec() -> bool {
        true
    }

    open spec fn from_spec(x: TsTypeAliasDecl) -> Box<Stmt> {
        Box::new(Stmt::Decl(Decl::TsTypeAlias(Box::new(x))))
    }
}

impl From<Box<TsTypeAliasDecl>> for Box<Stmt> {
    fn from(x: Box<TsTypeAliasDecl>) -> (d: Box<Stmt>) {
        Box::new(Stmt::Decl(Decl::TsTypeAlias(x)))
    }
}

impl FromSpecImpl<Box<TsTypeAliasDecl>> for Box<Stmt> {
    open spec fn obeys_from_spec() -> bool {
        true
    }

    open spec fn from_spec(x: Box<TsTypeAliasDecl>) -> Box<Stmt> {
        Box::new(Stmt::Decl(Decl::TsTypeAlias(x)))
    }
}

impl From<TsEnumDecl> for Box<Stmt> {
    fn from(x: TsEnumDecl) -> (d: Box<Stmt>) {
        Box::new(Stmt::Decl(Decl::TsEnum(Box::new(x))))
    }
}

impl FromSpecImpl<TsEnumDecl> for Box<Stmt> {
    open spec fn obeys_from_spec() -> bool {
        true
    }

    open spec fn from_spec(x: TsEnumDecl) -> Box<Stmt> {
        Box::new(Stmt::Decl(Decl::TsEnum(Box::new(x))))
    }
}

impl From<Box<TsEnumDecl>> for Box<Stmt> {
    fn from(x: Box<TsEnumDecl>) -> (d: Box<Stmt>) {
        Box::new(Stmt::Decl(Decl::TsEnum(x)))
    }
}

impl FromSpecImpl<Box<TsEnumDecl>> for Box<Stmt> {
    open spec fn obeys_from_spec() -> bool {
        true
    }

    open spec fn from_spec(x: Box<TsEnumDecl>) -> Box<Stmt> {
        Box::new(Stmt::Decl(Decl::TsEnum(x)))
    }
}

impl From<TsModuleDecl> for Box<Stmt> {
    fn from(x: TsModuleDecl) -> (d: Box<Stmt>) {
        Box::new(Stmt::Decl(Decl::TsModule(Box::new(x))))
    }
}

impl FromSpecImpl<TsModuleDecl> for Box<Stmt> {
    open spec fn obeys_from_spec() -> bool {
        true
    }

    open spec fn from_spec(x: TsModuleDecl) -> Box<Stmt> {
        Box::new(Stmt::Decl(Decl::TsModule(Box::new(x))))
    }
}

impl From<Box<TsModuleDecl>> for Box<Stmt> {
    fn from(x: Box<TsModuleDecl>) -> (d: Box<Stmt>) {
        Box::new(Stmt::Decl(Decl::TsModule(x)))
    }
}

impl FromSpecImpl<Box<TsModuleDecl>> for Box<Stmt> {
    open spec fn obeys_from_spec() -> bool {
        true
    }

    open spec fn from_spec(x: Box<TsModuleDecl>) -> Box<Stmt> {
        Box::new(Stmt::Decl(Decl::TsModule(x)))
    }
}

} // verus!
