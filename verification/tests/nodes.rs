//! Syntax nodes that are built rather than parsed.
use zts_parser::ast::decl::{
    ClassDecl, Decl, FnDecl, UsingDecl, VarDecl, VarDeclKind, VarDeclarator, ZtsEnumDecl,
    ZtsEnumVariant, ZtsImplDecl, ZtsImplMethod, ZtsNewtypeDecl, ZtsUnionDecl, ZtsUnionMember,
};
use zts_parser::ast::lit::{Number, Str};
use zts_parser::ast::pat::Pat;
use zts_parser::ast::stmt::{ModuleItem, Stmt};
use zts_parser::span::{BytePos, Span};

#[test]
fn spans_put_their_ends_in_order() {
    let s = Span::new(BytePos(7), BytePos(3));
    assert_eq!((s.lo, s.hi), (BytePos(3), BytePos(7)));
    let s = Span::new(BytePos(3), BytePos(7));
    assert_eq!((s.lo, s.hi), (BytePos(3), BytePos(7)));
    assert_eq!(Span::default(), Span::dummy());
}

#[test]
fn placeholders_are_empty() {
    let d = Decl::dummy();
    let v = d.as_var().unwrap();
    assert_eq!(v.kind, VarDeclKind::Var);
    assert!(v.decls.is_empty() && !v.declare);
    assert_eq!(v.span, Span::dummy());
    assert_eq!(*v, VarDecl::default());
    assert_eq!(*v, VarDecl::dummy());

    let f = FnDecl::dummy();
    assert_eq!(f.ident.sym, "");
    assert!(f.function.body.is_none() && f.function.params.is_empty());
    let c = ClassDecl::dummy();
    assert_eq!(c.ident.sym, "");
    assert!(c.class.body.is_empty() && c.class.super_class.is_none());

    let b = VarDeclarator::dummy();
    assert!(matches!(b.name, Pat::Invalid(..)));
    assert!(b.init.is_none() && !b.definite);
    let u = UsingDecl::dummy();
    assert!(u.decls.is_empty() && !u.is_await);

    assert!(ZtsEnumDecl::dummy().variants.is_empty());
    assert_eq!(ZtsEnumDecl::dummy(), ZtsEnumDecl::default());
    assert!(ZtsEnumVariant::dummy().fields.is_empty());
    assert_eq!(ZtsEnumVariant::dummy(), ZtsEnumVariant::default());
    assert!(ZtsImplDecl::dummy().methods.is_empty());
    assert_eq!(ZtsImplDecl::dummy(), ZtsImplDecl::default());
    assert_eq!(ZtsImplMethod::dummy().name.sym, "");
    assert_eq!(ZtsImplMethod::dummy(), ZtsImplMethod::default());
    assert!(ZtsUnionDecl::dummy().members.is_empty());
    assert_eq!(ZtsUnionDecl::dummy(), ZtsUnionDecl::default());
    assert!(ZtsNewtypeDecl::dummy().type_ann.is_ts_keyword_type());
}

#[test]
fn a_union_has_strings_and_numbers() {
    let str = ZtsUnionMember::Str(Str { span: Span::dummy(), raw: "'a'".into() });
    let num = ZtsUnionMember::Num(Number { span: Span::dummy(), raw: "1".into() });
    let u = ZtsUnionDecl { members: vec![str, num], ..ZtsUnionDecl::dummy() };
    let d = Decl::from(Box::new(u));
    assert_eq!(d.as_zts_union().unwrap().members.len(), 2);
}

#[test]
fn declarations_become_statements_and_items() {
    let d = Decl::from(VarDecl::dummy());
    assert!(d.is_var() && !d.is_fn_decl());
    assert!(d.as_class().is_none());
    assert_eq!(d, Decl::from(Box::new(VarDecl::dummy())));
    let s = Stmt::from(FnDecl::dummy());
    assert!(s.as_decl().unwrap().is_fn_decl());
    let i = ModuleItem::from(ClassDecl::dummy());
    assert!(i.as_stmt().unwrap().as_decl().unwrap().is_class());
    let b: Box<Stmt> = UsingDecl::dummy().into();
    assert!(b.as_decl().unwrap().is_using());
    assert_eq!(ModuleItem::from(Stmt::from(d)), ModuleItem::from(VarDecl::dummy()));
}

#[test]
fn the_words_of_variable_declarations() {
    for (kind, word) in
        [(VarDeclKind::Var, "var"), (VarDeclKind::Let, "let"), (VarDeclKind::Const, "const")]
    {
        assert_eq!(kind.as_str(), word);
        assert_eq!(VarDeclKind::from_str(word), Ok(kind));
    }
    assert_eq!(VarDeclKind::from_str("using"), Err(()));
    assert_eq!(VarDeclKind::default(), VarDeclKind::Var);
}
