//! The errors, and where they are.
use zts_parser::error::{Error, SyntaxError};
use zts_parser::parser::Parser;
use zts_parser::syntax::{Syntax, TsSyntax};
use zts_parser::token::Token;

/// The error that ends a module, with the positions that it is about.
fn error(src: &str) -> (SyntaxError, u32, u32) {
    let mut p = Parser::new(src, Syntax::Typescript(TsSyntax { zts: true }));
    match p.parse_module() {
        Ok(m) => panic!("{src:?} was accepted: {m:?}"),
        Err(e) => {
            assert_eq!(*e.kind(), e.error);
            assert_eq!(e.span(), e.span);
            (e.error, e.span.lo.0, e.span.hi.0)
        }
    }
}

#[test]
fn a_token_is_due() {
    assert_eq!(error("f(a"), (SyntaxError::Expected(Token::RParen, Token::Eof), 4, 4));
    assert_eq!(error("a ? b;"), (SyntaxError::Expected(Token::Colon, Token::Semi), 6, 7));
    assert_eq!(
        error("match (x) { A { a } a }"),
        (SyntaxError::Expected(Token::Arrow, Token::Ident), 21, 22)
    );
    assert_eq!(
        error("newtype A < string;"),
        (SyntaxError::Expected(Token::Eq, Token::Lt), 11, 12)
    );
    assert_eq!(
        error("enum E { A { v number } }"),
        (SyntaxError::Expected(Token::Colon, Token::Ident), 16, 22)
    );
    // A name that is no wildcard and no literal needs bindings.
    assert_eq!(
        error("match (x) { A => 1 }"),
        (SyntaxError::Expected(Token::LBrace, Token::Arrow), 15, 17)
    );
}

#[test]
fn an_identifier_is_due() {
    assert_eq!(error("a.1"), (SyntaxError::ExpectedSemi, 2, 4));
    assert_eq!(error("a.(b)"), (SyntaxError::ExpectedIdent, 3, 4));
    assert_eq!(error("enum { A {} }"), (SyntaxError::ExpectedIdent, 6, 7));
}

#[test]
fn a_statement_has_to_end() {
    assert_eq!(error("a b"), (SyntaxError::ExpectedSemi, 3, 4));
    assert_eq!(error("match (x) {}"), (SyntaxError::ExpectedSemi, 11, 12));
}

#[test]
fn a_type_is_due() {
    assert_eq!(error("newtype A = ;"), (SyntaxError::TypeExpected, 13, 14));
    assert_eq!(error("enum E { A { v: } }"), (SyntaxError::TypeExpected, 17, 18));
}

#[test]
fn an_expression_is_due() {
    assert_eq!(error("1 + ;"), (SyntaxError::TS1109, 5, 6));
    // A minus in a pattern stands before a number.
    assert_eq!(error("match (x) { -a => 1 }"), (SyntaxError::TS1109, 13, 14));
}

#[test]
fn what_is_assigned_to_is_simple() {
    assert_eq!(error("a + b = c"), (SyntaxError::NotSimpleAssign, 1, 6));
}

#[test]
fn a_declaration_is_no_single_statement() {
    assert_eq!(error("if (c) enum E { A {} }"), (SyntaxError::DeclNotAllowed, 8, 12));
    assert_eq!(error("while (c) const a = 1;"), (SyntaxError::DeclNotAllowed, 11, 16));
}

#[test]
fn a_declaration_is_due_behind_export() {
    assert_eq!(error("export 1;"), (SyntaxError::DeclarationExpected, 8, 9));
    // A newtype needs its name on the same line.
    assert_eq!(
        error("export newtype\nA = string;"),
        (SyntaxError::DeclarationExpected, 8, 15)
    );
}

#[test]
fn an_enum_cannot_be_declared() {
    let src = "declare enum E { A {} }";
    assert_eq!(error(src), (SyntaxError::ZtsDeclareEnum, 1, 13));
    let src = "declare const enum E { A {} }";
    assert_eq!(error(src), (SyntaxError::ZtsDeclareEnum, 1, 19));
}

#[test]
fn a_newtype_cannot_be_declared() {
    assert_eq!(error("declare newtype A = string;"), (SyntaxError::ZtsDeclareNewtype, 1, 16));
}

#[test]
fn a_const_enum_is_reported_once() {
    let mut p = Parser::new(
        "const enum E { A { v: number } }",
        Syntax::Typescript(TsSyntax { zts: true }),
    );
    let m = p.parse_module().unwrap();
    assert_eq!(m.body.len(), 1);
    let errs: Vec<Error> = p.take_errors();
    assert_eq!(errs.len(), 1);
    assert_eq!(errs[0].error, SyntaxError::ZtsConstEnum);
    assert_eq!((errs[0].span.lo.0, errs[0].span.hi.0), (1, 11));
    assert!(p.take_errors().is_empty());
}

#[test]
fn a_variant_needs_braces() {
    assert_eq!(error("enum Color { Red, Green }"), (SyntaxError::ZtsEnumVariantBody, 14, 17));
    assert_eq!(error("enum Color { Red = 1 }"), (SyntaxError::ZtsEnumVariantBody, 14, 17));
}

#[test]
fn an_arm_body_is_no_object_literal() {
    assert_eq!(
        error("match (s) { A { a } => { a } }"),
        (SyntaxError::ZtsAmbiguousArmBody, 24, 29)
    );
    assert_eq!(
        error("match (s) { A { a } => { a, b } }"),
        (SyntaxError::ZtsAmbiguousArmBody, 24, 32)
    );
}

#[test]
fn an_if_expression_needs_an_else() {
    assert_eq!(error("const a = if (b) { 1 };"), (SyntaxError::ZtsIfWithoutElse, 11, 23));
    // In a chain, the inner one is what lacks it.
    assert_eq!(
        error("const a = if (b) { 1 } else if (c) { 2 };"),
        (SyntaxError::ZtsIfWithoutElse, 29, 41)
    );
}

#[test]
fn a_block_with_a_value_ends_in_an_expression() {
    assert_eq!(
        error("const a = if (b) { const x = 1; } else { 2 };"),
        (SyntaxError::ZtsBlockWithoutTail, 18, 34)
    );
    let src = "const a = if (b) {} else { 2 };";
    assert_eq!(error(src), (SyntaxError::ZtsBlockWithoutTail, 18, 20));
}

#[test]
fn an_error_in_an_arm_does_not_turn_the_match_into_a_call() {
    assert_eq!(
        error("match (x) { A { a } => }"),
        (SyntaxError::TS1109, 24, 25)
    );
}

#[test]
fn errors_of_a_failed_attempt_are_forgotten() {
    // The arrow function holds a `const enum`, which is reported when the header
    // is tried and again when the call is parsed: once in all.
    let mut p = Parser::new(
        "match (() => { const enum E { A {} } })",
        Syntax::Typescript(TsSyntax { zts: true }),
    );
    let e = p.parse_expr().unwrap();
    assert!(e.is_call());
    assert_eq!(p.take_errors().len(), 1);
}
