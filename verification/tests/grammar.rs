//! The grammar of zts, on source texts.
use zts_parser::ast::decl::Decl;
use zts_parser::ast::expr::{Expr, ZtsIfAlt};
use zts_parser::ast::stmt::Stmt;
use zts_parser::error::PResult;
use zts_parser::parser::Parser;
use zts_parser::syntax::{Syntax, TsSyntax};

/// Parses a text, and panics where there is an error, reported or not.
fn test_parser<T>(src: &str, syntax: Syntax, f: impl FnOnce(&mut Parser) -> PResult<T>) -> T {
    let mut p = Parser::new(src, syntax);
    let ret = f(&mut p);
    let errors = p.take_errors();
    match ret {
        Ok(x) => {
            assert!(errors.is_empty(), "{src:?}: {errors:?}");
            x
        }
        Err(e) => panic!("{src:?}: {e:?}"),
    }
}

fn zts() -> Syntax {
    Syntax::Typescript(TsSyntax { zts: true, ..Default::default() })
}

fn parse_expr(src: &str) -> Box<Expr> {
    test_parser(src, zts(), |p| p.parse_expr())
}

/// Parses a module. Says whether that failed, and whether errors were reported.
fn parse_module_errs(src: &str) -> (bool, bool) {
    test_parser(src, zts(), |p| {
        let res = p.parse_module();
        let errs = p.take_errors();
        Ok((res.is_err(), !errs.is_empty()))
    })
}

#[test]
fn if_expr_basic() {
    let e = parse_expr("if (b === 0) { 3 } else { 4 }");
    let i = e.expect_zts_if();
    assert!(i.cons.stmts.is_empty());
    assert!(i.alt.is_block());
}

#[test]
fn if_expr_multi_stmt_and_else_if() {
    let e = parse_expr(
        "if (a) { const x = f(); x + 1 } else if (b) { 2 } else { const y = g(); y }",
    );
    let i = e.expect_zts_if();
    assert_eq!(i.cons.stmts.len(), 1);
    let ZtsIfAlt::If(chain) = &i.alt else {
        panic!("expected else-if chain")
    };
    assert!(chain.alt.is_block());
}

#[test]
fn if_expr_without_else_is_an_error() {
    let (is_err, had_errs) = parse_module_errs("const a = if (b) { 1 };");
    assert!(is_err || had_errs, "if-expression without else must error");
}

#[test]
fn if_expr_block_without_tail_is_an_error() {
    let (is_err, had_errs) = parse_module_errs("const a = if (b) { const x = 1; } else { 2 };");
    assert!(
        is_err || had_errs,
        "block without tail expression must error"
    );
}

#[test]
fn if_statement_still_works() {
    let module = test_parser("if (a) { f(); } else { g(); }", zts(), |p| p.parse_module());
    assert!(matches!(module.body[0].as_stmt().unwrap(), Stmt::If(..)));
}

#[test]
fn match_arm_block_body() {
    let e = parse_expr("match (t) { K { v } => { const d = v * 2; d + 1 }, L { w } => w }");
    let m = e.expect_match_expr();
    let body = m.arms[0].body.as_zts_expr_block().unwrap();
    assert_eq!(body.stmts.len(), 1);
}

#[test]
fn arm_bare_ident_block_is_ambiguous_error() {
    // `=> { a }` used to be a shorthand object literal; silently
    // returning `a` instead would change program values.
    let (is_err, had) = parse_module_errs("const r = match (s) { A { a } => { a } };");
    assert!(is_err || had);
    let (is_err2, had2) = parse_module_errs("const r = match (s) { A { a, b } => { a, b } };");
    assert!(is_err2 || had2);
}

#[test]
fn arm_non_ident_tail_block_is_fine() {
    let e = parse_expr("match (s) { A { a } => { f(a) } }");
    let m = e.expect_match_expr();
    assert!(m.arms[0].body.is_zts_expr_block());
}

#[test]
fn enum_in_single_statement_position_is_an_error() {
    for src in [
        "if (c) enum E { A { v: number } }",
        "while (c) enum E { A { v: number } }",
        "for (;;) enum E { A { v: number } }",
        "lbl: enum E { A { v: number } }",
    ] {
        let (is_err, had) = parse_module_errs(src);
        assert!(is_err || had, "expected error for: {src}");
    }
}

#[test]
fn export_default_enum_is_an_error() {
    let (is_err, had) =
        parse_module_errs("export default enum Shape { Circle { radius: number } }");
    assert!(is_err || had);
}

#[test]
fn not_operator_negates() {
    for (src, desc) in [
        ("not ready", "ident operand"),
        ("not true", "bool literal"),
        ("not 0", "num literal"),
        ("not not x", "double negation"),
        ("not typeof x", "typeof operand"),
    ] {
        let e = parse_expr(src);
        assert!(e.is_unary(), "{desc}: expected unary, got {e:?}");
    }
    // Binds like `!`: `not a === b` is `(!a) === b`.
    let e = parse_expr("not a === b");
    let bin = e.as_bin().unwrap();
    assert!(bin.left.is_unary());
}

#[test]
fn not_stays_an_identifier_in_vanilla_positions() {
    assert!(parse_expr("not(1)").is_call(), "call");
    assert!(parse_expr("not.foo").is_member(), "member");
    assert!(parse_expr("not => not").is_arrow(), "arrow param");
    assert!(parse_expr("not instanceof Foo").is_bin(), "instanceof");
    assert!(parse_expr("not as string").is_ts_as(), "as-cast");
    assert!(parse_expr("not + 1").is_bin(), "binop");
    let m = test_parser("const not = 1;\nnot;\n", zts(), |p| p.parse_module());
    assert_eq!(m.body.len(), 2, "binding named not");
}

#[test]
fn not_respects_asi() {
    // `not\nx` must remain TWO expression statements.
    let m = test_parser("not\nx", zts(), |p| p.parse_module());
    assert_eq!(m.body.len(), 2);
    assert!(m.body[0]
        .as_stmt()
        .unwrap()
        .as_expr()
        .unwrap()
        .expr
        .is_ident());
}

#[test]
fn wildcard_arm_parses() {
    let e = parse_expr("match (t) { K { v } => v, _ => 0 }");
    let m = e.expect_match_expr();
    assert!(m.arms[1].pattern.is_wildcard());
}

#[test]
fn literal_arms_parse() {
    let e = parse_expr(
        "match (s) { \"active\" => 1, 404 => 2, -1 => 3, true => 4, null => 5, _ => 0 }",
    );
    let m = e.expect_match_expr();
    assert_eq!(m.arms.len(), 6);
    assert!(m.arms[0].pattern.is_lit());
    let neg = m.arms[2].pattern.as_lit().unwrap();
    assert!(neg.neg);
    assert!(m.arms[5].pattern.is_wildcard());
}

#[test]
fn underscore_stays_an_identifier_outside_arm_patterns() {
    let m = test_parser("const _ = 1;\nconst x = _ + 1;", zts(), |p| {
        p.parse_module()
    });
    assert_eq!(m.body.len(), 2);
    // And `_` as a match DISCRIMINANT is just an identifier.
    let e = parse_expr("match (_) { K { v } => v }");
    assert!(e.expect_match_expr().discriminant.is_ident());
}

#[test]
fn zts_enum_basic() {
    let module = test_parser(
        "enum Shape { Circle { radius: number }, Square { side: number } }",
        zts(),
        |p| p.parse_module(),
    );
    let decl = module.body[0].as_stmt().unwrap().as_decl().unwrap();
    let e = decl.as_zts_enum().unwrap();
    assert_eq!(e.ident.sym, "Shape");
    assert_eq!(e.variants.len(), 2);
    assert_eq!(e.variants[0].name.sym, "Circle");
    assert_eq!(e.variants[0].fields.len(), 1);
    assert_eq!(e.variants[0].fields[0].name.sym, "radius");
}

#[test]
fn zts_enum_empty_variant_and_trailing_commas() {
    let module = test_parser("enum E { A {}, B { x: string, }, }", zts(), |p| {
        p.parse_module()
    });
    let decl = module.body[0].as_stmt().unwrap().as_decl().unwrap();
    let e = decl.as_zts_enum().unwrap();
    assert_eq!(e.variants.len(), 2);
    assert!(e.variants[0].fields.is_empty());
}

#[test]
fn zts_enum_exported() {
    let module = test_parser("export enum E { A { v: number } }", zts(), |p| {
        p.parse_module()
    });
    let export = module.body[0].as_module_decl().unwrap();
    let decl = &export.as_export_decl().unwrap().decl;
    assert!(decl.is_zts_enum());
}

#[test]
fn ts_enum_member_syntax_is_a_hard_error() {
    let (is_err, _) = parse_module_errs("enum Color { Red, Green }");
    assert!(is_err, "TS enum member syntax must be rejected under zts");
}

#[test]
fn const_enum_is_an_error_but_recovers() {
    let (is_err, had_errs) = parse_module_errs("const enum E { A { v: number } }");
    assert!(!is_err, "const enum should recover after the diagnostic");
    assert!(had_errs, "const enum must emit a diagnostic");
}

#[test]
fn declare_enum_is_a_hard_error() {
    let (is_err, had_errs) = parse_module_errs("declare enum E { A { v: number } }");
    assert!(is_err || had_errs, "declare enum must be rejected");
}

#[test]
fn ts_enum_still_works_without_zts_flag() {
    let module = test_parser(
        "enum Color { Red, Green }",
        Syntax::Typescript(Default::default()),
        |p| p.parse_module(),
    );
    let decl = module.body[0].as_stmt().unwrap().as_decl().unwrap();
    assert!(decl.is_ts_enum());
}

#[test]
fn match_expr_basic() {
    let e = parse_expr(
        "match (shape) { Circle { radius } => radius * 2, Square { side } => side ** 2 }",
    );
    let m = e.expect_match_expr();
    assert_eq!(m.arms.len(), 2);
    let v0 = m.arms[0].pattern.as_variant().unwrap();
    assert_eq!(v0.name.sym, "Circle");
    assert!(v0.binding.is_some());
    assert_eq!(m.arms[1].pattern.as_variant().unwrap().name.sym, "Square");
}

#[test]
fn match_expr_trailing_comma() {
    let e = parse_expr("match (x) { A { a } => a, }");
    assert_eq!(e.expect_match_expr().arms.len(), 1);
}

#[test]
fn match_expr_nested() {
    let e = parse_expr(
        "match (o) { Left { inner } => match (inner) { A { x } => x }, Right { label } => \
         label }",
    );
    let m = e.expect_match_expr();
    assert!(m.arms[0].body.is_match_expr());
}

#[test]
fn str_match_stays_call() {
    let e = parse_expr("str.match(re)");
    assert!(e.is_call());
}

#[test]
fn match_call_stays_call() {
    let e = parse_expr("match(1)");
    assert!(e.is_call());
}

#[test]
fn match_call_with_space_stays_call() {
    let e = parse_expr("match (1) + 2");
    assert!(e.is_bin());
}

#[test]
fn match_call_ternary_stays_call() {
    let e = parse_expr("match(1) ? 2 : 3");
    assert!(e.is_cond());
}

#[test]
fn match_asi_call_then_block_stays_call() {
    // ASI: `match(1)` is a call statement, `{ ... }` a block statement.
    let module = test_parser("match(1)\n{\n  log(2);\n}", zts(), |p| p.parse_module());
    assert_eq!(module.body.len(), 2);
    let stmt = module.body[0].as_stmt().unwrap().as_expr().unwrap();
    assert!(stmt.expr.is_call(), "match(1) side effect must survive");
}

#[test]
fn match_call_then_empty_block_stays_call() {
    let module = test_parser("match(1)\n{}", zts(), |p| p.parse_module());
    assert_eq!(module.body.len(), 2);
    let stmt = module.body[0].as_stmt().unwrap().as_expr().unwrap();
    assert!(stmt.expr.is_call());
}

#[test]
fn match_empty_braces_same_line_is_not_a_match() {
    // `{ }` has no word after `{`, so this must fall back to a call…
    let e = test_parser("match (x) {}", zts(), |p| {
        let e = p.parse_expr()?;
        let _ = p.take_errors();
        Ok(e)
    });
    // …meaning the call expression survives (the dangling `{}` is the
    // caller's problem, as in vanilla TS).
    assert!(e.is_call());
}

#[test]
fn pathological_nesting_is_linear() {
    // `match (match (match (…x…)))` — every speculation fails at the
    // innermost level. Without the packrat memo this is O(2^n); with
    // it, parsing must be effectively instant.
    let n = 64;
    let src = format!("const a = {}x{};", "match (".repeat(n), ")".repeat(n));
    let started = std::time::Instant::now();
    let module = test_parser(&src, zts(), |p| {
        let m = p.parse_module()?;
        let _ = p.take_errors();
        Ok(m)
    });
    assert_eq!(module.body.len(), 1);
    assert!(
        started.elapsed() < std::time::Duration::from_secs(5),
        "nested match speculation took {:?} — memoization is broken",
        started.elapsed()
    );
}

#[test]
fn success_nesting_in_discriminant_is_linear() {
    // Matches nested in DISCRIMINANT position, all succeeding. The
    // failure memo does not apply here; this guards against the commit
    // path re-parsing discriminants (which would be exponential).
    let mut src = String::from("x");
    for _ in 0..48 {
        src = format!("match ({src}) {{ A {{ a }} => a }}");
    }
    let src = format!("const r = {src};");
    let started = std::time::Instant::now();
    let module = test_parser(&src, zts(), |p| p.parse_module());
    assert_eq!(module.body.len(), 1);
    assert!(
        started.elapsed() < std::time::Duration::from_secs(5),
        "success-path nesting took {:?} — discriminants are being re-parsed",
        started.elapsed()
    );
}

#[test]
fn deep_paren_nesting_does_not_crash() {
    // 8000 paren levels would overflow the stack in a debug build;
    // with the zts flag on, expression recursion rides on maybe_grow
    // (stacker) and must parse cleanly. The nesting LIMIT is enforced
    // by the zts semantic pass, not the parser.
    let n = 8000;
    let src = format!("const a = {}1{};", "(".repeat(n), ")".repeat(n));
    let module = test_parser(&src, zts(), |p| p.parse_module());
    assert_eq!(module.body.len(), 1);
}

#[test]
fn match_multiline_body_still_parses() {
    // Only the `{` must share a line with `)`; arms can wrap freely.
    let e = parse_expr("match (x) { A { a } =>\n  a,\n  B { b } => b\n}");
    assert_eq!(e.expect_match_expr().arms.len(), 2);
}

#[test]
fn newtype_decl_parses() {
    let module = test_parser("newtype AccountId = string;", zts(), |p| p.parse_module());
    let decl = module.body[0].as_stmt().unwrap().as_decl().unwrap();
    let n = decl.as_zts_newtype().unwrap();
    assert_eq!(n.ident.sym, "AccountId");
    assert!(n.type_ann.is_ts_keyword_type());
}

#[test]
fn export_newtype_decl_parses() {
    let module = test_parser("export newtype UserId = string;", zts(), |p| p.parse_module());
    let item = &module.body[0];
    let export = item.as_module_decl().unwrap().as_export_decl().unwrap();
    assert!(export.decl.is_zts_newtype());
}

#[test]
fn newtype_stays_an_identifier_elsewhere() {
    // Assignment, call, member access, and ASI-split lines must all
    // keep `newtype` as a plain identifier.
    for src in [
        "const newtype = 1;",
        "newtype = 5;",
        "newtype(x);",
        "newtype.foo;",
        "newtype\nAccountId;",
    ] {
        let module = test_parser(src, zts(), |p| p.parse_module());
        assert!(
            !matches!(
                module.body[0].as_stmt(),
                Some(Stmt::Decl(Decl::ZtsNewtype(..)))
            ),
            "{src:?} must not parse as a newtype decl"
        );
    }
}

#[test]
fn declare_newtype_is_an_error() {
    let (is_err, had) = parse_module_errs("declare newtype AccountId = string;");
    assert!(is_err || had, "`declare newtype` must error");
}

#[test]
fn newtype_disabled_without_flag() {
    // Without the zts flag, `newtype X = string;` stays what it is in
    // vanilla TS: a syntax error (two identifiers on one line), NOT a
    // newtype decl.
    let (is_err, had) = test_parser(
        "newtype X = string;",
        Syntax::Typescript(Default::default()),
        |p| {
            let res = p.parse_module();
            let errs = p.take_errors();
            Ok((res.is_err(), !errs.is_empty()))
        },
    );
    assert!(is_err || had, "vanilla TS must reject `newtype X = ...`");
}

#[test]
fn match_disabled_without_flag() {
    let e = test_parser(
        "match (x) { A { a } => a }",
        Syntax::Typescript(Default::default()),
        |p| {
            let e = p.parse_expr()?;
            // Without the zts flag the parser must see a call; swallow the
            // errors from the trailing `{ ... }` garbage.
            let _ = p.take_errors();
            Ok(e)
        },
    );
    assert!(e.is_call());
}
