//! The laws of the language, on source texts.
use zts_parser::ast::expr::{BinaryOp, Expr, UnaryOp, ZtsIfAlt};
use zts_parser::ast::stmt::{Module, Stmt};
use zts_parser::parser::zts::expr_is_bare_idents;
use zts_parser::parser::Parser;
use zts_parser::syntax::{Syntax, TsSyntax};
use zts_parser::token::Token;

fn syntax(zts: bool) -> Syntax {
    Syntax::Typescript(TsSyntax { zts })
}

fn module(src: &str, zts: bool) -> Option<Module> {
    let mut p = Parser::new(src, syntax(zts));
    let m = p.parse_module().ok();
    if m.is_some() {
        assert_eq!(p.cur(), Token::Eof, "{src:?} was not read to its end");
    }
    m
}

fn expr(src: &str) -> Box<Expr> {
    let mut p = Parser::new(src, syntax(true));
    p.parse_expr().unwrap()
}

#[test]
fn zts_is_a_superset_but_for_enums() {
    for src in [
        "",
        ";",
        "const a = 1, b = { c, d: 2, 'e': [3, 4,], };",
        "let { x, y: z = 1, ...rest } = f(a, b,);",
        "match(1)\n{ log(2); }",
        "match(1)\n{}",
        "match (x);",
        "const m = match(match(match(1)));",
        "match(a, b) + match(a,);",
        "match()",
        "match(x => { y; })\n{ z; }",
        "not(1); not.foo; not = 2; not\nx",
        "const f = not => not;",
        "const g = (a, b = not + 1) => { return_; };",
        "newtype = 5; newtype(x); newtype.foo; newtype\nAccountId;",
        "const newtype = 1;",
        "declare\nx",
        "if (a) { f(); } else { g(); }",
        "if (match(1)) { f(); } else if (not) g();",
        "while (match(1)) { f(); }",
        "for (let i = 0; i < n; i = i + 1) f(i);",
        "for (;;) { }",
        "label: while (true) ;",
        "a.enum + a['enum'] + a.match(re).not;",
        "const o = { enum: 1, match: 2, not: 3, if: 4 };",
        "x as string | number[]; y satisfies ('a' | 1); z!;",
        "a ? b : c ? d : e;",
        "export const a = 1; export default match(1);",
        "s = '..='; // ..=",
        "1..toString()",
        "not`x`; not `a${b}c${not}d`; match`y`;",
        "const t = `a${f(`b${1}`)}`.length;",
    ] {
        let off = module(src, false);
        assert!(off.is_some(), "{src:?} is TypeScript");
        assert_eq!(module(src, true), off, "{src:?}");
    }
}

#[test]
fn enums_are_where_zts_is_no_superset() {
    let src = "enum Color { Red, Green = 2 }";
    assert!(module(src, false).is_some());
    assert!(module(src, true).is_none());
    // An enum without members is accepted either way, as another node.
    let src = "enum Empty {}";
    assert_ne!(module(src, false), module(src, true));
}

#[test]
fn nothing_of_zts_is_accepted_without_zts() {
    for src in [
        "const a = if (b) { 1 } else { 2 };",
        "match (x) { A { a } => a }",
        "not x",
        "newtype A = string;",
        "export newtype A = string;",
        "enum E { A { v: number } }",
        "1..=3",
    ] {
        assert!(module(src, false).is_none(), "{src:?}");
    }
    let mut p = Parser::new("const enum E { A }", syntax(false));
    assert!(p.parse_module().is_ok());
    assert!(p.take_errors().is_empty());
}

#[test]
fn a_header_needs_its_brace_on_the_line_and_an_arm() {
    for (src, is_match) in [
        ("match (x) { A { a } => a }", true),
        ("match (x) {\nA { a } => a }", true),
        ("match (x) { 'a' => 1 }", true),
        ("match (x) { 1 => 1 }", true),
        ("match (x) { -1 => 1 }", true),
        ("match (x) { true => 1 }", true),
        ("match (x) { null => 1 }", true),
        ("match (x)\n{ A { a } => a }", false),
        ("match (x) {}", false),
        ("match (x) { }", false),
        ("match (x) { 1n }", false),
        ("match () { A { a } => a }", false),
        ("match (x,) { A { a } => a }", false),
        ("match [x] { A { a } => a }", false),
    ] {
        assert_eq!(expr(src).is_match_expr(), is_match, "{src:?}");
    }
    // A comma sequence is an expression, so it can be matched.
    assert!(expr("match (x, y) { A { a } => a }")
        .expect_match_expr()
        .discriminant
        .is_seq());
}

#[test]
fn match_works_inside_larger_expressions() {
    let e = expr("1 + match (x) { A { a } => a } * 2");
    let sum = e.as_bin().unwrap();
    let product = sum.right.as_bin().unwrap();
    assert!(product.left.is_match_expr());
    assert!(expr("match (x) { A { a } => a }.b").is_member());
    assert!(expr("match (match (x) { A { a } => a }) { B { b } => b }")
        .expect_match_expr()
        .discriminant
        .is_match_expr());
    assert!(expr("f(match (x) { A { a } => a })").is_call());
}

#[test]
fn a_match_spans_its_text() {
    let e = expr("match (x) { A { a } => a }");
    assert_eq!((e.span().lo.0, e.span().hi.0), (1, 27));
    let m = e.expect_match_expr();
    let arm = &m.arms[0];
    assert_eq!((arm.span.lo.0, arm.span.hi.0), (13, 25));
    let v = arm.pattern.as_variant().unwrap();
    assert_eq!((v.span.lo.0, v.span.hi.0), (13, 20));
    let b = v.binding.as_ref().unwrap();
    assert_eq!((b.span.lo.0, b.span.hi.0), (15, 20));
}

#[test]
fn underscore_with_bindings_is_a_variant() {
    let e = expr("match (x) { _ { a } => a }");
    let m = e.expect_match_expr();
    assert!(m.arms[0].pattern.is_variant());
}

#[test]
fn not_binds_like_a_bang() {
    let e = expr("not a && b");
    let bin = e.as_bin().unwrap();
    assert_eq!(bin.op, BinaryOp::LogicalAnd);
    let u = bin.left.as_unary().unwrap();
    assert_eq!(u.op, UnaryOp::Bang);
    assert_eq!((u.span.lo.0, u.span.hi.0), (1, 6));
    for src in ["not in x", "not satisfies T", "not!", "not[0]", "not, 1", "not of"] {
        assert!(!expr(src).is_unary(), "{src:?}");
    }
    for src in ["not 'a'", "not 1n", "not null", "not this_", "not if_", "not match"] {
        assert!(expr(src).is_unary(), "{src:?}");
    }
}

#[test]
fn a_const_enum_means_what_the_enum_means() {
    let mut p = Parser::new("const enum E { A { v: number }, B {} }", syntax(true));
    let m = p.parse_module().unwrap();
    let c = m.body[0].as_stmt().unwrap().as_decl().unwrap().as_zts_enum().unwrap();
    assert_eq!(c.ident.sym, "E");
    assert_eq!(c.variants.len(), 2);
    assert_eq!((c.span.lo.0, c.span.hi.0), (1, 39));
    assert_eq!(p.take_errors().len(), 1);
}

#[test]
fn an_enum_is_no_single_statement() {
    for head in ["if (c) ", "while (c) ", "for (;;) ", "label: ", "if (c) ; else "] {
        assert!(module(&format!("{head}enum E {{ A {{}} }}"), true).is_none(), "{head}");
        assert!(module(&format!("{head}{{ enum E {{ A {{}} }} }}"), true).is_some(), "{head}");
    }
}

#[test]
fn a_block_takes_its_value_from_its_last_expression() {
    let e = expr("if (a) { f(); const x = 1; x + 1; } else { g() }");
    let i = e.expect_zts_if();
    assert_eq!(i.cons.stmts.len(), 2);
    assert!(i.cons.tail.is_bin());
    match &i.alt {
        ZtsIfAlt::Block(b) => assert!(b.tail.is_call()),
        ZtsIfAlt::If(_) => panic!("no chain"),
    }
}

#[test]
fn an_object_literal_as_a_body_needs_parentheses() {
    let e = expr("match (s) { A { a } => ({ a }) }");
    let m = e.expect_match_expr();
    assert!(m.arms[0].body.is_paren());
    // A statement before the tail, or a tail that is no bare identifier, is fine.
    assert!(expr("match (s) { A { a } => { f(); a } }").is_match_expr());
    assert!(expr("match (s) { A { a } => { a, 1 } }").is_match_expr());
}

#[test]
fn bare_identifiers_are_told_from_other_expressions() {
    for (src, bare) in [
        ("a", true),
        ("a, b", true),
        ("a, b, c", true),
        ("a, 1", false),
        ("(a)", false),
        ("1", false),
        ("a.b", false),
    ] {
        assert_eq!(expr_is_bare_idents(&expr(src)), bare, "{src:?}");
    }
}

#[test]
fn an_if_at_the_start_of_a_statement_is_a_statement() {
    let m = module("if (a) { 1 } else { 2 }", true).unwrap();
    assert!(matches!(m.body[0].as_stmt().unwrap(), Stmt::If(..)));
    let m = module("x = if (a) { 1 } else { 2 }", true).unwrap();
    assert!(m.body[0].as_stmt().unwrap().as_expr().unwrap().expr.is_assign());
}

#[test]
fn long_else_if_chains_do_not_crash() {
    let n = 1000;
    let src = format!("const a = {}{{ 2 }};", "if (b) { 1 } else ".repeat(n));
    assert!(module(&src, true).is_some());
}

#[test]
fn operators_group_by_how_tightly_they_bind() {
    // Each operator binds more tightly than the ones before it.
    let levels = ["||", "&&", "|", "^", "&", "==", "<", "<<", "+", "*", "**"];
    for w in levels.windows(2) {
        let e = expr(&format!("a {} b {} c", w[0], w[1]));
        let bin = e.as_bin().unwrap();
        assert!(bin.left.is_ident() && bin.right.is_bin(), "{w:?}");
        let e = expr(&format!("a {} b {} c", w[1], w[0]));
        let bin = e.as_bin().unwrap();
        assert!(bin.left.is_bin() && bin.right.is_ident(), "{w:?}");
    }
    assert!(expr("a - b - c").as_bin().unwrap().left.is_bin());
    assert!(expr("a ** b ** c").as_bin().unwrap().right.is_bin());
    assert!(expr("a + b as T").is_ts_as());
    assert!(expr("a == b as T").as_bin().unwrap().right.is_ts_as());
    assert!(expr("a = b = c").as_assign().unwrap().right.is_assign());
    assert!(expr("not a ** b").as_bin().unwrap().left.is_unary());
}

#[test]
fn a_template_behind_not_has_it_as_its_tag() {
    let e = expr("not`a${x}b`");
    let t = e.as_tagged_tpl().unwrap();
    assert!(t.tag.is_ident());
    assert_eq!(t.tpl.exprs.len(), 1);
    assert_eq!(t.tpl.quasis.len(), 2);
    assert_eq!(t.tpl.quasis[0].raw, "`a${");
    assert!(!t.tpl.quasis[0].tail && t.tpl.quasis[1].tail);
    assert_eq!((e.span().lo.0, e.span().hi.0), (1, 12));
    assert!(expr("not `a`").as_tagged_tpl().is_some());
    assert!(expr("not\n`a`").as_tagged_tpl().is_some());
    // Without a tag it is a template, and `not` can negate what has one.
    assert!(expr("`a`").is_tpl());
    assert!(expr("not f`a`").as_unary().unwrap().arg.as_tagged_tpl().is_some());
}

#[test]
fn copies_are_equal() {
    let src = "
        enum Shape { Circle { radius: number | string[] }, Square {} }
        newtype Id = (string);
        const { a, b: c = 1, ...d } = match (x) { 'a' => `t${f(1)}`, _ => { g(); not 1n }, };
        label: for (let i = 0; i < 3; i = i + 1) if (a.b[c]!) { ; } else while (true) h(() => 1);
        export const e = if (a ? b : c) { ({ k: [1, 2] }) } else if (b) { x as any } else { 2 };
        export default (y, z) => { y; };
    ";
    let m = module(src, true).unwrap();
    assert_eq!(m.clone(), m);
    let m = module("enum Color { Red, Green = 2 }", false).unwrap();
    assert_eq!(m.clone(), m);
}

#[test]
fn a_comma_behind_the_last_element_changes_nothing() {
    let variants = |src: &str| {
        let m = module(src, true).unwrap();
        let e = m.body[0].as_stmt().unwrap().as_decl().unwrap().as_zts_enum().unwrap().clone();
        (e.span.hi.0, e.variants)
    };
    let (end, list) = variants("enum E { A { x: number }, B {} }");
    let (end2, list2) = variants("enum E { A { x: number }, B {}, }");
    assert_eq!((end + 1, list), (end2, list2));

    let mut p = Parser::new("V { a: A[], b: B | C }", syntax(true));
    let v = p.parse_zts_enum_variant().unwrap();
    assert_eq!(p.cur(), Token::Eof);
    let mut p = Parser::new("V { a: A[], b: B | C, }", syntax(true));
    let v2 = p.parse_zts_enum_variant().unwrap();
    assert_eq!(p.cur(), Token::Eof);
    assert_eq!((v.name, v.fields), (v2.name, v2.fields));

    let arms = |src: &str| expr(src).expect_match_expr().arms;
    assert_eq!(
        arms("match (x) { A { a } => a ? (b) : c, _ => { f(), 1 } }"),
        arms("match (x) { A { a } => a ? (b) : c, _ => { f(), 1 }, }")
    );
}

#[test]
fn a_failed_attempt_is_remembered_and_changes_nothing() {
    // The same word is tried as a header in two readings of the parentheses.
    let e = expr("(match(1))");
    assert!(e.is_paren());
    let mut p = Parser::new("match(1) + 2", syntax(true));
    let start = p.cur_pos();
    assert!(p.is_zts_match_keyword());
    assert!(p.try_parse_zts_match_expr(start).is_none());
    assert_eq!(p.cur_pos(), start);
    assert!(p.try_parse_zts_match_expr(start).is_none());
    assert!(p.parse_expr().unwrap().is_bin());
}

#[test]
fn phrases_can_be_parsed_on_their_own() {
    let mut p = Parser::new("A { a, b: c } => a + c, rest", syntax(true));
    let arm = p.parse_zts_match_arm().unwrap();
    assert_eq!(arm.pattern.as_variant().unwrap().name.sym, "A");
    assert!(arm.body.is_bin());
    assert_eq!(p.cur(), Token::Comma);
    let mut p = Parser::new("{ f(); 1 } rest", syntax(true));
    let block = p.parse_zts_expr_block().unwrap();
    assert_eq!(block.stmts.len(), 1);
    assert!(block.tail.is_lit());
    let mut p = Parser::new("if (a) { 1 } else { 2 }", syntax(true));
    let start = p.cur_pos();
    assert!(p.parse_zts_if_expr(start).unwrap().is_zts_if());
    let mut p = Parser::new("Id = number", syntax(true));
    let start = p.cur_pos();
    assert!(p.parse_zts_newtype_decl(start).unwrap().is_zts_newtype());
    let mut p = Parser::new("E { A { v: number } }", syntax(true));
    let start = p.cur_pos();
    assert!(p.parse_any_enum_decl(start, false).unwrap().is_zts_enum());
    assert!(!Parser::new("not(x)", syntax(true)).is_zts_not_operator());
    assert!(Parser::new("not x", syntax(true)).is_zts_not_operator());
    assert!(!Parser::new("not x", syntax(false)).is_zts_not_operator());
}

#[test]
fn newtypes_have_their_name_on_the_line() {
    let first = |src: &str| {
        let m = module(src, true).unwrap();
        let s = m.body.into_iter().next().unwrap();
        s.as_stmt().and_then(|s| s.as_decl()).is_some_and(|d| d.is_zts_newtype())
    };
    assert!(first("newtype A = string"));
    assert!(first("newtype A = string[] | number;"));
    assert!(first("newtype of = string;"));
    assert!(first("newtype newtype = (string);"));
    assert!(!first("newtype\nA"));
    assert!(!first("newtype: while (1) ;"));
    // `as` behind an identifier is an operator.
    assert!(!first("newtype as string;"));
}

#[test]
fn an_expression_that_is_an_identifier_is_one_token() {
    for src in ["a", "match", "not", "newtype", "declare", "of", "as"] {
        let e = expr(src);
        assert!(e.is_ident(), "{src}");
        assert_eq!((e.span().lo.0, e.span().hi.0), (1, 1 + src.len() as u32));
    }
    assert!(!expr("(a)").is_ident());
}

#[test]
fn the_parts_of_the_language_work_together() {
    let src = "
        enum Shape { Circle { radius: number }, Square { side: number } }
        newtype AccountId = string;

        const area = match (shape) {
          Circle { radius } => radius ** 2,
          Square { side } => { const s = side * side; s + 0 },
        };
        const label = if (not ready) { 'wait' } else { 'go' };
    ";
    assert_eq!(module(src, true).unwrap().body.len(), 4);
}
