//! Statements and modules.
use crate::ast::decl::{Decl, VarDecl, VarDeclKind, VarDeclarator};
use crate::ast::expr::Expr;
use crate::ast::stmt::{
    module_item_trees, BlockStmt, EmptyStmt, ExportDecl, ExportDefaultExpr, ExprStmt, ForStmt,
    IfStmt, LabeledStmt, Module, ModuleDecl, ModuleItem, Stmt, VarDeclOrExpr, WhileStmt,
};
use crate::atom::atom_is;
use crate::error::{Error, PResult, SyntaxError};
use crate::grammar::{is_ident_named, var_kind, Gram};
use crate::parser::input::{lemma_listed, lemma_listed_end, listed, yields, yields_list, Parser};
use crate::span::{BytePos, SyntaxContext};
use crate::token::Token;
use crate::tree::trees;
use vstd::prelude::*;

verus! {

/// The word that a declaration of variables starts with.
fn as_var_kind(t: Token) -> (k: Option<VarDeclKind>)
    ensures
        k == var_kind(t),
        k is Some ==> t != Token::Eof,
{
    reveal(var_kind);
    match t {
        Token::Var => Some(VarDeclKind::Var),
        Token::Let => Some(VarDeclKind::Let),
        Token::Const => Some(VarDeclKind::Const),
        _ => None,
    }
}

/// Whether an expression is the identifier `w`.
fn is_ident_expr(e: &Expr, w: &str) -> (b: bool)
    ensures
        b == is_ident_named(e.tree(), w@),
{
    proof {
        e.lemma_label();
        e.lemma_tree();
    }
    match e {
        Expr::Ident(i) => atom_is(&i.sym, w),
        _ => false,
    }
}

/// A declaration as a statement.
fn as_stmt(r: PResult<Decl>) -> (s: PResult<Stmt>)
    ensures
        match r {
            Ok(d) => s matches Ok(x) && x.tree() == d.tree(),
            Err(e) => s == Err::<Stmt, Error>(e),
        },
{
    match r {
        Ok(d) => {
            let s = Stmt::Decl(d);
            proof {
                s.lemma_tree();
            }
            Ok(s)
        },
        Err(e) => Err(e),
    }
}

impl Parser {
    /// Parses `{ stmts }`.
    pub fn parse_block(&mut self) -> (r: PResult<BlockStmt>)
        requires
            old(self).wf(),
        ensures
            final(self).wf(),
            yields(old(self)@, final(self)@, r, old(self)@.g().block(old(self)@.pos)),
        decreases old(self)@.rem(), 0nat,
    {
        reveal(Gram::block);
        reveal(Gram::stmts);
        let start = self.cur_pos();
        match self.expect(Token::LBrace) {
            Ok(()) => {},
            Err(e) => return Err(e),
        }
        let stmts = match self.parse_stmts() {
            Ok(x) => x,
            Err(e) => return Err(e),
        };
        match self.expect(Token::RBrace) {
            Ok(()) => {},
            Err(e) => return Err(e),
        }
        let x = BlockStmt { span: self.span(start), ctxt: SyntaxContext::empty(), stmts };
        proof {
            x.lemma_tree();
        }
        Ok(x)
    }

    /// Parses the statements of a block, up to the closing brace.
    fn parse_stmts(&mut self) -> (r: PResult<Vec<Stmt>>)
        requires
            old(self).wf(),
        ensures
            final(self).wf(),
            yields_list(old(self)@, final(self)@, r, old(self)@.g().stmts(old(self)@.pos)),
        decreases old(self)@.rem(), 24nat,
    {
        reveal(Gram::stmts);
        reveal(Gram::stmt);
        let ghost pre = self@;
        let ghost g = pre.g();
        let ghost whole = g.stmts(pre.pos);
        let ghost mut errs: Seq<Error> = Seq::empty();
        let mut v: Vec<Stmt> = Vec::new();
        #[verifier::loop_isolation(false)]
        while !self.is(Token::RBrace) && !self.is(Token::Eof)
            invariant
                self.wf(),
                pre.later(self@, errs),
                self@.pos >= pre.pos,
                listed(whole, g.stmts(self@.pos), v@, errs),
            decreases self@.rem(),
        {
            let ghost i = self@.pos;
            let ghost b = g.stmt(i, true);
            let e = match self.parse_stmt(true) {
                Ok(e) => e,
                Err(e) => return Err(e),
            };
            proof {
                lemma_listed(whole, g.stmts(i), g.stmts(b.next), v@, e, b, errs);
                errs = errs + b.errs;
            }
            v.push(e);
        }
        proof {
            lemma_listed_end(whole, self@.pos, v@, errs);
        }
        Ok(v)
    }

    /// Parses a statement. `top` says whether declarations may stand here.
    pub fn parse_stmt(&mut self, top: bool) -> (r: PResult<Stmt>)
        requires
            old(self).wf(),
        ensures
            final(self).wf(),
            yields(old(self)@, final(self)@, r, old(self)@.g().stmt(old(self)@.pos, top)),
        decreases old(self)@.rem(), 20nat,
    {
        reveal(Gram::stmt);
        reveal(Gram::any_enum);
        reveal(Gram::block);
        reveal(Gram::expr_stmt);
        reveal(Gram::for_stmt);
        reveal(Gram::if_stmt);
        reveal(Gram::var_stmt);
        reveal(Gram::while_stmt);
        let start = self.cur_pos();
        let t = self.cur();
        if t == Token::LBrace {
            match self.parse_block() {
                Ok(x) => {
                    let s = Stmt::Block(x);
                    proof {
                        s.lemma_tree();
                    }
                    Ok(s)
                },
                Err(e) => Err(e),
            }
        } else if t == Token::Semi {
            self.bump();
            let s = Stmt::Empty(EmptyStmt { span: self.span(start) });
            proof {
                s.lemma_tree();
            }
            Ok(s)
        } else if t == Token::If {
            match self.parse_if_stmt() {
                Ok(x) => {
                    let s = Stmt::If(x);
                    proof {
                        s.lemma_tree();
                    }
                    Ok(s)
                },
                Err(e) => Err(e),
            }
        } else if t == Token::While {
            match self.parse_while_stmt() {
                Ok(x) => {
                    let s = Stmt::While(x);
                    proof {
                        s.lemma_tree();
                    }
                    Ok(s)
                },
                Err(e) => Err(e),
            }
        } else if t == Token::For {
            match self.parse_for_stmt() {
                Ok(x) => {
                    let s = Stmt::For(x);
                    proof {
                        s.lemma_tree();
                    }
                    Ok(s)
                },
                Err(e) => Err(e),
            }
        } else if t == Token::Enum || t == Token::Const || t == Token::Let {
            if !top {
                Err(Error::new(self.cur_span(), SyntaxError::DeclNotAllowed))
            } else if t == Token::Enum {
                self.bump();
                match self.parse_any_enum_decl(start, false) {
                    Ok(x) => {
                        let s = Stmt::Decl(x);
                        proof {
                            s.lemma_tree();
                        }
                        Ok(s)
                    },
                    Err(e) => Err(e),
                }
            } else if t == Token::Const && self.peek() == Token::Enum {
                self.bump();
                self.bump();
                match self.parse_any_enum_decl(start, true) {
                    Ok(x) => {
                        let s = Stmt::Decl(x);
                        proof {
                            s.lemma_tree();
                        }
                        Ok(s)
                    },
                    Err(e) => Err(e),
                }
            } else {
                match self.parse_var_stmt() {
                    Ok(x) => {
                        let s = Stmt::Decl(x);
                        proof {
                            s.lemma_tree();
                        }
                        Ok(s)
                    },
                    Err(e) => Err(e),
                }
            }
        } else if t == Token::Var {
            match self.parse_var_stmt() {
                Ok(x) => {
                    let s = Stmt::Decl(x);
                    proof {
                        s.lemma_tree();
                    }
                    Ok(s)
                },
                Err(e) => Err(e),
            }
        } else {
            self.parse_expr_stmt(top)
        }
    }

    /// Parses a parenthesized expression in the head of a statement.
    fn parse_head(&mut self) -> (r: PResult<Box<Expr>>)
        requires
            old(self).wf(),
        ensures
            final(self).wf(),
            yields(old(self)@, final(self)@, r, old(self)@.g().head(old(self)@.pos)),
        decreases old(self)@.rem(), 0nat,
    {
        reveal(Gram::head);
        reveal(Gram::expr);
        match self.expect(Token::LParen) {
            Ok(()) => {},
            Err(e) => return Err(e),
        }
        let e = match self.parse_expr() {
            Ok(x) => x,
            Err(e) => return Err(e),
        };
        match self.expect(Token::RParen) {
            Ok(()) => {},
            Err(e) => return Err(e),
        }
        Ok(e)
    }

    /// Parses `if (test) cons else alt`.
    fn parse_if_stmt(&mut self) -> (r: PResult<IfStmt>)
        requires
            old(self).wf(),
        ensures
            final(self).wf(),
            yields(old(self)@, final(self)@, r, old(self)@.g().if_stmt(old(self)@.pos)),
        decreases old(self)@.rem(), 0nat,
    {
        reveal(Gram::if_stmt);
        reveal(Gram::head);
        reveal(Gram::expr);
        reveal(Gram::stmt);
        let start = self.cur_pos();
        match self.expect(Token::If) {
            Ok(()) => {},
            Err(e) => return Err(e),
        }
        let test = match self.parse_head() {
            Ok(x) => x,
            Err(e) => return Err(e),
        };
        let cons = match self.parse_stmt(false) {
            Ok(x) => x,
            Err(e) => return Err(e),
        };
        let alt = if self.eat(Token::Else) {
            match self.parse_stmt(false) {
                Ok(x) => Some(Box::new(x)),
                Err(e) => return Err(e),
            }
        } else {
            None
        };
        let cons = Box::new(cons);
        let x = IfStmt { span: self.span(start), test, cons, alt };
        proof {
            x.lemma_tree();
        }
        Ok(x)
    }

    /// Parses `while (test) body`.
    fn parse_while_stmt(&mut self) -> (r: PResult<WhileStmt>)
        requires
            old(self).wf(),
        ensures
            final(self).wf(),
            yields(old(self)@, final(self)@, r, old(self)@.g().while_stmt(old(self)@.pos)),
        decreases old(self)@.rem(), 0nat,
    {
        reveal(Gram::while_stmt);
        reveal(Gram::head);
        reveal(Gram::expr);
        reveal(Gram::stmt);
        let start = self.cur_pos();
        match self.expect(Token::While) {
            Ok(()) => {},
            Err(e) => return Err(e),
        }
        let test = match self.parse_head() {
            Ok(x) => x,
            Err(e) => return Err(e),
        };
        let body = match self.parse_stmt(false) {
            Ok(x) => x,
            Err(e) => return Err(e),
        };
        let body = Box::new(body);
        let x = WhileStmt { span: self.span(start), test, body };
        proof {
            x.lemma_tree();
        }
        Ok(x)
    }

    /// Parses an expression up to a token, or nothing where the token comes at once.
    fn parse_opt_expr(&mut self, stop: Token) -> (r: PResult<Option<Box<Expr>>>)
        requires
            old(self).wf(),
        ensures
            final(self).wf(),
            yields_list(old(self)@, final(self)@, r, old(self)@.g().opt_expr(old(self)@.pos, stop)),
            r is Ok ==> final(self)@.g().kind(final(self)@.pos) == stop,
        decreases old(self)@.rem(), 16nat,
    {
        reveal(Gram::opt_expr);
        reveal(Gram::expr);
        if self.is(stop) {
            return Ok(None);
        }
        match self.parse_expr() {
            Ok(e) => {
                if !self.is(stop) {
                    return Err(
                        Error::new(self.cur_span(), SyntaxError::Expected(stop, self.cur())),
                    );
                }
                Ok(Some(e))
            },
            Err(e) => Err(e),
        }
    }

    /// Parses what a `for` statement starts with, up to the semicolon.
    fn parse_for_init(&mut self) -> (r: PResult<Option<VarDeclOrExpr>>)
        requires
            old(self).wf(),
        ensures
            final(self).wf(),
            yields_list(old(self)@, final(self)@, r, old(self)@.g().for_init(old(self)@.pos)),
            r is Ok ==> final(self)@.g().kind(final(self)@.pos) == Token::Semi,
        decreases old(self)@.rem(), 18nat,
    {
        reveal(Gram::for_init);
        reveal(Gram::opt_expr);
        reveal(Gram::var_decl);
        if as_var_kind(self.cur()).is_some() {
            match self.parse_var_decl() {
                Ok(v) => {
                    if !self.is(Token::Semi) {
                        return Err(
                            Error::new(
                                self.cur_span(),
                                SyntaxError::Expected(Token::Semi, self.cur()),
                            ),
                        );
                    }
                    let i = VarDeclOrExpr::VarDecl(Box::new(v));
                    proof {
                        i.lemma_tree();
                    }
                    Ok(Some(i))
                },
                Err(e) => Err(e),
            }
        } else {
            match self.parse_opt_expr(Token::Semi) {
                Ok(Some(e)) => {
                    let i = VarDeclOrExpr::Expr(e);
                    proof {
                        i.lemma_tree();
                    }
                    Ok(Some(i))
                },
                Ok(None) => Ok(None),
                Err(e) => Err(e),
            }
        }
    }

    /// Parses `for (init; test; update) body`.
    #[verifier::rlimit(30)]
    fn parse_for_stmt(&mut self) -> (r: PResult<ForStmt>)
        requires
            old(self).wf(),
        ensures
            final(self).wf(),
            yields(old(self)@, final(self)@, r, old(self)@.g().for_stmt(old(self)@.pos)),
        decreases old(self)@.rem(), 0nat,
    {
        reveal(Gram::for_stmt);
        reveal(Gram::for_init);
        reveal(Gram::opt_expr);
        reveal(Gram::stmt);
        let start = self.cur_pos();
        match self.expect(Token::For) {
            Ok(()) => {},
            Err(e) => return Err(e),
        }
        match self.expect(Token::LParen) {
            Ok(()) => {},
            Err(e) => return Err(e),
        }
        let init = match self.parse_for_init() {
            Ok(x) => x,
            Err(e) => return Err(e),
        };
        self.bump();
        let test = match self.parse_opt_expr(Token::Semi) {
            Ok(x) => x,
            Err(e) => return Err(e),
        };
        self.bump();
        let update = match self.parse_opt_expr(Token::RParen) {
            Ok(x) => x,
            Err(e) => return Err(e),
        };
        self.bump();
        let body = match self.parse_stmt(false) {
            Ok(x) => x,
            Err(e) => return Err(e),
        };
        let body = Box::new(body);
        let x = ForStmt { span: self.span(start), init, test, update, body };
        proof {
            x.lemma_tree();
        }
        Ok(x)
    }

    /// Parses `const a = 1, b = 2`.
    fn parse_var_decl(&mut self) -> (r: PResult<VarDecl>)
        requires
            old(self).wf(),
        ensures
            final(self).wf(),
            yields(old(self)@, final(self)@, r, old(self)@.g().var_decl(old(self)@.pos)),
        decreases old(self)@.rem(), 0nat,
    {
        reveal(Gram::var_decl);
        reveal(Gram::declarators);
        let start = self.cur_pos();
        let kind = match as_var_kind(self.cur()) {
            Some(kind) => kind,
            None => return Err(
                Error::new(self.cur_span(), SyntaxError::Expected(Token::Var, self.cur())),
            ),
        };
        self.bump();
        let decls = match self.parse_var_declarators() {
            Ok(x) => x,
            Err(e) => return Err(e),
        };
        let x = VarDecl {
            span: self.span(start),
            ctxt: SyntaxContext::empty(),
            kind,
            declare: false,
            decls,
        };
        proof {
            x.lemma_tree();
        }
        Ok(x)
    }

    /// Parses `a = 1, b = 2`.
    fn parse_var_declarators(&mut self) -> (r: PResult<Vec<VarDeclarator>>)
        requires
            old(self).wf(),
        ensures
            final(self).wf(),
            yields_list(old(self)@, final(self)@, r, old(self)@.g().declarators(old(self)@.pos)),
        decreases old(self)@.rem(), 10nat,
    {
        reveal(Gram::declarators);
        reveal(Gram::declarator);
        let ghost pre = self@;
        let ghost g = pre.g();
        let ghost whole = g.declarators(pre.pos);
        let ghost mut errs: Seq<Error> = Seq::empty();
        let mut v: Vec<VarDeclarator> = Vec::new();
        #[verifier::loop_isolation(false)]
        loop
            invariant
                self.wf(),
                pre.later(self@, errs),
                self@.pos >= pre.pos,
                listed(whole, g.declarators(self@.pos), v@, errs),
            decreases self@.rem(),
        {
            let ghost i = self@.pos;
            let ghost b = g.declarator(i);
            let e = match self.parse_var_declarator() {
                Ok(e) => e,
                Err(e) => return Err(e),
            };
            proof {
                lemma_listed(whole, g.declarators(i), g.declarators(b.next + 1), v@, e, b, errs);
                errs = errs + b.errs;
            }
            v.push(e);
            if !self.eat(Token::Comma) {
                return Ok(v);
            }
        }
    }

    /// Parses `a = 1`.
    fn parse_var_declarator(&mut self) -> (r: PResult<VarDeclarator>)
        requires
            old(self).wf(),
        ensures
            final(self).wf(),
            yields(old(self)@, final(self)@, r, old(self)@.g().declarator(old(self)@.pos)),
        decreases old(self)@.rem(), 8nat,
    {
        reveal(Gram::declarator);
        reveal(Gram::assign);
        reveal(Gram::binding);
        let start = self.cur_pos();
        let name = match self.parse_binding() {
            Ok(x) => x,
            Err(e) => return Err(e),
        };
        let init = if self.eat(Token::Eq) {
            match self.parse_assignment_expr() {
                Ok(x) => Some(x),
                Err(e) => return Err(e),
            }
        } else {
            None
        };
        let x = VarDeclarator { span: self.span(start), name, init, definite: false };
        proof {
            x.lemma_tree();
        }
        Ok(x)
    }

    /// Parses `const a = 1;`.
    fn parse_var_stmt(&mut self) -> (r: PResult<Decl>)
        requires
            old(self).wf(),
        ensures
            final(self).wf(),
            yields(old(self)@, final(self)@, r, old(self)@.g().var_stmt(old(self)@.pos)),
        decreases old(self)@.rem(), 2nat,
    {
        reveal(Gram::var_stmt);
        reveal(Gram::var_decl);
        let start = self.cur_pos();
        let v = match self.parse_var_decl() {
            Ok(x) => x,
            Err(e) => return Err(e),
        };
        match self.expect_general_semi() {
            Ok(()) => {},
            Err(e) => return Err(e),
        }
        let x = VarDecl {
            span: self.span(start),
            ctxt: v.ctxt,
            kind: v.kind,
            declare: v.declare,
            decls: v.decls,
        };
        let d = Decl::Var(Box::new(x));
        proof {
            v.lemma_tree();
            x.lemma_tree();
            d.lemma_tree();
        }
        Ok(d)
    }

    /// Whether the current word is `newtype` and declares what follows it.
    fn is_newtype_ahead(&self) -> (b: bool)
        requires
            self.live(),
        ensures
            b == self@.g().newtype_ahead(self@.pos),
            b ==> self@.g().kind(self@.pos) != Token::Eof,
    {
        reveal(Gram::newtype_ahead);
        self.syntax().zts() && self.cur().is_ident_like() && self.cur_text_is("newtype")
            && self.peek().is_ident_like() && !self.has_linebreak_between_cur_and_peeked()
    }

    /// Parses an enum behind `declare enum` or `declare const enum`.
    fn parse_declared_enum(&mut self, start: BytePos, is_const: bool) -> (r: PResult<Decl>)
        requires
            old(self).wf(),
        ensures
            final(self).wf(),
            yields(
                old(self)@,
                final(self)@,
                r,
                old(self)@.g().any_enum(old(self)@.pos, start, is_const, true),
            ),
        decreases old(self)@.rem(), 17nat,
    {
        self.set_declare(true);
        let r = self.parse_any_enum_decl(start, is_const);
        self.set_declare(false);
        r
    }

    /// Parses a newtype behind `declare newtype`.
    fn parse_declared_newtype(&mut self, start: BytePos) -> (r: PResult<Decl>)
        requires
            old(self).wf(),
        ensures
            final(self).wf(),
            yields(
                old(self)@,
                final(self)@,
                r,
                old(self)@.g().newtype(old(self)@.pos, start, true),
            ),
    {
        self.set_declare(true);
        let r = self.parse_zts_newtype_decl(start);
        self.set_declare(false);
        r
    }

    /// Parses a statement that starts with an expression.
    #[verifier::rlimit(30)]
    fn parse_expr_stmt(&mut self, top: bool) -> (r: PResult<Stmt>)
        requires
            old(self).wf(),
        ensures
            final(self).wf(),
            yields(old(self)@, final(self)@, r, old(self)@.g().expr_stmt(old(self)@.pos, top)),
        decreases old(self)@.rem(), 18nat,
    {
        reveal(Gram::expr_stmt);
        reveal(Gram::any_enum);
        reveal(Gram::expr);
        reveal(Gram::stmt);
        let start = self.cur_pos();
        let e = match self.parse_expr() {
            Ok(x) => x,
            Err(e) => return Err(e),
        };
        proof {
            e.lemma_label();
            e.lemma_tree();
        }
        if e.is_ident() && self.is(Token::Colon) {
            self.bump();
            let body = match self.parse_stmt(false) {
                Ok(x) => Box::new(x),
                Err(e) => return Err(e),
            };
            return match *e {
                Expr::Ident(label) => {
                    let x = LabeledStmt { span: self.span(start), label, body };
                    proof {
                        x.lemma_tree();
                        Stmt::Labeled(x).lemma_tree();
                    }
                    Ok(Stmt::Labeled(x))
                },
                _ => Err(Error::new(self.cur_span(), SyntaxError::ExpectedIdent)),
            };
        }
        if top && is_ident_expr(&e, "declare") && !self.had_line_break_before_cur() {
            if self.is(Token::Enum) {
                self.bump();
                return as_stmt(self.parse_declared_enum(start, false));
            }
            if self.is(Token::Const) && self.peek() == Token::Enum {
                self.bump();
                self.bump();
                return as_stmt(self.parse_declared_enum(start, true));
            }
            if self.is_newtype_ahead() {
                self.bump();
                return as_stmt(self.parse_declared_newtype(start));
            }
        }
        if self.syntax().zts() && top && is_ident_expr(&e, "newtype")
            && !self.had_line_break_before_cur() && self.cur().is_ident_like() {
            return as_stmt(self.parse_zts_newtype_decl(start));
        }
        match self.expect_general_semi() {
            Ok(()) => {},
            Err(e) => return Err(e),
        }
        let x = ExprStmt { span: self.span(start), expr: e };
        proof {
            x.lemma_tree();
            Stmt::Expr(x).lemma_tree();
        }
        Ok(Stmt::Expr(x))
    }

    /// Parses a module, up to the end of the source text.
    pub fn parse_module(&mut self) -> (r: PResult<Module>)
        requires
            old(self).wf(),
        ensures
            final(self).wf(),
            yields_list(old(self)@, final(self)@, r, old(self)@.g().module(old(self)@.pos)),
    {
        reveal(Gram::module);
        let start = self.cur_pos();
        let body = match self.parse_module_items() {
            Ok(x) => x,
            Err(e) => return Err(e),
        };
        let m = Module { span: self.span(start), body };
        proof {
            assert(module_item_trees(m.body@) =~= trees(m.body@));
        }
        Ok(m)
    }

    /// Parses the items of a module.
    fn parse_module_items(&mut self) -> (r: PResult<Vec<ModuleItem>>)
        requires
            old(self).wf(),
        ensures
            final(self).wf(),
            yields_list(old(self)@, final(self)@, r, old(self)@.g().items(old(self)@.pos)),
    {
        reveal(Gram::items);
        let ghost pre = self@;
        let ghost g = pre.g();
        let ghost whole = g.items(pre.pos);
        let ghost mut errs: Seq<Error> = Seq::empty();
        let mut v: Vec<ModuleItem> = Vec::new();
        #[verifier::loop_isolation(false)]
        while !self.is(Token::Eof)
            invariant
                self.wf(),
                pre.later(self@, errs),
                self@.pos >= pre.pos,
                listed(whole, g.items(self@.pos), v@, errs),
            decreases self@.rem(),
        {
            let ghost i = self@.pos;
            let ghost b = g.item(i);
            let e = match self.parse_module_item() {
                Ok(e) => e,
                Err(e) => return Err(e),
            };
            proof {
                lemma_listed(whole, g.items(i), g.items(b.next), v@, e, b, errs);
                errs = errs + b.errs;
            }
            v.push(e);
        }
        proof {
            lemma_listed_end(whole, self@.pos, v@, errs);
        }
        Ok(v)
    }

    /// Parses one item of a module.
    pub fn parse_module_item(&mut self) -> (r: PResult<ModuleItem>)
        requires
            old(self).wf(),
        ensures
            final(self).wf(),
            yields(old(self)@, final(self)@, r, old(self)@.g().item(old(self)@.pos)),
    {
        reveal(Gram::item);
        if self.is(Token::Export) {
            match self.parse_export() {
                Ok(d) => Ok(ModuleItem::ModuleDecl(d)),
                Err(e) => Err(e),
            }
        } else {
            match self.parse_stmt(true) {
                Ok(s) => Ok(ModuleItem::Stmt(s)),
                Err(e) => Err(e),
            }
        }
    }

    /// Parses `export default expr;` or `export decl`.
    fn parse_export(&mut self) -> (r: PResult<ModuleDecl>)
        requires
            old(self).wf(),
            old(self)@.g().kind(old(self)@.pos) == Token::Export,
        ensures
            final(self).wf(),
            yields(old(self)@, final(self)@, r, old(self)@.g().export(old(self)@.pos)),
    {
        reveal(Gram::export);
        let start = self.cur_pos();
        self.bump();
        if self.eat(Token::Default) {
            let expr = match self.parse_assignment_expr() {
                Ok(x) => x,
                Err(e) => return Err(e),
            };
            match self.expect_general_semi() {
                Ok(()) => {},
                Err(e) => return Err(e),
            }
            let x = ExportDefaultExpr { span: self.span(start), expr };
            Ok(ModuleDecl::ExportDefaultExpr(x))
        } else {
            let decl = match self.parse_export_decl() {
                Ok(x) => x,
                Err(e) => return Err(e),
            };
            Ok(ModuleDecl::ExportDecl(ExportDecl { span: self.span(start), decl }))
        }
    }

    /// Parses a declaration behind `export`.
    fn parse_export_decl(&mut self) -> (r: PResult<Decl>)
        requires
            old(self).wf(),
        ensures
            final(self).wf(),
            yields(old(self)@, final(self)@, r, old(self)@.g().export_decl(old(self)@.pos)),
    {
        reveal(Gram::export_decl);
        let start = self.cur_pos();
        let t = self.cur();
        if t == Token::Enum {
            self.bump();
            self.parse_any_enum_decl(start, false)
        } else if t == Token::Const && self.peek() == Token::Enum {
            self.bump();
            self.bump();
            self.parse_any_enum_decl(start, true)
        } else if as_var_kind(t).is_some() {
            self.parse_var_stmt()
        } else if self.is_newtype_ahead() {
            self.bump();
            self.parse_zts_newtype_decl(start)
        } else {
            Err(Error::new(self.cur_span(), SyntaxError::DeclarationExpected))
        }
    }
}

} // verus!
