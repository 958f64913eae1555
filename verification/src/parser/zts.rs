//! What zts adds to the grammar: `match` expressions, enums with data,
//! newtypes, `if` expressions, blocks with a value, and the operator `not`.
//!
//! `match` is a word like any other. `match (expr) {` opens a match expression;
//! anything else (`str.match(re)`, `match(1)`, `match(1) + 2`) keeps its meaning.
//! The header `match (expr) {` is tried behind a checkpoint, and only once all of
//! it is there does the parser commit, so that an error in an arm is reported as
//! such.
use crate::ast::decl::{Decl, ZtsEnumDecl, ZtsEnumField, ZtsEnumVariant, ZtsNewtypeDecl};
use crate::ast::expr::{
    Expr, MatchArm, MatchExpr, MatchLitPat, MatchPat, MatchVariantPat, MatchWildcardPat,
    ZtsExprBlock, ZtsIfAlt, ZtsIfExpr,
};
use crate::ast::stmt::Stmt;
use crate::error::{Error, PResult, SyntaxError};
use crate::grammar::{bare_idents, good, is_lit, Gram, ListKind};
use crate::parser::input::{
    hands_back, lemma_listed, lemma_listed_end, listed, yields, yields_list, Parser,
};
use crate::span::BytePos;
use crate::stack::{RED_ZONE, STACK_SIZE};
use crate::token::Token;
use crate::tree::{trees, HasTree, Tree};
use vstd::prelude::*;

verus! {

/// Whether an expression is a bare identifier, or a comma sequence of bare
/// identifiers: `a`, or `a, b`.
pub fn expr_is_bare_idents(e: &Expr) -> (b: bool)
    ensures
        b == match *e {
            Expr::Ident(_) => true,
            Expr::SeqExpr(seq) => forall|k: int|
                0 <= k < seq.exprs@.len() ==> *#[trigger] seq.exprs@[k] is Ident,
            _ => false,
        },
        b == bare_idents(e.tree()),
{
    proof {
        e.lemma_label();
        e.lemma_tree();
    }
    match e {
        Expr::Ident(_) => true,
        Expr::SeqExpr(seq) => {
            proof {
                seq.lemma_tree();
            }
            let mut i: usize = 0;
            while i < seq.exprs.len()
                invariant
                    *e == Expr::SeqExpr(*seq),
                    i <= seq.exprs@.len(),
                    e.tree().kids == trees(seq.exprs@),
                    e.tree().label is SeqExpr,
                    forall|k: int| 0 <= k < i ==> (#[trigger] e.tree().kids[k]).label is Ident,
                    forall|k: int| 0 <= k < i ==> *#[trigger] seq.exprs@[k] is Ident,
                decreases seq.exprs@.len() - i,
            {
                proof {
                    seq.exprs@[i as int].lemma_label();
                    assert(e.tree().kids[i as int] == seq.exprs@[i as int].tree());
                }
                if !seq.exprs[i].is_ident() {
                    return false;
                }
                i = i + 1;
            }
            true
        },
        _ => false,
    }
}

impl Parser {
    /// Whether the current word is the operator `not`: a word or a literal
    /// follows it on the same line. Anything else behind `not` keeps `not` an
    /// identifier: `not(x)` is a call, `not.foo` a property, `not => x` an arrow
    /// function, `not instanceof F` a test, `not!` an assertion. So do the words
    /// that are operators between two operands: `in`, `instanceof`, `as`,
    /// `satisfies` and `of`.
    pub fn is_zts_not_operator(&self) -> (b: bool)
        requires
            self.live(),
        ensures
            b == self@.g().not_operator(self@.pos),
            b ==> self@.g().kind(self@.pos) != Token::Eof,
    {
        reveal(Gram::not_operator);
        if !self.syntax().zts() {
            return false;
        }
        if !(self.cur().is_word() && self.cur_text_is("not")) {
            return false;
        }
        if self.has_linebreak_between_cur_and_peeked() {
            return false;
        }
        match self.peek() {
            Token::In | Token::InstanceOf | Token::As | Token::Satisfies | Token::Of => false,
            Token::Num | Token::Str | Token::BigInt | Token::True | Token::False | Token::Null => {
                true
            },
            t => t.is_word(),
        }
    }

    /// Whether zts is on, the current word is `match` and `(` comes next.
    pub fn is_zts_match_keyword(&self) -> (b: bool)
        requires
            self.live(),
        ensures
            b == self@.g().match_keyword(self@.pos),
            b ==> self@.g().kind(self@.pos) != Token::Eof,
    {
        reveal(Gram::match_keyword);
        if !self.syntax().zts() {
            return false;
        }
        if !(self.cur().is_word() && self.cur_text_is("match")) {
            return false;
        }
        self.peek() == Token::LParen
    }

    /// Parses the header `match (expr) {` up to the `{`; nothing where it is no
    /// header.
    fn parse_zts_match_header(&mut self) -> (r: Option<Box<Expr>>)
        requires
            old(self).wf(),
            old(self)@.g().kind(old(self)@.pos) != Token::Eof,
        ensures
            final(self).wf(),
            final(self)@.toks == old(self)@.toks,
            final(self)@.zts == old(self)@.zts,
            final(self)@.declare == old(self)@.declare,
            match old(self)@.g().match_header(old(self)@.pos) {
                Some(h) => {
                    &&& r is Some
                    &&& h.res == Ok::<Tree, Error>(r->0.as_tree())
                    &&& old(self)@.moved(final(self)@, h)
                    &&& old(self)@.pos < h.next
                    &&& old(self)@.g().kind(h.next) == Token::LBrace
                },
                None => {
                    &&& r is None
                    &&& old(self)@.given_up.subset_of(final(self)@.given_up)
                    &&& old(self)@.errs.len() <= final(self)@.errs.len()
                    &&& final(self)@.errs.take(old(self)@.errs.len() as int) == old(self)@.errs
                },
            },
        decreases old(self)@.rem(), 0nat,
    {
        reveal(Gram::match_header);
        reveal(Gram::expr);
        self.bump();
        if !self.eat(Token::LParen) {
            return None;
        }
        let discriminant = match self.parse_expr() {
            Ok(x) => x,
            Err(_) => return None,
        };
        if !self.eat(Token::RParen) {
            return None;
        }
        if !self.is(Token::LBrace) || self.had_line_break_before_cur() {
            return None;
        }
        let t = self.peek();
        let arm_starter = t.is_word() || matches!(
            t,
            Token::Str | Token::Num | Token::Minus | Token::True | Token::False
        );
        if !arm_starter {
            return None;
        }
        Some(discriminant)
    }

    /// Tries the header `match (expr) { arm` at the current word.
    ///
    /// Where it is no header, the parser is back where it was, with the errors
    /// that were reported on the way forgotten, and `match` is the identifier
    /// that it always was. The parser remembers that, and gives the word up at once
    /// the next time. Where it is one, parsing goes on behind it: the
    /// discriminant is parsed once, and what is reported in it stays.
    ///
    /// - The `{` has to stand on the line of the `)`. On a line of its own it is a
    ///   block behind a call.
    /// - An arm has to start behind the `{`, so that a call before an empty block
    ///   does not become a match without arms.
    pub fn try_parse_zts_match_expr(&mut self, start: BytePos) -> (r: Option<PResult<Box<Expr>>>)
        requires
            old(self).wf(),
            old(self)@.g().kind(old(self)@.pos) != Token::Eof,
            start == old(self)@.g().lo(old(self)@.pos),
        ensures
            final(self).wf(),
            match old(self)@.g().match_header(old(self)@.pos) {
                Some(h) => {
                    &&& r is Some
                    &&& old(self)@.g().ok(old(self)@.pos, h)
                    &&& yields(
                        old(self)@,
                        final(self)@,
                        r->0,
                        old(self)@.g().match_body(start, h),
                    )
                },
                None => {
                    &&& r is None
                    &&& old(self)@.back(final(self)@)
                    &&& final(self)@.given_up.contains(start.0)
                },
            },
            old(self)@.given_up.contains(start.0) ==> r is None && final(self)@ == old(self)@,
        decreases old(self)@.rem(), 1nat,
    {
        // Without the memory of failures, nested attempts would each try the
        // inner ones again.
        if self.speculation_failed(start) {
            return None;
        }
        let ghost pre = self@;
        let checkpoint = self.checkpoint_save();
        match self.parse_zts_match_header() {
            Some(discriminant) => {
                let ghost h = pre.g().match_header(pre.pos)->0;
                proof {
                    pre.g().lemma_match_body(start, h);
                }
                let r = self.parse_zts_match_body(start, discriminant);
                Some(r)
            },
            None => {
                self.checkpoint_load(checkpoint);
                assert(self@.errs =~= pre.errs);
                self.record_failure(start);
                None
            },
        }
    }

    /// Parses `{ Arm, Arm, }` behind a header. The current token is the `{`.
    pub fn parse_zts_match_body(&mut self, start: BytePos, discriminant: Box<Expr>) -> (r: PResult<
        Box<Expr>,
    >)
        requires
            old(self).wf(),
            old(self)@.g().kind(old(self)@.pos) == Token::LBrace,
        ensures
            final(self).wf(),
            yields(
                old(self)@,
                final(self)@,
                r,
                old(self)@.g().match_body(start, good(discriminant.as_tree(), old(self)@.pos)),
            ),
        decreases old(self)@.rem(), 0nat,
    {
        reveal(Gram::match_body);
        reveal(Gram::comma_list);
        self.bump();
        let arms = match self.parse_zts_match_arms() {
            Ok(x) => x,
            Err(e) => return Err(e),
        };
        match self.expect(Token::RBrace) {
            Ok(()) => {},
            Err(e) => return Err(e),
        }
        let x = MatchExpr { span: self.span(start), discriminant, arms };
        proof {
            x.lemma_tree();
            Expr::Match(x).lemma_tree();
        }
        Ok(Box::new(Expr::Match(x)))
    }

    /// Parses the arms of a match expression, up to the closing brace.
    fn parse_zts_match_arms(&mut self) -> (r: PResult<Vec<MatchArm>>)
        requires
            old(self).wf(),
        ensures
            final(self).wf(),
            yields_list(
                old(self)@,
                final(self)@,
                r,
                old(self)@.g().comma_list(ListKind::Arms, old(self)@.pos),
            ),
        decreases old(self)@.rem(), 18nat,
    {
        reveal(Gram::comma_list);
        reveal(Gram::elem);
        let ghost pre = self@;
        let ghost g = pre.g();
        let ghost whole = g.comma_list(ListKind::Arms, pre.pos);
        let ghost mut errs: Seq<Error> = Seq::empty();
        let mut v: Vec<MatchArm> = Vec::new();
        #[verifier::loop_isolation(false)]
        while !self.is(Token::RBrace)
            invariant
                self.wf(),
                pre.later(self@, errs),
                self@.pos >= pre.pos,
                listed(whole, g.comma_list(ListKind::Arms, self@.pos), v@, errs),
            decreases self@.rem(),
        {
            let ghost i = self@.pos;
            let ghost b = g.elem(ListKind::Arms, i);
            proof {
                g.lemma_elem(ListKind::Arms, i);
            }
            let e = match self.parse_zts_match_arm() {
                Ok(e) => e,
                Err(e) => return Err(e),
            };
            proof {
                lemma_listed(
                    whole,
                    g.comma_list(ListKind::Arms, i),
                    g.comma_list(ListKind::Arms, b.next + 1),
                    v@,
                    e,
                    b,
                    errs,
                );
                errs = errs + b.errs;
            }
            v.push(e);
            if !self.eat(Token::Comma) {
                return Ok(v);
            }
        }
        proof {
            lemma_listed_end(whole, self@.pos, v@, errs);
        }
        Ok(v)
    }

    /// Parses an enum behind the word `enum`: one of zts if zts is on, else one of
    /// TypeScript.
    pub fn parse_any_enum_decl(&mut self, start: BytePos, is_const: bool) -> (r: PResult<Decl>)
        requires
            old(self).live(),
        ensures
            final(self).live(),
            yields(
                old(self)@,
                final(self)@,
                r,
                old(self)@.g().any_enum(old(self)@.pos, start, is_const, old(self)@.declare),
            ),
        decreases old(self)@.rem(), 16nat,
    {
        reveal(Gram::any_enum);
        reveal(Gram::ts_enum);
        reveal(Gram::zts_enum);
        if self.syntax().zts() {
            return self.parse_zts_enum_decl(start, is_const);
        }
        match self.parse_ts_enum_decl(start, is_const) {
            Ok(e) => {
                let d = Decl::TsEnum(Box::new(e));
                proof {
                    d.lemma_tree();
                }
                Ok(d)
            },
            Err(e) => Err(e),
        }
    }

    /// Parses `Shape { Circle { radius: number }, Square { side: number } }` behind
    /// the word `enum`.
    ///
    /// This takes the place of the enum of TypeScript, whose members are an error.
    pub fn parse_zts_enum_decl(&mut self, start: BytePos, is_const: bool) -> (r: PResult<Decl>)
        requires
            old(self).live(),
        ensures
            final(self).live(),
            yields(
                old(self)@,
                final(self)@,
                r,
                old(self)@.g().zts_enum(old(self)@.pos, start, is_const, old(self)@.declare),
            ),
        decreases old(self)@.rem(), 0nat,
    {
        reveal(Gram::zts_enum);
        reveal(Gram::comma_list);
        if self.in_declare() {
            return Err(Error::new(self.span(start), SyntaxError::ZtsDeclareEnum));
        }
        let ghost pre = self@;
        if is_const {
            // The body is parsed all the same, for the errors in it.
            self.emit_err(self.span(start), SyntaxError::ZtsConstEnum);
        }
        let ghost errs: Seq<Error> = if is_const {
            seq![Error { span: pre.g().span(start, pre.pos), error: SyntaxError::ZtsConstEnum }]
        } else {
            Seq::empty()
        };
        assert(self@.errs =~= pre.errs + errs);
        let ident = match self.parse_decl_name() {
            Ok(x) => x,
            Err(e) => return Err(e),
        };
        match self.expect(Token::LBrace) {
            Ok(()) => {},
            Err(e) => return Err(e),
        }
        let variants = match self.parse_zts_enum_variants() {
            Ok(x) => x,
            Err(e) => return Err(e),
        };
        match self.expect(Token::RBrace) {
            Ok(()) => {},
            Err(e) => return Err(e),
        }
        let x = ZtsEnumDecl { span: self.span(start), ident, variants };
        let d = Decl::ZtsEnum(Box::new(x));
        proof {
            x.lemma_tree();
            d.lemma_tree();
        }
        Ok(d)
    }

    /// Parses the variants of an enum, up to the closing brace.
    fn parse_zts_enum_variants(&mut self) -> (r: PResult<Vec<ZtsEnumVariant>>)
        requires
            old(self).wf(),
        ensures
            final(self).wf(),
            yields_list(
                old(self)@,
                final(self)@,
                r,
                old(self)@.g().comma_list(ListKind::Variants, old(self)@.pos),
            ),
        decreases old(self)@.rem(), 18nat,
    {
        reveal(Gram::comma_list);
        reveal(Gram::elem);
        let ghost pre = self@;
        let ghost g = pre.g();
        let ghost whole = g.comma_list(ListKind::Variants, pre.pos);
        let ghost mut errs: Seq<Error> = Seq::empty();
        let mut v: Vec<ZtsEnumVariant> = Vec::new();
        #[verifier::loop_isolation(false)]
        while !self.is(Token::RBrace)
            invariant
                self.wf(),
                pre.later(self@, errs),
                self@.pos >= pre.pos,
                listed(whole, g.comma_list(ListKind::Variants, self@.pos), v@, errs),
            decreases self@.rem(),
        {
            let ghost i = self@.pos;
            let ghost b = g.elem(ListKind::Variants, i);
            proof {
                g.lemma_elem(ListKind::Variants, i);
            }
            let e = match self.parse_zts_enum_variant() {
                Ok(e) => e,
                Err(e) => return Err(e),
            };
            proof {
                lemma_listed(
                    whole,
                    g.comma_list(ListKind::Variants, i),
                    g.comma_list(ListKind::Variants, b.next + 1),
                    v@,
                    e,
                    b,
                    errs,
                );
                errs = errs + b.errs;
            }
            v.push(e);
            if !self.eat(Token::Comma) {
                return Ok(v);
            }
        }
        proof {
            lemma_listed_end(whole, self@.pos, v@, errs);
        }
        Ok(v)
    }

    /// Parses `AccountId = string;` behind the word `newtype`.
    ///
    /// The caller has seen that an identifier follows the word on the same line.
    /// There are no type parameters: the `=` comes next to the name.
    pub fn parse_zts_newtype_decl(&mut self, start: BytePos) -> (r: PResult<Decl>)
        requires
            old(self).live(),
        ensures
            final(self).live(),
            yields(
                old(self)@,
                final(self)@,
                r,
                old(self)@.g().newtype(old(self)@.pos, start, old(self)@.declare),
            ),
    {
        reveal(Gram::newtype);
        if self.in_declare() {
            return Err(Error::new(self.span(start), SyntaxError::ZtsDeclareNewtype));
        }
        let ident = match self.parse_decl_name() {
            Ok(x) => x,
            Err(e) => return Err(e),
        };
        match self.expect(Token::Eq) {
            Ok(()) => {},
            Err(e) => return Err(e),
        }
        let type_ann = match self.parse_ts_type() {
            Ok(x) => x,
            Err(e) => return Err(e),
        };
        match self.expect_general_semi() {
            Ok(()) => {},
            Err(e) => return Err(e),
        }
        let x = ZtsNewtypeDecl { span: self.span(start), ident, type_ann };
        let d = Decl::ZtsNewtype(Box::new(x));
        proof {
            x.lemma_tree();
            d.lemma_tree();
        }
        Ok(d)
    }

    /// Parses `Variant { field: Type, ... }`. The braces have to be there, the fields
    /// need not.
    pub fn parse_zts_enum_variant(&mut self) -> (r: PResult<ZtsEnumVariant>)
        requires
            old(self).wf(),
        ensures
            final(self).wf(),
            yields(old(self)@, final(self)@, r, old(self)@.g().variant(old(self)@.pos)),
        decreases old(self)@.rem(), 0nat,
    {
        reveal(Gram::variant);
        reveal(Gram::comma_list);
        let start = self.cur_pos();
        let name = match self.parse_decl_name() {
            Ok(x) => x,
            Err(e) => return Err(e),
        };
        if !self.is(Token::LBrace) {
            // `Red,` or `Red = 1`: a member of an enum of TypeScript.
            return Err(Error::new(self.span(start), SyntaxError::ZtsEnumVariantBody));
        }
        self.bump();
        let fields = match self.parse_zts_enum_fields() {
            Ok(x) => x,
            Err(e) => return Err(e),
        };
        match self.expect(Token::RBrace) {
            Ok(()) => {},
            Err(e) => return Err(e),
        }
        let x = ZtsEnumVariant { span: self.span(start), name, fields };
        proof {
            x.lemma_tree();
        }
        Ok(x)
    }

    /// Parses the fields of a variant, up to the closing brace.
    fn parse_zts_enum_fields(&mut self) -> (r: PResult<Vec<ZtsEnumField>>)
        requires
            old(self).wf(),
        ensures
            final(self).wf(),
            yields_list(
                old(self)@,
                final(self)@,
                r,
                old(self)@.g().comma_list(ListKind::Fields, old(self)@.pos),
            ),
        decreases old(self)@.rem(), 18nat,
    {
        reveal(Gram::comma_list);
        reveal(Gram::elem);
        let ghost pre = self@;
        let ghost g = pre.g();
        let ghost whole = g.comma_list(ListKind::Fields, pre.pos);
        let ghost mut errs: Seq<Error> = Seq::empty();
        let mut v: Vec<ZtsEnumField> = Vec::new();
        #[verifier::loop_isolation(false)]
        while !self.is(Token::RBrace)
            invariant
                self.wf(),
                pre.later(self@, errs),
                self@.pos >= pre.pos,
                listed(whole, g.comma_list(ListKind::Fields, self@.pos), v@, errs),
            decreases self@.rem(),
        {
            let ghost i = self@.pos;
            let ghost b = g.elem(ListKind::Fields, i);
            proof {
                g.lemma_elem(ListKind::Fields, i);
            }
            let e = match self.parse_zts_enum_field() {
                Ok(e) => e,
                Err(e) => return Err(e),
            };
            proof {
                lemma_listed(
                    whole,
                    g.comma_list(ListKind::Fields, i),
                    g.comma_list(ListKind::Fields, b.next + 1),
                    v@,
                    e,
                    b,
                    errs,
                );
                errs = errs + b.errs;
            }
            v.push(e);
            if !self.eat(Token::Comma) {
                return Ok(v);
            }
        }
        proof {
            lemma_listed_end(whole, self@.pos, v@, errs);
        }
        Ok(v)
    }

    /// Parses `field: Type`.
    pub fn parse_zts_enum_field(&mut self) -> (r: PResult<ZtsEnumField>)
        requires
            old(self).live(),
        ensures
            final(self).live(),
            yields(old(self)@, final(self)@, r, old(self)@.g().field(old(self)@.pos)),
    {
        reveal(Gram::field);
        let start = self.cur_pos();
        let name = match self.parse_ident_name() {
            Ok(x) => x,
            Err(e) => return Err(e),
        };
        match self.expect(Token::Colon) {
            Ok(()) => {},
            Err(e) => return Err(e),
        }
        let type_ann = match self.parse_ts_type() {
            Ok(x) => x,
            Err(e) => return Err(e),
        };
        let x = ZtsEnumField { span: self.span(start), name, type_ann };
        proof {
            x.lemma_tree();
        }
        Ok(x)
    }

    /// Parses `pattern => body`.
    ///
    /// The body is an expression without commas or, where it starts with `{`, a block
    /// with a value. An object literal as a body needs parentheses: `=> ({ ... })`.
    #[verifier::rlimit(30)]
    pub fn parse_zts_match_arm(&mut self) -> (r: PResult<MatchArm>)
        requires
            old(self).wf(),
        ensures
            final(self).wf(),
            yields(old(self)@, final(self)@, r, old(self)@.g().arm(old(self)@.pos)),
        decreases old(self)@.rem(), 14nat,
    {
        reveal(Gram::arm);
        reveal(Gram::arm_body);
        reveal(Gram::assign);
        reveal(Gram::expr_block);
        reveal(Gram::match_pattern);
        let arm_start = self.cur_pos();
        let pattern = match self.parse_zts_match_pattern() {
            Ok(x) => x,
            Err(e) => return Err(e),
        };
        match self.expect(Token::Arrow) {
            Ok(()) => {},
            Err(e) => return Err(e),
        }
        let body = if self.is(Token::LBrace) {
            let block = match self.parse_zts_expr_block() {
                Ok(x) => x,
                Err(e) => return Err(e),
            };
            proof {
                block.lemma_tree();
                Expr::ZtsExprBlock(block).lemma_tree();
            }
            // `=> { a }` and `=> { a, b }` could be read as object literals.
            if block.stmts.len() == 0 && expr_is_bare_idents(&block.tail) {
                return Err(Error::new(block.span, SyntaxError::ZtsAmbiguousArmBody));
            }
            Box::new(Expr::ZtsExprBlock(block))
        } else {
            match self.parse_assignment_expr() {
                Ok(x) => x,
                Err(e) => return Err(e),
            }
        };
        let x = MatchArm { span: self.span(arm_start), pattern, body };
        proof {
            x.lemma_tree();
        }
        Ok(x)
    }

    /// Parses the wildcard `_`, a literal (`"active"`, `404`, `-1`, `true`, `null`), or
    /// `Variant { bindings }`.
    pub fn parse_zts_match_pattern(&mut self) -> (r: PResult<MatchPat>)
        requires
            old(self).wf(),
        ensures
            final(self).wf(),
            yields(old(self)@, final(self)@, r, old(self)@.g().match_pattern(old(self)@.pos)),
            r matches Ok(MatchPat::Lit(l)) ==> (l.neg <==> old(self)@.g().kind(old(self)@.pos)
                == Token::Minus),
        decreases old(self)@.rem(), 2nat,
    {
        reveal(Gram::match_pattern);
        reveal(Gram::object_pat);
        reveal(is_lit);
        let start = self.cur_pos();
        let cur = self.cur();
        // `_ { ... }` is a variant.
        if cur.is_word() && self.cur_text_is("_") && self.peek() == Token::Arrow {
            self.bump();
            let p = MatchPat::Wildcard(MatchWildcardPat { span: self.span(start) });
            proof {
                p.lemma_tree();
            }
            return Ok(p);
        }
        if matches!(cur, Token::Str | Token::Num | Token::True | Token::False | Token::Null) {
            let lit = self.parse_lit();
            let p = MatchPat::Lit(MatchLitPat { span: self.span(start), lit, neg: false });
            proof {
                p.lemma_tree();
            }
            return Ok(p);
        }
        if cur == Token::Minus {
            self.bump();
            if !self.is(Token::Num) {
                return Err(Error::new(self.span(start), SyntaxError::TS1109));
            }
            let lit = self.parse_lit();
            let p = MatchPat::Lit(MatchLitPat { span: self.span(start), lit, neg: true });
            proof {
                p.lemma_tree();
            }
            return Ok(p);
        }
        let name = match self.parse_decl_name() {
            Ok(x) => x,
            Err(e) => return Err(e),
        };
        let binding = match self.parse_object_pat() {
            Ok(x) => x,
            Err(e) => return Err(e),
        };
        let p = MatchPat::Variant(
            MatchVariantPat { span: self.span(start), name, binding: Some(binding) },
        );
        proof {
            p.lemma_tree();
        }
        Ok(p)
    }

    /// Parses `if (test) { ... } else { ... }` as an expression. The `else` has to be
    /// there. The current token is the `if`.
    pub fn parse_zts_if_expr(&mut self, start: BytePos) -> (r: PResult<Box<Expr>>)
        requires
            old(self).wf(),
            old(self)@.g().kind(old(self)@.pos) == Token::If,
        ensures
            final(self).wf(),
            yields(old(self)@, final(self)@, r, old(self)@.g().if_expr(old(self)@.pos, start)),
            r matches Ok(e) ==> *e is ZtsIf,
        decreases old(self)@.rem(), 1nat,
    {
        match self.parse_zts_if(start) {
            Ok(x) => {
                let e = Expr::ZtsIf(x);
                proof {
                    e.lemma_tree();
                }
                Ok(Box::new(e))
            },
            Err(e) => Err(e),
        }
    }

    /// Parses an `if` expression and the `else if` behind it.
    #[verifier::rlimit(30)]
    fn parse_zts_if(&mut self, start: BytePos) -> (r: PResult<ZtsIfExpr>)
        requires
            old(self).wf(),
            old(self)@.g().kind(old(self)@.pos) == Token::If,
        ensures
            final(self).wf(),
            yields(old(self)@, final(self)@, r, old(self)@.g().if_expr(old(self)@.pos, start)),
        decreases old(self)@.rem(), 0nat,
    {
        reveal(Gram::if_expr);
        reveal(Gram::expr);
        reveal(Gram::expr_block);
        self.bump();
        match self.expect(Token::LParen) {
            Ok(()) => {},
            Err(e) => return Err(e),
        }
        let test = match self.parse_expr() {
            Ok(x) => x,
            Err(e) => return Err(e),
        };
        match self.expect(Token::RParen) {
            Ok(()) => {},
            Err(e) => return Err(e),
        }
        let cons = match self.parse_zts_expr_block() {
            Ok(x) => x,
            Err(e) => return Err(e),
        };
        if !self.eat(Token::Else) {
            return Err(Error::new(self.span(start), SyntaxError::ZtsIfWithoutElse));
        }
        let alt = if self.is(Token::If) {
            let alt_start = self.cur_pos();
            // A long chain of `else if` is deep recursion too.
            let p = self.lend();
            let f = move || -> (o: (Parser, PResult<ZtsIfExpr>))
                requires
                    p.wf(),
                    p@.g().kind(p@.pos) == Token::If,
                ensures
                    hands_back(p@, o, p@.g().if_expr(p@.pos, alt_start)),
                {
                    let mut q = p;
                    let r = q.parse_zts_if(alt_start);
                    (q, r)
                };
            let (q, r) = stacker::maybe_grow(RED_ZONE, STACK_SIZE, f);
            *self = q;
            match r {
                Ok(x) => ZtsIfAlt::If(Box::new(x)),
                Err(e) => return Err(e),
            }
        } else {
            match self.parse_zts_expr_block() {
                Ok(x) => ZtsIfAlt::Block(x),
                Err(e) => return Err(e),
            }
        };
        proof {
            alt.lemma_tree();
        }
        let x = ZtsIfExpr { span: self.span(start), test, cons, alt };
        proof {
            x.lemma_tree();
        }
        Ok(x)
    }

    /// Parses `{ stmts...; tail }`, a block whose value is its last expression.
    pub fn parse_zts_expr_block(&mut self) -> (r: PResult<ZtsExprBlock>)
        requires
            old(self).wf(),
        ensures
            final(self).wf(),
            yields(old(self)@, final(self)@, r, old(self)@.g().expr_block(old(self)@.pos)),
        decreases old(self)@.rem(), 2nat,
    {
        reveal(Gram::expr_block);
        reveal(Gram::block);
        let start = self.cur_pos();
        let block = match self.parse_block() {
            Ok(x) => x,
            Err(e) => return Err(e),
        };
        proof {
            block.lemma_tree();
        }
        let mut stmts = block.stmts;
        let ghost all = stmts@;
        match stmts.pop() {
            Some(last) => {
                proof {
                    last.lemma_label();
                    last.lemma_tree();
                    assert(trees(all).last() == last.tree());
                    assert(trees(all).drop_last() =~= trees(stmts@));
                }
                match last {
                    Stmt::Expr(tail) => {
                        proof {
                            tail.lemma_tree();
                        }
                        let x = ZtsExprBlock { span: self.span(start), stmts, tail: tail.expr };
                        proof {
                            x.lemma_tree();
                        }
                        Ok(x)
                    },
                    _ => Err(Error::new(self.span(start), SyntaxError::ZtsBlockWithoutTail)),
                }
            },
            None => Err(Error::new(self.span(start), SyntaxError::ZtsBlockWithoutTail)),
        }
    }
}

} // verus!
