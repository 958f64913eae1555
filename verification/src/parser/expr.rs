//! Expressions.
use crate::ast::expr::{
    ArrayLit, ArrowExpr, AssignExpr, AssignOp, BinExpr, BinaryOp, BlockStmtOrExpr, CallExpr,
    ComputedPropName, CondExpr, Expr, KeyValueProp, MemberExpr, MemberProp, ObjectLit, ParenExpr,
    Prop, PropName, SeqExpr, TaggedTpl, Tpl, TplElement, TsAsExpr, TsNonNullExpr, TsSatisfiesExpr,
    UnaryExpr, UnaryOp,
};
use crate::ast::ident::Ident;
use crate::ast::lit::Lit;
use crate::ast::pat::Pat;
use crate::error::{Error, PResult, SyntaxError};
use crate::grammar::{
    assign_op, binary_op, is_lit, precedence, right_precedence, unary_op, Gram, ListKind,
};
use crate::parser::input::{
    hands_back, lemma_behind, lemma_listed, lemma_listed_end, listed, yields, yields_list, Parser,
};
use crate::span::{BytePos, SyntaxContext};
use crate::stack::{RED_ZONE, STACK_SIZE};
use crate::token::Token;
use crate::tree::{lemma_trees_push, trees, HasTree, Tree};
use vstd::prelude::*;

verus! {

/// The operator that a token is before an operand.
fn as_unary_op(t: Token) -> (op: Option<UnaryOp>)
    ensures
        op == unary_op(t),
        op is Some ==> t != Token::Eof,
{
    reveal(unary_op);
    match t {
        Token::Minus => Some(UnaryOp::Minus),
        Token::Plus => Some(UnaryOp::Plus),
        Token::Bang => Some(UnaryOp::Bang),
        Token::Tilde => Some(UnaryOp::Tilde),
        Token::TypeOf => Some(UnaryOp::TypeOf),
        Token::Void => Some(UnaryOp::Void),
        Token::Delete => Some(UnaryOp::Delete),
        _ => None,
    }
}

/// The operator that a token is between two operands.
fn as_binary_op(t: Token) -> (op: Option<BinaryOp>)
    ensures
        op == binary_op(t),
        op is Some ==> t != Token::Eof,
{
    reveal(binary_op);
    match t {
        Token::EqEq => Some(BinaryOp::EqEq),
        Token::NotEq => Some(BinaryOp::NotEq),
        Token::EqEqEq => Some(BinaryOp::EqEqEq),
        Token::NotEqEq => Some(BinaryOp::NotEqEq),
        Token::Lt => Some(BinaryOp::Lt),
        Token::LtEq => Some(BinaryOp::LtEq),
        Token::Gt => Some(BinaryOp::Gt),
        Token::GtEq => Some(BinaryOp::GtEq),
        Token::LShift => Some(BinaryOp::LShift),
        Token::RShift => Some(BinaryOp::RShift),
        Token::ZeroFillRShift => Some(BinaryOp::ZeroFillRShift),
        Token::Plus => Some(BinaryOp::Add),
        Token::Minus => Some(BinaryOp::Sub),
        Token::Asterisk => Some(BinaryOp::Mul),
        Token::Slash => Some(BinaryOp::Div),
        Token::Percent => Some(BinaryOp::Mod),
        Token::Pipe => Some(BinaryOp::BitOr),
        Token::Caret => Some(BinaryOp::BitXor),
        Token::Ampersand => Some(BinaryOp::BitAnd),
        Token::LogicalOr => Some(BinaryOp::LogicalOr),
        Token::LogicalAnd => Some(BinaryOp::LogicalAnd),
        Token::In => Some(BinaryOp::In),
        Token::InstanceOf => Some(BinaryOp::InstanceOf),
        Token::Exp => Some(BinaryOp::Exp),
        Token::NullishCoalescing => Some(BinaryOp::NullishCoalescing),
        _ => None,
    }
}

/// The operator that a token is behind what is assigned to.
fn as_assign_op(t: Token) -> (op: Option<AssignOp>)
    ensures
        op == assign_op(t),
        op is Some ==> t != Token::Eof,
{
    reveal(assign_op);
    match t {
        Token::Eq => Some(AssignOp::Assign),
        Token::PlusEq => Some(AssignOp::AddAssign),
        Token::MinusEq => Some(AssignOp::SubAssign),
        Token::MulEq => Some(AssignOp::MulAssign),
        Token::DivEq => Some(AssignOp::DivAssign),
        Token::ModEq => Some(AssignOp::ModAssign),
        _ => None,
    }
}

/// How tightly an operator binds.
fn precedence_of(op: BinaryOp) -> (p: u8)
    ensures
        p == precedence(op),
{
    reveal(precedence);
    match op {
        BinaryOp::NullishCoalescing | BinaryOp::LogicalOr => 1,
        BinaryOp::LogicalAnd => 2,
        BinaryOp::BitOr => 3,
        BinaryOp::BitXor => 4,
        BinaryOp::BitAnd => 5,
        BinaryOp::EqEq | BinaryOp::NotEq | BinaryOp::EqEqEq | BinaryOp::NotEqEq => 6,
        BinaryOp::Lt | BinaryOp::LtEq | BinaryOp::Gt | BinaryOp::GtEq | BinaryOp::In
        | BinaryOp::InstanceOf => 7,
        BinaryOp::LShift | BinaryOp::RShift | BinaryOp::ZeroFillRShift => 8,
        BinaryOp::Add | BinaryOp::Sub => 9,
        BinaryOp::Mul | BinaryOp::Div | BinaryOp::Mod => 10,
        BinaryOp::Exp => 11,
    }
}

/// How tightly the operators in the right operand have to bind.
fn right_precedence_of(op: BinaryOp) -> (p: u8)
    ensures
        p == right_precedence(op),
{
    reveal(right_precedence);
    if op == BinaryOp::Exp {
        10
    } else {
        precedence_of(op)
    }
}

/// Whether a token is a literal.
fn is_literal(t: Token) -> (b: bool)
    ensures
        b == is_lit(t),
{
    reveal(is_lit);
    match t {
        Token::Str | Token::Num | Token::BigInt | Token::True | Token::False | Token::Null => true,
        _ => false,
    }
}

impl Parser {
    /// Parses an expression: `a`, or `a, b`.
    pub fn parse_expr(&mut self) -> (r: PResult<Box<Expr>>)
        requires
            old(self).wf(),
        ensures
            final(self).wf(),
            yields(old(self)@, final(self)@, r, old(self)@.g().expr(old(self)@.pos)),
        decreases old(self)@.rem(), 14nat,
    {
        let ghost pre = self@;
        let ghost g = pre.g();
        proof {
            g.lemma_expr(pre.pos);
        }
        let start = self.cur_pos();
        let first = match self.parse_assignment_expr() {
            Ok(x) => x,
            Err(e) => return Err(e),
        };
        if !self.is(Token::Comma) {
            return Ok(first);
        }
        let ghost a = g.assign(pre.pos);
        let ghost whole = g.more_exprs(a.next).behind(seq![a.tree()], a.errs);
        let mut exprs: Vec<Box<Expr>> = Vec::new();
        let ghost mut errs = a.errs;
        exprs.push(first);
        proof {
            assert(trees(exprs@) =~= seq![a.tree()]);
        }
        #[verifier::loop_isolation(false)]
        while self.is(Token::Comma)
            invariant
                self.wf(),
                pre.later(self@, errs),
                self@.pos >= a.next,
                whole == g.more_exprs(self@.pos).behind(trees(exprs@), errs),
            decreases self@.rem(),
        {
            proof {
                g.lemma_more_exprs(self@.pos);
            }
            self.bump();
            let ghost b = g.assign(self@.pos);
            let e = match self.parse_assignment_expr() {
                Ok(e) => e,
                Err(e) => return Err(e),
            };
            proof {
                lemma_behind(g.more_exprs(b.next), trees(exprs@), b.tree(), errs, b.errs);
                lemma_trees_push(exprs@, e);
                errs = errs + b.errs;
            }
            exprs.push(e);
        }
        proof {
            g.lemma_more_exprs(self@.pos);
            assert(trees(exprs@) + Seq::<Tree>::empty() =~= trees(exprs@));
        }
        let x = SeqExpr { span: self.span(start), exprs };
        proof {
            x.lemma_tree();
            Expr::SeqExpr(x).lemma_tree();
        }
        Ok(Box::new(Expr::SeqExpr(x)))
    }

    /// Parses an expression without commas.
    pub fn parse_assignment_expr(&mut self) -> (r: PResult<Box<Expr>>)
        requires
            old(self).wf(),
        ensures
            final(self).wf(),
            yields(old(self)@, final(self)@, r, old(self)@.g().assign(old(self)@.pos)),
        decreases old(self)@.rem(), 13nat,
    {
        let p = self.lend();
        let f = move || -> (o: (Parser, PResult<Box<Expr>>))
            requires
                p.wf(),
            ensures
                hands_back(p@, o, p@.g().assign(p@.pos)),
            {
                let mut q = p;
                let r = q.parse_assignment_expr_base();
                (q, r)
            };
        let (q, r) = stacker::maybe_grow(RED_ZONE, STACK_SIZE, f);
        *self = q;
        r
    }

    /// Parses an expression without commas, on the stack that there is.
    fn parse_assignment_expr_base(&mut self) -> (r: PResult<Box<Expr>>)
        requires
            old(self).wf(),
        ensures
            final(self).wf(),
            yields(old(self)@, final(self)@, r, old(self)@.g().assign(old(self)@.pos)),
        decreases old(self)@.rem(), 12nat,
    {
        reveal(Gram::assign);
        reveal(Gram::arrow);
        reveal(Gram::cond);
        if self.is_arrow_ahead() {
            return self.parse_arrow_expr();
        }
        let start = self.cur_pos();
        let left = match self.parse_cond_expr() {
            Ok(x) => x,
            Err(e) => return Err(e),
        };
        let op = match as_assign_op(self.cur()) {
            Some(op) => op,
            None => return Ok(left),
        };
        proof {
            left.lemma_label();
        }
        match &*left {
            Expr::Ident(_) | Expr::Member(_) => {},
            _ => return Err(Error::new(left.span(), SyntaxError::NotSimpleAssign)),
        }
        self.bump();
        let right = match self.parse_assignment_expr() {
            Ok(x) => x,
            Err(e) => return Err(e),
        };
        let x = AssignExpr { span: self.span(start), op, left, right };
        proof {
            x.lemma_tree();
            Expr::Assign(x).lemma_tree();
        }
        Ok(Box::new(Expr::Assign(x)))
    }

    /// Whether an arrow function starts at the current token.
    fn is_arrow_ahead(&self) -> (b: bool)
        requires
            self.live(),
        ensures
            b == self@.g().arrow_ahead(self@.pos),
    {
        reveal(Gram::arrow_ahead);
        let t = self.cur();
        if t.is_ident_like() {
            return self.peek() == Token::Arrow;
        }
        if t != Token::LParen {
            return false;
        }
        let ghost g = self@.g();
        let mut i: usize = self.index();
        let mut depth: usize = 1;
        let opening = self.kind_at(i);
        assert(opening != Token::Eof);
        i = i + 1;
        #[verifier::loop_isolation(false)]
        loop
            invariant
                i < self@.toks.len(),
                1 <= depth <= i,
                g.after_close(i as int, depth as int) == g.after_close(self@.pos + 1, 1),
            decreases self@.toks.len() - i,
        {
            let t = self.kind_at(i);
            if t == Token::Eof {
                return false;
            }
            i = i + 1;
            if t == Token::LParen {
                depth = depth + 1;
            } else if t == Token::RParen {
                if depth <= 1 {
                    return self.kind_at(i) == Token::Arrow;
                }
                depth = depth - 1;
            }
        }
    }

    /// Parses an arrow function.
    fn parse_arrow_expr(&mut self) -> (r: PResult<Box<Expr>>)
        requires
            old(self).wf(),
            old(self)@.g().arrow_ahead(old(self)@.pos),
        ensures
            final(self).wf(),
            yields(old(self)@, final(self)@, r, old(self)@.g().arrow(old(self)@.pos)),
        decreases old(self)@.rem(), 10nat,
    {
        reveal(Gram::arrow);
        reveal(Gram::arrow_body);
        reveal(Gram::assign);
        reveal(Gram::block);
        reveal(Gram::arrow_params);
        reveal(Gram::comma_list);
        reveal(Gram::arrow_ahead);
        reveal(Token::spec_is_ident_like);
        let ghost g = self@.g();
        let ghost pre = self@;
        let start = self.cur_pos();
        let mut params: Vec<Pat> = Vec::new();
        if self.eat(Token::LParen) {
            params = match self.parse_params() {
                Ok(x) => x,
                Err(e) => return Err(e),
            };
            match self.expect(Token::RParen) {
                Ok(()) => {},
                Err(e) => return Err(e),
            }
        } else {
            let b = self.cur_binding();
            self.bump();
            let p = Pat::Ident(b);
            proof {
                p.lemma_tree();
            }
            params.push(p);
            proof {
                assert(trees(params@) =~= seq![g.binding_at(pre.pos)]);
            }
        }
        match self.expect(Token::Arrow) {
            Ok(()) => {},
            Err(e) => return Err(e),
        }
        let body = if self.is(Token::LBrace) {
            match self.parse_block() {
                Ok(x) => BlockStmtOrExpr::BlockStmt(x),
                Err(e) => return Err(e),
            }
        } else {
            match self.parse_assignment_expr() {
                Ok(x) => BlockStmtOrExpr::Expr(x),
                Err(e) => return Err(e),
            }
        };
        let body = Box::new(body);
        proof {
            body.lemma_tree();
        }
        let x = ArrowExpr { span: self.span(start), ctxt: SyntaxContext::empty(), params, body };
        proof {
            x.lemma_tree();
            Expr::Arrow(x).lemma_tree();
        }
        Ok(Box::new(Expr::Arrow(x)))
    }

    /// Parses `test ? cons : alt`, or `test` alone.
    fn parse_cond_expr(&mut self) -> (r: PResult<Box<Expr>>)
        requires
            old(self).wf(),
        ensures
            final(self).wf(),
            yields(old(self)@, final(self)@, r, old(self)@.g().cond(old(self)@.pos)),
        decreases old(self)@.rem(), 10nat,
    {
        reveal(Gram::cond);
        reveal(Gram::assign);
        reveal(Gram::bin);
        let start = self.cur_pos();
        let test = match self.parse_bin_expr(0) {
            Ok(x) => x,
            Err(e) => return Err(e),
        };
        if !self.eat(Token::Question) {
            return Ok(test);
        }
        let cons = match self.parse_assignment_expr() {
            Ok(x) => x,
            Err(e) => return Err(e),
        };
        match self.expect(Token::Colon) {
            Ok(()) => {},
            Err(e) => return Err(e),
        }
        let alt = match self.parse_assignment_expr() {
            Ok(x) => x,
            Err(e) => return Err(e),
        };
        let x = CondExpr { span: self.span(start), test, cons, alt };
        proof {
            x.lemma_tree();
            Expr::Cond(x).lemma_tree();
        }
        Ok(Box::new(Expr::Cond(x)))
    }

    /// Parses operands and the operators between them that bind more tightly than
    /// `min`.
    fn parse_bin_expr(&mut self, min: u8) -> (r: PResult<Box<Expr>>)
        requires
            old(self).wf(),
        ensures
            final(self).wf(),
            yields(old(self)@, final(self)@, r, old(self)@.g().bin(old(self)@.pos, min as int)),
        decreases old(self)@.rem(), 8nat,
    {
        let ghost pre = self@;
        let ghost g = pre.g();
        proof {
            g.lemma_bin(pre.pos, min as int);
        }
        let ghost whole = g.bin(pre.pos, min as int);
        let start = self.cur_pos();
        let mut e = match self.parse_unary_expr() {
            Ok(x) => x,
            Err(e) => return Err(e),
        };
        let ghost mut a = g.unary(pre.pos);
        #[verifier::loop_isolation(false)]
        loop
            invariant
                self.wf(),
                self@.pos > pre.pos,
                pre.moved(self@, a),
                a.res == Ok::<Tree, Error>(e.as_tree()),
                whole == g.bin_rest(start, a, min as int),
            decreases self@.rem(),
        {
            proof {
                g.lemma_bin_rest(start, a, min as int);
            }
            let ghost step = g.bin_step(start, a.tree(), a.next, min as int);
            match self.parse_bin_step(start, e, min) {
                Ok((x, more)) => {
                    e = x;
                    if !more {
                        return Ok(e);
                    }
                },
                Err(e) => return Err(e),
            }
            proof {
                a = step->0.after(a);
            }
        }
    }

    /// Parses an operator that binds more tightly than `min`, and the operand behind
    /// it. `e` is the left operand; it comes back where there is no such operator.
    fn parse_bin_step(&mut self, start: BytePos, e: Box<Expr>, min: u8) -> (r: PResult<
        (Box<Expr>, bool),
    >)
        requires
            old(self).wf(),
        ensures
            final(self).wf(),
            match old(self)@.g().bin_step(start, e.as_tree(), old(self)@.pos, min as int) {
                None => {
                    &&& r == Ok::<(Box<Expr>, bool), Error>((e, false))
                    &&& final(self)@ == old(self)@
                },
                Some(o) => {
                    &&& old(self)@.moved(final(self)@, o)
                    &&& match r {
                        Ok((x, more)) => {
                            &&& more
                            &&& o.res == Ok::<Tree, Error>(x.as_tree())
                            &&& old(self)@.pos < final(self)@.pos
                        },
                        Err(x) => o.res == Err::<Tree, Error>(x),
                    }
                },
            },
        decreases old(self)@.rem(), 0nat,
    {
        reveal(Gram::bin_step);
        reveal(Gram::bin);
        let t = self.cur();
        if (t == Token::As || t == Token::Satisfies) && !self.had_line_break_before_cur() && min
            < 7 {
            self.bump();
            let type_ann = match self.parse_ts_type() {
                Ok(x) => x,
                Err(e) => return Err(e),
            };
            if t == Token::As {
                let x = TsAsExpr { span: self.span(start), expr: e, type_ann };
                proof {
                    x.lemma_tree();
                    Expr::TsAs(x).lemma_tree();
                }
                return Ok((Box::new(Expr::TsAs(x)), true));
            }
            let x = TsSatisfiesExpr { span: self.span(start), expr: e, type_ann };
            proof {
                x.lemma_tree();
                Expr::TsSatisfies(x).lemma_tree();
            }
            return Ok((Box::new(Expr::TsSatisfies(x)), true));
        }
        let op = match as_binary_op(t) {
            Some(op) => op,
            None => return Ok((e, false)),
        };
        if precedence_of(op) <= min {
            return Ok((e, false));
        }
        self.bump();
        let right = match self.parse_bin_expr(right_precedence_of(op)) {
            Ok(x) => x,
            Err(e) => return Err(e),
        };
        let x = BinExpr { span: self.span(start), op, left: e, right };
        proof {
            x.lemma_tree();
            Expr::Bin(x).lemma_tree();
        }
        Ok((Box::new(Expr::Bin(x)), true))
    }

    /// Parses an operand with the operators before it.
    fn parse_unary_expr(&mut self) -> (r: PResult<Box<Expr>>)
        requires
            old(self).wf(),
        ensures
            final(self).wf(),
            yields(old(self)@, final(self)@, r, old(self)@.g().unary(old(self)@.pos)),
        decreases old(self)@.rem(), 6nat,
    {
        reveal(Gram::unary);
        reveal(Gram::subscripts);
        reveal(Gram::prefix_op);
        let start = self.cur_pos();
        let op = if self.is_zts_not_operator() {
            UnaryOp::Bang
        } else {
            match as_unary_op(self.cur()) {
                Some(op) => op,
                None => return self.parse_subscripts(),
            }
        };
        self.bump();
        let arg = match self.parse_unary_expr() {
            Ok(x) => x,
            Err(e) => return Err(e),
        };
        let x = UnaryExpr { span: self.span(start), op, arg };
        proof {
            x.lemma_tree();
            Expr::Unary(x).lemma_tree();
        }
        Ok(Box::new(Expr::Unary(x)))
    }

    /// Parses an expression with the calls, properties, templates and assertions
    /// behind it.
    fn parse_subscripts(&mut self) -> (r: PResult<Box<Expr>>)
        requires
            old(self).wf(),
        ensures
            final(self).wf(),
            yields(old(self)@, final(self)@, r, old(self)@.g().subscripts(old(self)@.pos)),
        decreases old(self)@.rem(), 4nat,
    {
        let ghost pre = self@;
        let ghost g = pre.g();
        proof {
            g.lemma_subscripts(pre.pos);
        }
        let ghost whole = g.subscripts(pre.pos);
        let start = self.cur_pos();
        let mut e = match self.parse_primary_expr() {
            Ok(x) => x,
            Err(e) => return Err(e),
        };
        let ghost mut a = g.primary(pre.pos);
        #[verifier::loop_isolation(false)]
        loop
            invariant
                self.wf(),
                self@.pos > pre.pos,
                pre.moved(self@, a),
                a.res == Ok::<Tree, Error>(e.as_tree()),
                whole == g.subscripts_rest(start, a),
            decreases self@.rem(),
        {
            proof {
                g.lemma_subscripts_rest(start, a);
            }
            let ghost step = g.subscript(start, a.tree(), a.next);
            match self.parse_subscript(start, e) {
                Ok((x, more)) => {
                    e = x;
                    if !more {
                        return Ok(e);
                    }
                },
                Err(e) => return Err(e),
            }
            proof {
                a = step->0.after(a);
            }
        }
    }

    /// Parses the call, property, template or assertion behind the expression `e`,
    /// which comes back where there is none.
    fn parse_subscript(&mut self, start: BytePos, e: Box<Expr>) -> (r: PResult<(Box<Expr>, bool)>)
        requires
            old(self).wf(),
        ensures
            final(self).wf(),
            match old(self)@.g().subscript(start, e.as_tree(), old(self)@.pos) {
                None => {
                    &&& r == Ok::<(Box<Expr>, bool), Error>((e, false))
                    &&& final(self)@ == old(self)@
                },
                Some(o) => {
                    &&& old(self)@.moved(final(self)@, o)
                    &&& match r {
                        Ok((x, more)) => {
                            &&& more
                            &&& o.res == Ok::<Tree, Error>(x.as_tree())
                            &&& old(self)@.pos < final(self)@.pos
                        },
                        Err(x) => o.res == Err::<Tree, Error>(x),
                    }
                },
            },
        decreases old(self)@.rem(), 2nat,
    {
        reveal(Gram::tpl);
        reveal(Gram::subscript);
        reveal(Gram::expr);
        reveal(Gram::comma_list);
        if self.eat(Token::Dot) {
            let name = match self.parse_ident_name() {
                Ok(x) => x,
                Err(e) => return Err(e),
            };
            let prop = MemberProp::Ident(name);
            proof {
                prop.lemma_tree();
            }
            let x = MemberExpr { span: self.span(start), obj: e, prop };
            proof {
                x.lemma_tree();
                Expr::Member(x).lemma_tree();
            }
            Ok((Box::new(Expr::Member(x)), true))
        } else if self.is(Token::LBracket) {
            let bracket = self.cur_pos();
            self.bump();
            let expr = match self.parse_expr() {
                Ok(x) => x,
                Err(e) => return Err(e),
            };
            match self.expect(Token::RBracket) {
                Ok(()) => {},
                Err(e) => return Err(e),
            }
            let prop = MemberProp::Computed(ComputedPropName { span: self.span(bracket), expr });
            proof {
                prop.lemma_tree();
            }
            let x = MemberExpr { span: self.span(start), obj: e, prop };
            proof {
                x.lemma_tree();
                Expr::Member(x).lemma_tree();
            }
            Ok((Box::new(Expr::Member(x)), true))
        } else if self.eat(Token::LParen) {
            let args = match self.parse_args() {
                Ok(x) => x,
                Err(e) => return Err(e),
            };
            match self.expect(Token::RParen) {
                Ok(()) => {},
                Err(e) => return Err(e),
            }
            let x = CallExpr {
                span: self.span(start),
                ctxt: SyntaxContext::empty(),
                callee: e,
                args,
            };
            proof {
                x.lemma_tree();
                Expr::Call(x).lemma_tree();
            }
            Ok((Box::new(Expr::Call(x)), true))
        } else if self.is(Token::NoSubstitutionTemplate) || self.is(Token::TemplateHead) {
            let tpl = match self.parse_tpl() {
                Ok(x) => Box::new(x),
                Err(e) => return Err(e),
            };
            let x = TaggedTpl {
                span: self.span(start),
                ctxt: SyntaxContext::empty(),
                tag: e,
                tpl,
            };
            proof {
                x.lemma_tree();
                Expr::TaggedTpl(x).lemma_tree();
            }
            Ok((Box::new(Expr::TaggedTpl(x)), true))
        } else if self.is(Token::Bang) && !self.had_line_break_before_cur() {
            self.bump();
            let x = TsNonNullExpr { span: self.span(start), expr: e };
            proof {
                x.lemma_tree();
                Expr::TsNonNull(x).lemma_tree();
            }
            Ok((Box::new(Expr::TsNonNull(x)), true))
        } else {
            Ok((e, false))
        }
    }

    /// Parses the arguments of a call, up to the closing parenthesis.
    fn parse_args(&mut self) -> (r: PResult<Vec<Box<Expr>>>)
        requires
            old(self).wf(),
        ensures
            final(self).wf(),
            yields_list(
                old(self)@,
                final(self)@,
                r,
                old(self)@.g().comma_list(ListKind::Args, old(self)@.pos),
            ),
        decreases old(self)@.rem(), 18nat,
    {
        reveal(Gram::comma_list);
        reveal(Gram::elem);
        let ghost pre = self@;
        let ghost g = pre.g();
        let ghost whole = g.comma_list(ListKind::Args, pre.pos);
        let ghost mut errs: Seq<Error> = Seq::empty();
        let mut v: Vec<Box<Expr>> = Vec::new();
        #[verifier::loop_isolation(false)]
        while !self.is(Token::RParen)
            invariant
                self.wf(),
                pre.later(self@, errs),
                self@.pos >= pre.pos,
                listed(whole, g.comma_list(ListKind::Args, self@.pos), v@, errs),
            decreases self@.rem(),
        {
            let ghost i = self@.pos;
            let ghost b = g.elem(ListKind::Args, i);
            proof {
                g.lemma_elem(ListKind::Args, i);
            }
            let e = match self.parse_assignment_expr() {
                Ok(e) => e,
                Err(e) => return Err(e),
            };
            proof {
                lemma_listed(
                    whole,
                    g.comma_list(ListKind::Args, i),
                    g.comma_list(ListKind::Args, b.next + 1),
                    v@,
                    e,
                    b,
                    errs,
                );
                errs = errs + b.errs;
            }
            v.push(e);
            if !self.eat(Token::Comma) {
                return Ok(v);
            }
        }
        proof {
            lemma_listed_end(whole, self@.pos, v@, errs);
        }
        Ok(v)
    }

    /// Parses the elements of an array, up to the closing bracket.
    fn parse_elems(&mut self) -> (r: PResult<Vec<Box<Expr>>>)
        requires
            old(self).wf(),
        ensures
            final(self).wf(),
            yields_list(
                old(self)@,
                final(self)@,
                r,
                old(self)@.g().comma_list(ListKind::Elems, old(self)@.pos),
            ),
        decreases old(self)@.rem(), 18nat,
    {
        reveal(Gram::comma_list);
        reveal(Gram::elem);
        let ghost pre = self@;
        let ghost g = pre.g();
        let ghost whole = g.comma_list(ListKind::Elems, pre.pos);
        let ghost mut errs: Seq<Error> = Seq::empty();
        let mut v: Vec<Box<Expr>> = Vec::new();
        #[verifier::loop_isolation(false)]
        while !self.is(Token::RBracket)
            invariant
                self.wf(),
                pre.later(self@, errs),
                self@.pos >= pre.pos,
                listed(whole, g.comma_list(ListKind::Elems, self@.pos), v@, errs),
            decreases self@.rem(),
        {
            let ghost i = self@.pos;
            let ghost b = g.elem(ListKind::Elems, i);
            proof {
                g.lemma_elem(ListKind::Elems, i);
            }
            let e = match self.parse_assignment_expr() {
                Ok(e) => e,
                Err(e) => return Err(e),
            };
            proof {
                lemma_listed(
                    whole,
                    g.comma_list(ListKind::Elems, i),
                    g.comma_list(ListKind::Elems, b.next + 1),
                    v@,
                    e,
                    b,
                    errs,
                );
                errs = errs + b.errs;
            }
            v.push(e);
            if !self.eat(Token::Comma) {
                return Ok(v);
            }
        }
        proof {
            lemma_listed_end(whole, self@.pos, v@, errs);
        }
        Ok(v)
    }

    /// Parses the properties of an object literal, up to the closing brace.
    fn parse_props(&mut self) -> (r: PResult<Vec<Prop>>)
        requires
            old(self).wf(),
        ensures
            final(self).wf(),
            yields_list(
                old(self)@,
                final(self)@,
                r,
                old(self)@.g().comma_list(ListKind::Props, old(self)@.pos),
            ),
        decreases old(self)@.rem(), 18nat,
    {
        reveal(Gram::comma_list);
        reveal(Gram::elem);
        let ghost pre = self@;
        let ghost g = pre.g();
        let ghost whole = g.comma_list(ListKind::Props, pre.pos);
        let ghost mut errs: Seq<Error> = Seq::empty();
        let mut v: Vec<Prop> = Vec::new();
        #[verifier::loop_isolation(false)]
        while !self.is(Token::RBrace)
            invariant
                self.wf(),
                pre.later(self@, errs),
                self@.pos >= pre.pos,
                listed(whole, g.comma_list(ListKind::Props, self@.pos), v@, errs),
            decreases self@.rem(),
        {
            let ghost i = self@.pos;
            let ghost b = g.elem(ListKind::Props, i);
            proof {
                g.lemma_elem(ListKind::Props, i);
            }
            let e = match self.parse_prop() {
                Ok(e) => e,
                Err(e) => return Err(e),
            };
            proof {
                lemma_listed(
                    whole,
                    g.comma_list(ListKind::Props, i),
                    g.comma_list(ListKind::Props, b.next + 1),
                    v@,
                    e,
                    b,
                    errs,
                );
                errs = errs + b.errs;
            }
            v.push(e);
            if !self.eat(Token::Comma) {
                return Ok(v);
            }
        }
        proof {
            lemma_listed_end(whole, self@.pos, v@, errs);
        }
        Ok(v)
    }

    /// Parses an expression that is one piece.
    fn parse_primary_expr(&mut self) -> (r: PResult<Box<Expr>>)
        requires
            old(self).wf(),
        ensures
            final(self).wf(),
            yields(old(self)@, final(self)@, r, old(self)@.g().primary(old(self)@.pos)),
        decreases old(self)@.rem(), 2nat,
    {
        reveal(Gram::tpl);
        reveal(Gram::primary);
        reveal(Gram::array);
        reveal(Gram::if_expr);
        reveal(Gram::match_body);
        reveal(Gram::match_header);
        reveal(Gram::object);
        reveal(Gram::paren);
        let ghost g = self@.g();
        let start = self.cur_pos();
        let t = self.cur();
        if self.syntax().zts() && t == Token::If {
            return self.parse_zts_if_expr(start);
        }
        if self.is_zts_match_keyword() {
            if let Some(r) = self.try_parse_zts_match_expr(start) {
                return r;
            }
        }
        if t.is_ident_like() {
            let i = Expr::Ident(Ident::new_no_ctxt(self.cur_text(), self.cur_span()));
            self.bump();
            proof {
                i.lemma_tree();
            }
            Ok(Box::new(i))
        } else if is_literal(t) {
            let l = Expr::Lit(self.parse_lit());
            proof {
                l.lemma_tree();
            }
            Ok(Box::new(l))
        } else if t == Token::LParen {
            self.parse_paren_expr()
        } else if t == Token::LBracket {
            self.parse_array_lit()
        } else if t == Token::LBrace {
            self.parse_object_lit()
        } else if t == Token::NoSubstitutionTemplate || t == Token::TemplateHead {
            match self.parse_tpl() {
                Ok(x) => {
                    let e = Expr::Tpl(x);
                    proof {
                        e.lemma_tree();
                    }
                    Ok(Box::new(e))
                },
                Err(e) => Err(e),
            }
        } else {
            Err(Error::new(self.cur_span(), SyntaxError::TS1109))
        }
    }

    /// The current token as a piece of a template.
    fn cur_quasi(&self) -> (q: TplElement)
        requires
            self.live(),
        ensures
            q.tree() == self@.g().quasi_at(self@.pos),
    {
        let t = self.cur();
        TplElement {
            span: self.cur_span(),
            tail: t == Token::NoSubstitutionTemplate || t == Token::TemplateTail,
            raw: self.cur_text(),
        }
    }

    /// Parses a template.
    fn parse_tpl(&mut self) -> (r: PResult<Tpl>)
        requires
            old(self).wf(),
        ensures
            final(self).wf(),
            yields(old(self)@, final(self)@, r, old(self)@.g().tpl(old(self)@.pos)),
        decreases old(self)@.rem(), 0nat,
    {
        let ghost pre = self@;
        let ghost g = pre.g();
        proof {
            g.lemma_tpl(pre.pos);
        }
        let start = self.cur_pos();
        let mut exprs: Vec<Box<Expr>> = Vec::new();
        let mut quasis: Vec<TplElement> = Vec::new();
        let first = self.cur_quasi();
        quasis.push(first);
        proof {
            assert(trees(exprs@) =~= Seq::<Tree>::empty());
            assert(trees(quasis@) =~= seq![g.quasi_at(pre.pos)]);
        }
        if self.eat(Token::NoSubstitutionTemplate) {
            let x = Tpl { span: self.span(start), exprs, quasis };
            proof {
                x.lemma_tree();
            }
            return Ok(x);
        }
        if !self.eat(Token::TemplateHead) {
            return Err(
                Error::new(
                    self.cur_span(),
                    SyntaxError::Expected(Token::NoSubstitutionTemplate, self.cur()),
                ),
            );
        }
        let ghost whole = g.tpl(pre.pos);
        let ghost mut errs: Seq<Error> = Seq::empty();
        #[verifier::loop_isolation(false)]
        loop
            invariant
                self.wf(),
                pre.later(self@, errs),
                self@.pos > pre.pos,
                whole == g.tpl_rest(start, trees(exprs@), trees(quasis@), self@.pos, errs),
            decreases self@.rem(),
        {
            let ghost x = g.expr(self@.pos);
            proof {
                g.lemma_tpl_rest(start, trees(exprs@), trees(quasis@), self@.pos, errs);
            }
            let e = match self.parse_expr() {
                Ok(x) => x,
                Err(e) => return Err(e),
            };
            let q = self.cur_quasi();
            proof {
                lemma_trees_push(exprs@, e);
                lemma_trees_push(quasis@, q);
                errs = errs + x.errs;
            }
            exprs.push(e);
            quasis.push(q);
            if self.eat(Token::TemplateTail) {
                let x = Tpl { span: self.span(start), exprs, quasis };
                proof {
                    x.lemma_tree();
                }
                return Ok(x);
            }
            match self.expect(Token::TemplateMiddle) {
                Ok(()) => {},
                Err(_) => return Err(
                    Error::new(
                        self.cur_span(),
                        SyntaxError::Expected(Token::TemplateTail, self.cur()),
                    ),
                ),
            }
        }
    }

    /// Parses `(expr)`.
    fn parse_paren_expr(&mut self) -> (r: PResult<Box<Expr>>)
        requires
            old(self).wf(),
        ensures
            final(self).wf(),
            yields(old(self)@, final(self)@, r, old(self)@.g().paren(old(self)@.pos)),
        decreases old(self)@.rem(), 0nat,
    {
        reveal(Gram::paren);
        reveal(Gram::expr);
        let start = self.cur_pos();
        match self.expect(Token::LParen) {
            Ok(()) => {},
            Err(e) => return Err(e),
        }
        let expr = match self.parse_expr() {
            Ok(x) => x,
            Err(e) => return Err(e),
        };
        match self.expect(Token::RParen) {
            Ok(()) => {},
            Err(e) => return Err(e),
        }
        let x = ParenExpr { span: self.span(start), expr };
        proof {
            x.lemma_tree();
            Expr::Paren(x).lemma_tree();
        }
        Ok(Box::new(Expr::Paren(x)))
    }

    /// Parses `[a, b]`.
    fn parse_array_lit(&mut self) -> (r: PResult<Box<Expr>>)
        requires
            old(self).wf(),
        ensures
            final(self).wf(),
            yields(old(self)@, final(self)@, r, old(self)@.g().array(old(self)@.pos)),
        decreases old(self)@.rem(), 0nat,
    {
        reveal(Gram::array);
        reveal(Gram::comma_list);
        let start = self.cur_pos();
        match self.expect(Token::LBracket) {
            Ok(()) => {},
            Err(e) => return Err(e),
        }
        let elems = match self.parse_elems() {
            Ok(x) => x,
            Err(e) => return Err(e),
        };
        match self.expect(Token::RBracket) {
            Ok(()) => {},
            Err(e) => return Err(e),
        }
        let x = ArrayLit { span: self.span(start), elems };
        proof {
            x.lemma_tree();
            Expr::Array(x).lemma_tree();
        }
        Ok(Box::new(Expr::Array(x)))
    }

    /// Parses `{ a, b: c }`.
    fn parse_object_lit(&mut self) -> (r: PResult<Box<Expr>>)
        requires
            old(self).wf(),
        ensures
            final(self).wf(),
            yields(old(self)@, final(self)@, r, old(self)@.g().object(old(self)@.pos)),
        decreases old(self)@.rem(), 0nat,
    {
        reveal(Gram::object);
        reveal(Gram::comma_list);
        let start = self.cur_pos();
        match self.expect(Token::LBrace) {
            Ok(()) => {},
            Err(e) => return Err(e),
        }
        let props = match self.parse_props() {
            Ok(x) => x,
            Err(e) => return Err(e),
        };
        match self.expect(Token::RBrace) {
            Ok(()) => {},
            Err(e) => return Err(e),
        }
        let x = ObjectLit { span: self.span(start), props };
        proof {
            x.lemma_tree();
            Expr::Object(x).lemma_tree();
        }
        Ok(Box::new(Expr::Object(x)))
    }

    /// Parses the name of a property: a word, a string or a number.
    pub(crate) fn parse_prop_name(&mut self) -> (r: PResult<PropName>)
        requires
            old(self).live(),
        ensures
            final(self).live(),
            yields(old(self)@, final(self)@, r, old(self)@.g().prop_name(old(self)@.pos)),
    {
        let t = self.cur();
        if t == Token::Str || t == Token::Num {
            reveal(is_lit);
            match self.parse_lit() {
                Lit::Str(s) => Ok(PropName::Str(s)),
                Lit::Num(n) => Ok(PropName::Num(n)),
                _ => Err(Error::new(self.cur_span(), SyntaxError::ExpectedIdent)),
            }
        } else {
            match self.parse_ident_name() {
                Ok(n) => Ok(PropName::Ident(n)),
                Err(e) => Err(e),
            }
        }
    }

    /// Parses one property of an object literal.
    fn parse_prop(&mut self) -> (r: PResult<Prop>)
        requires
            old(self).wf(),
        ensures
            final(self).wf(),
            yields(old(self)@, final(self)@, r, old(self)@.g().prop(old(self)@.pos)),
        decreases old(self)@.rem(), 0nat,
    {
        reveal(Gram::prop);
        reveal(Gram::assign);
        if self.cur().is_ident_like() && self.peek() != Token::Colon {
            let p = Prop::Shorthand(Ident::new_no_ctxt(self.cur_text(), self.cur_span()));
            self.bump();
            proof {
                p.lemma_tree();
            }
            return Ok(p);
        }
        let key = match self.parse_prop_name() {
            Ok(x) => x,
            Err(e) => return Err(e),
        };
        match self.expect(Token::Colon) {
            Ok(()) => {},
            Err(e) => return Err(e),
        }
        let value = match self.parse_assignment_expr() {
            Ok(x) => x,
            Err(e) => return Err(e),
        };
        let p = Prop::KeyValue(KeyValueProp { key, value });
        proof {
            p.lemma_tree();
        }
        Ok(p)
    }
}

} // verus!
