//! Binding patterns.
use crate::ast::expr::PropName;
use crate::ast::ident::{BindingIdent, Ident, IdentName};
use crate::ast::pat::{
    AssignPat, AssignPatProp, KeyValuePatProp, ObjectPat, ObjectPatProp, Pat, RestPat,
};
use crate::ast::typescript::TsTypeAnn;
use crate::error::{Error, PResult, SyntaxError};
use crate::grammar::{Gram, ListKind};
use crate::parser::input::{lemma_listed, lemma_listed_end, listed, yields, yields_list, Parser};
use crate::token::Token;
use vstd::prelude::*;

verus! {

impl Parser {
    /// The current token as a binding without a type.
    pub(crate) fn cur_binding(&self) -> (b: BindingIdent)
        requires
            self.live(),
        ensures
            b.tree() == self@.g().binding_at(self@.pos),
    {
        let b = BindingIdent {
            id: Ident::new_no_ctxt(self.cur_text(), self.cur_span()),
            type_ann: None,
        };
        proof {
            b.lemma_tree();
        }
        b
    }

    /// Parses an identifier or an object pattern.
    pub fn parse_pat(&mut self) -> (r: PResult<Pat>)
        requires
            old(self).wf(),
        ensures
            final(self).wf(),
            yields(old(self)@, final(self)@, r, old(self)@.g().pat(old(self)@.pos)),
            r matches Ok(p) ==> p is Ident || p is Object,
        decreases old(self)@.rem(), 2nat,
    {
        reveal(Gram::pat);
        reveal(Gram::object_pat);
        let t = self.cur();
        if t.is_ident_like() {
            let b = self.cur_binding();
            self.bump();
            let p = Pat::Ident(b);
            proof {
                p.lemma_tree();
            }
            Ok(p)
        } else if t == Token::LBrace {
            match self.parse_object_pat() {
                Ok(o) => {
                    let p = Pat::Object(o);
                    proof {
                        p.lemma_tree();
                    }
                    Ok(p)
                },
                Err(e) => Err(e),
            }
        } else {
            Err(Error::new(self.cur_span(), SyntaxError::ExpectedIdent))
        }
    }

    /// Parses `{ a, b: c, ...rest }`.
    pub fn parse_object_pat(&mut self) -> (r: PResult<ObjectPat>)
        requires
            old(self).wf(),
        ensures
            final(self).wf(),
            yields(old(self)@, final(self)@, r, old(self)@.g().object_pat(old(self)@.pos)),
        decreases old(self)@.rem(), 0nat,
    {
        reveal(Gram::object_pat);
        reveal(Gram::comma_list);
        let start = self.cur_pos();
        match self.expect(Token::LBrace) {
            Ok(()) => {},
            Err(e) => return Err(e),
        }
        let props = match self.parse_object_pat_props() {
            Ok(x) => x,
            Err(e) => return Err(e),
        };
        match self.expect(Token::RBrace) {
            Ok(()) => {},
            Err(e) => return Err(e),
        }
        let o = ObjectPat { span: self.span(start), props, optional: false, type_ann: None };
        proof {
            o.lemma_tree();
        }
        Ok(o)
    }

    /// Parses the properties of an object pattern, up to the closing brace.
    fn parse_object_pat_props(&mut self) -> (r: PResult<Vec<ObjectPatProp>>)
        requires
            old(self).wf(),
        ensures
            final(self).wf(),
            yields_list(
                old(self)@,
                final(self)@,
                r,
                old(self)@.g().comma_list(ListKind::PatProps, old(self)@.pos),
            ),
        decreases old(self)@.rem(), 18nat,
    {
        reveal(Gram::comma_list);
        reveal(Gram::elem);
        let ghost pre = self@;
        let ghost g = pre.g();
        let ghost whole = g.comma_list(ListKind::PatProps, pre.pos);
        let ghost mut errs: Seq<Error> = Seq::empty();
        let mut v: Vec<ObjectPatProp> = Vec::new();
        #[verifier::loop_isolation(false)]
        while !self.is(Token::RBrace)
            invariant
                self.wf(),
                pre.later(self@, errs),
                self@.pos >= pre.pos,
                listed(whole, g.comma_list(ListKind::PatProps, self@.pos), v@, errs),
            decreases self@.rem(),
        {
            let ghost i = self@.pos;
            let ghost b = g.elem(ListKind::PatProps, i);
            proof {
                g.lemma_elem(ListKind::PatProps, i);
            }
            let e = match self.parse_object_pat_prop() {
                Ok(e) => e,
                Err(e) => return Err(e),
            };
            proof {
                lemma_listed(
                    whole,
                    g.comma_list(ListKind::PatProps, i),
                    g.comma_list(ListKind::PatProps, b.next + 1),
                    v@,
                    e,
                    b,
                    errs,
                );
                errs = errs + b.errs;
            }
            v.push(e);
            if !self.eat(Token::Comma) {
                return Ok(v);
            }
        }
        proof {
            lemma_listed_end(whole, self@.pos, v@, errs);
        }
        Ok(v)
    }

    /// Parses one property of an object pattern.
    fn parse_object_pat_prop(&mut self) -> (r: PResult<ObjectPatProp>)
        requires
            old(self).wf(),
        ensures
            final(self).wf(),
            yields(old(self)@, final(self)@, r, old(self)@.g().pat_prop(old(self)@.pos)),
        decreases old(self)@.rem(), 0nat,
    {
        reveal(Gram::pat_prop);
        reveal(Gram::assign);
        reveal(Gram::pat);
        reveal(Gram::pat_elem);
        let start = self.cur_pos();
        let span = self.cur_span();
        if self.is(Token::DotDotDot) {
            self.bump();
            let arg = match self.parse_pat() {
                Ok(x) => x,
                Err(e) => return Err(e),
            };
            let p = RestPat { span: self.span(start), dot3_token: span, arg: Box::new(arg) };
            let p = ObjectPatProp::Rest(p);
            proof {
                p.lemma_tree();
            }
            Ok(p)
        } else if self.cur().is_word() && self.peek() == Token::Colon {
            let key = PropName::Ident(IdentName { span, sym: self.cur_text() });
            self.bump();
            self.bump();
            let value = match self.parse_pat_elem() {
                Ok(x) => x,
                Err(e) => return Err(e),
            };
            let p = ObjectPatProp::KeyValue(KeyValuePatProp { key, value: Box::new(value) });
            proof {
                p.lemma_tree();
            }
            Ok(p)
        } else if !self.cur().is_ident_like() {
            Err(Error::new(span, SyntaxError::ExpectedIdent))
        } else {
            let key = self.cur_binding();
            self.bump();
            let value = if self.eat(Token::Eq) {
                match self.parse_assignment_expr() {
                    Ok(x) => Some(x),
                    Err(e) => return Err(e),
                }
            } else {
                None
            };
            let p = ObjectPatProp::Assign(AssignPatProp { span: self.span(start), key, value });
            proof {
                p.lemma_tree();
            }
            Ok(p)
        }
    }

    /// Parses a pattern that may have a default.
    fn parse_pat_elem(&mut self) -> (r: PResult<Pat>)
        requires
            old(self).wf(),
        ensures
            final(self).wf(),
            yields(old(self)@, final(self)@, r, old(self)@.g().pat_elem(old(self)@.pos)),
        decreases old(self)@.rem(), 4nat,
    {
        reveal(Gram::pat_elem);
        reveal(Gram::pat);
        reveal(Gram::with_default);
        reveal(Gram::assign);
        let start = self.cur_pos();
        let left = match self.parse_pat() {
            Ok(x) => x,
            Err(e) => return Err(e),
        };
        if !self.eat(Token::Eq) {
            return Ok(left);
        }
        let right = match self.parse_assignment_expr() {
            Ok(x) => x,
            Err(e) => return Err(e),
        };
        let p = AssignPat { span: self.span(start), left: Box::new(left), right };
        proof {
            p.lemma_tree();
            Pat::Assign(p).lemma_tree();
        }
        Ok(Pat::Assign(p))
    }

    /// Parses a pattern that may have a type.
    pub(crate) fn parse_binding(&mut self) -> (r: PResult<Pat>)
        requires
            old(self).wf(),
        ensures
            final(self).wf(),
            yields(old(self)@, final(self)@, r, old(self)@.g().binding(old(self)@.pos)),
        decreases old(self)@.rem(), 4nat,
    {
        reveal(Gram::binding);
        reveal(Gram::pat);
        let p = match self.parse_pat() {
            Ok(x) => x,
            Err(e) => return Err(e),
        };
        if !self.is(Token::Colon) {
            return Ok(p);
        }
        let start = self.cur_pos();
        self.bump();
        let type_ann = match self.parse_ts_type() {
            Ok(x) => x,
            Err(e) => return Err(e),
        };
        let ann = TsTypeAnn { span: self.span(start), type_ann };
        proof {
            ann.lemma_tree();
            p.lemma_tree();
        }
        let typed = match p {
            Pat::Ident(b) => {
                let t = BindingIdent { id: b.id, type_ann: Some(Box::new(ann)) };
                proof {
                    b.lemma_tree();
                    t.lemma_tree();
                }
                Pat::Ident(t)
            },
            Pat::Object(o) => {
                let t = ObjectPat {
                    span: o.span,
                    props: o.props,
                    optional: o.optional,
                    type_ann: Some(Box::new(ann)),
                };
                proof {
                    o.lemma_tree();
                    t.lemma_tree();
                }
                Pat::Object(t)
            },
            _ => p,
        };
        proof {
            typed.lemma_tree();
        }
        Ok(typed)
    }

    /// Parses a parameter of an arrow function.
    fn parse_param(&mut self) -> (r: PResult<Pat>)
        requires
            old(self).wf(),
        ensures
            final(self).wf(),
            yields(old(self)@, final(self)@, r, old(self)@.g().param(old(self)@.pos)),
        decreases old(self)@.rem(), 6nat,
    {
        reveal(Gram::param);
        reveal(Gram::binding);
        reveal(Gram::with_default);
        reveal(Gram::assign);
        let start = self.cur_pos();
        let left = match self.parse_binding() {
            Ok(x) => x,
            Err(e) => return Err(e),
        };
        if !self.eat(Token::Eq) {
            return Ok(left);
        }
        let right = match self.parse_assignment_expr() {
            Ok(x) => x,
            Err(e) => return Err(e),
        };
        let p = AssignPat { span: self.span(start), left: Box::new(left), right };
        proof {
            p.lemma_tree();
            Pat::Assign(p).lemma_tree();
        }
        Ok(Pat::Assign(p))
    }

    /// Parses the parameters of an arrow function, up to the closing parenthesis.
    pub(crate) fn parse_params(&mut self) -> (r: PResult<Vec<Pat>>)
        requires
            old(self).wf(),
        ensures
            final(self).wf(),
            yields_list(
                old(self)@,
                final(self)@,
                r,
                old(self)@.g().comma_list(ListKind::Params, old(self)@.pos),
            ),
        decreases old(self)@.rem(), 18nat,
    {
        reveal(Gram::comma_list);
        reveal(Gram::elem);
        let ghost pre = self@;
        let ghost g = pre.g();
        let ghost whole = g.comma_list(ListKind::Params, pre.pos);
        let ghost mut errs: Seq<Error> = Seq::empty();
        let mut v: Vec<Pat> = Vec::new();
        #[verifier::loop_isolation(false)]
        while !self.is(Token::RParen)
            invariant
                self.wf(),
                pre.later(self@, errs),
                self@.pos >= pre.pos,
                listed(whole, g.comma_list(ListKind::Params, self@.pos), v@, errs),
            decreases self@.rem(),
        {
            let ghost i = self@.pos;
            let ghost b = g.elem(ListKind::Params, i);
            proof {
                g.lemma_elem(ListKind::Params, i);
            }
            let e = match self.parse_param() {
                Ok(e) => e,
                Err(e) => return Err(e),
            };
            proof {
                lemma_listed(
                    whole,
                    g.comma_list(ListKind::Params, i),
                    g.comma_list(ListKind::Params, b.next + 1),
                    v@,
                    e,
                    b,
                    errs,
                );
                errs = errs + b.errs;
            }
            v.push(e);
            if !self.eat(Token::Comma) {
                return Ok(v);
            }
        }
        proof {
            lemma_listed_end(whole, self@.pos, v@, errs);
        }
        Ok(v)
    }
}

} // verus!
