//! Names, literals, types, and the enums of TypeScript.
use crate::ast::ident::{Ident, IdentName};
use crate::ast::lit::{BigInt, Bool, Lit, Null, Number, Str};
use crate::ast::typescript::{
    TsArrayType, TsEnumDecl, TsEnumMember, TsKeywordType, TsKeywordTypeKind, TsLitType,
    TsParenthesizedType, TsType, TsTypeRef, TsUnionType,
};
use crate::error::{Error, PResult, SyntaxError};
use crate::grammar::{is_lit, keyword_type, Gram, ListKind};
use crate::laws::spelling::names_type;
use crate::parser::input::{
    lemma_behind, lemma_listed, lemma_listed_end, listed, yields, yields_list, Parser,
};
use crate::span::BytePos;
use crate::token::Token;
use crate::tree::{lemma_trees_push, trees, HasTree, Tree};
use vstd::prelude::*;

verus! {

impl Parser {
    /// Parses a name: any word.
    pub fn parse_ident_name(&mut self) -> (r: PResult<IdentName>)
        requires
            old(self).live(),
        ensures
            final(self).live(),
            yields(old(self)@, final(self)@, r, old(self)@.g().name(old(self)@.pos)),
    {
        if self.cur().is_word() {
            let name = IdentName { span: self.cur_span(), sym: self.cur_text() };
            self.bump();
            Ok(name)
        } else {
            Err(Error::new(self.cur_span(), SyntaxError::ExpectedIdent))
        }
    }

    /// Parses the name of something that is declared: any word.
    pub(crate) fn parse_decl_name(&mut self) -> (r: PResult<Ident>)
        requires
            old(self).live(),
        ensures
            final(self).live(),
            yields(old(self)@, final(self)@, r, old(self)@.g().decl_name(old(self)@.pos)),
    {
        match self.parse_ident_name() {
            Ok(name) => Ok(Ident::new_no_ctxt(name.sym, name.span)),
            Err(e) => Err(e),
        }
    }

    /// Parses a literal.
    pub fn parse_lit(&mut self) -> (r: Lit)
        requires
            old(self).live(),
            is_lit(old(self)@.g().kind(old(self)@.pos)),
        ensures
            final(self).live(),
            final(self)@.pos == old(self)@.pos + 1,
            old(self)@.moved(
                final(self)@,
                crate::grammar::good(old(self)@.g().lit_at(old(self)@.pos), old(self)@.pos + 1),
            ),
            r.tree() == old(self)@.g().lit_at(old(self)@.pos),
    {
        reveal(is_lit);
        let span = self.cur_span();
        let t = self.cur();
        let lit = if t == Token::Str {
            Lit::Str(Str { span, raw: self.cur_text() })
        } else if t == Token::Num {
            Lit::Num(Number { span, raw: self.cur_text() })
        } else if t == Token::BigInt {
            Lit::BigInt(BigInt { span, raw: self.cur_text() })
        } else if t == Token::True {
            Lit::Bool(Bool { span, value: true })
        } else if t == Token::False {
            Lit::Bool(Bool { span, value: false })
        } else {
            Lit::Null(Null { span })
        };
        self.bump();
        lit
    }

    /// The type that the current word names.
    fn cur_keyword_type(&self) -> (k: Option<TsKeywordTypeKind>)
        requires
            self.live(),
        ensures
            k == keyword_type(self@.g().kind(self@.pos), self@.g().text(self@.pos)),
            k is Some ==> self@.g().kind(self@.pos) != Token::Eof,
            k is Some ==> names_type(k->0, self@.g().kind(self@.pos), self@.g().text(self@.pos)),
    {
        reveal(keyword_type);
        let t = self.cur();
        if t == Token::Void {
            Some(TsKeywordTypeKind::TsVoidKeyword)
        } else if t == Token::Null {
            Some(TsKeywordTypeKind::TsNullKeyword)
        } else if t != Token::Ident {
            None
        } else if self.cur_text_is("any") {
            Some(TsKeywordTypeKind::TsAnyKeyword)
        } else if self.cur_text_is("unknown") {
            Some(TsKeywordTypeKind::TsUnknownKeyword)
        } else if self.cur_text_is("number") {
            Some(TsKeywordTypeKind::TsNumberKeyword)
        } else if self.cur_text_is("object") {
            Some(TsKeywordTypeKind::TsObjectKeyword)
        } else if self.cur_text_is("boolean") {
            Some(TsKeywordTypeKind::TsBooleanKeyword)
        } else if self.cur_text_is("bigint") {
            Some(TsKeywordTypeKind::TsBigIntKeyword)
        } else if self.cur_text_is("string") {
            Some(TsKeywordTypeKind::TsStringKeyword)
        } else if self.cur_text_is("symbol") {
            Some(TsKeywordTypeKind::TsSymbolKeyword)
        } else if self.cur_text_is("undefined") {
            Some(TsKeywordTypeKind::TsUndefinedKeyword)
        } else if self.cur_text_is("never") {
            Some(TsKeywordTypeKind::TsNeverKeyword)
        } else {
            None
        }
    }

    /// Parses a type.
    pub fn parse_ts_type(&mut self) -> (r: PResult<Box<TsType>>)
        requires
            old(self).live(),
        ensures
            final(self).live(),
            yields(old(self)@, final(self)@, r, old(self)@.g().ty(old(self)@.pos)),
        decreases old(self)@.rem(), 3nat,
    {
        reveal(Gram::ty);
        reveal(Gram::more_types);
        reveal(Gram::ty_postfix);
        let ghost pre = self@;
        let ghost g = pre.g();
        let start = self.cur_pos();
        let first = match self.parse_ts_postfix_type() {
            Ok(t) => t,
            Err(e) => return Err(e),
        };
        if !self.is(Token::Pipe) {
            return Ok(first);
        }
        let ghost a = g.ty_postfix(pre.pos);
        let ghost whole = g.more_types(a.next).behind(seq![a.tree()], a.errs);
        let mut types: Vec<Box<TsType>> = Vec::new();
        let ghost mut errs = a.errs;
        types.push(first);
        proof {
            assert(trees(types@) =~= seq![a.tree()]);
        }
        #[verifier::loop_isolation(false)]
        while self.is(Token::Pipe)
            invariant
                self.live(),
                pre.later(self@, errs),
                self@.pos >= a.next,
                whole == g.more_types(self@.pos).behind(trees(types@), errs),
            decreases self@.rem(),
        {
            self.bump();
            let ghost b = g.ty_postfix(self@.pos);
            let t = match self.parse_ts_postfix_type() {
                Ok(t) => t,
                Err(e) => return Err(e),
            };
            proof {
                lemma_behind(g.more_types(b.next), trees(types@), b.tree(), errs, b.errs);
                lemma_trees_push(types@, t);
                errs = errs + b.errs;
            }
            types.push(t);
        }
        let t = TsType::TsUnionType(TsUnionType { span: self.span(start), types });
        proof {
            t.lemma_tree();
            assert(trees(types@) =~= trees(types@) + Seq::<Tree>::empty());
        }
        Ok(Box::new(t))
    }

    /// Parses a type and the `[]` behind it.
    fn parse_ts_postfix_type(&mut self) -> (r: PResult<Box<TsType>>)
        requires
            old(self).live(),
        ensures
            final(self).live(),
            yields(old(self)@, final(self)@, r, old(self)@.g().ty_postfix(old(self)@.pos)),
        decreases old(self)@.rem(), 2nat,
    {
        reveal(Gram::ty_postfix);
        reveal(Gram::ty_primary);
        reveal(Gram::ty_suffix);
        let ghost pre = self@;
        let ghost g = pre.g();
        let start = self.cur_pos();
        let mut t = match self.parse_ts_primary_type() {
            Ok(t) => t,
            Err(e) => return Err(e),
        };
        let ghost whole = g.ty_postfix(pre.pos);
        let ghost mut a = g.ty_primary(pre.pos);
        #[verifier::loop_isolation(false)]
        while self.is(Token::LBracket) && !self.had_line_break_before_cur()
            invariant
                self.live(),
                self@.pos > pre.pos,
                pre.moved(self@, a),
                a.res == Ok::<Tree, Error>(t.as_tree()),
                whole == g.ty_suffix(start, a),
            decreases self@.rem(),
        {
            self.bump();
            match self.expect(Token::RBracket) {
                Ok(()) => {},
                Err(e) => return Err(e),
            }
            t = Box::new(TsType::TsArrayType(TsArrayType { span: self.span(start), elem_type: t }));
            proof {
                t.lemma_tree();
                a = a.grown(t.as_tree(), a.next + 2);
            }
        }
        Ok(t)
    }

    /// Parses a type without suffixes.
    fn parse_ts_primary_type(&mut self) -> (r: PResult<Box<TsType>>)
        requires
            old(self).live(),
        ensures
            final(self).live(),
            yields(old(self)@, final(self)@, r, old(self)@.g().ty_primary(old(self)@.pos)),
        decreases old(self)@.rem(), 1nat,
    {
        reveal(Gram::ty_primary);
        reveal(Gram::ty);
        let start = self.cur_pos();
        let span = self.cur_span();
        let t = self.cur();
        if t == Token::LParen {
            self.bump();
            let type_ann = match self.parse_ts_type() {
                Ok(t) => t,
                Err(e) => return Err(e),
            };
            match self.expect(Token::RParen) {
                Ok(()) => {},
                Err(e) => return Err(e),
            }
            let t = TsType::TsParenthesizedType(
                TsParenthesizedType { span: self.span(start), type_ann },
            );
            proof {
                t.lemma_tree();
            }
            Ok(Box::new(t))
        } else if t == Token::Str || t == Token::Num || t == Token::True || t == Token::False {
            reveal(is_lit);
            let lit = self.parse_lit();
            let t = TsType::TsLitType(TsLitType { span, lit });
            proof {
                t.lemma_tree();
            }
            Ok(Box::new(t))
        } else {
            match self.cur_keyword_type() {
                Some(kind) => {
                    self.bump();
                    let t = TsType::TsKeywordType(TsKeywordType { span, kind });
                    proof {
                        t.lemma_tree();
                    }
                    Ok(Box::new(t))
                },
                None => {
                    if t.is_ident_like() {
                        let name = Ident::new_no_ctxt(self.cur_text(), span);
                        self.bump();
                        let t = TsType::TsTypeRef(TsTypeRef { span, name });
                        proof {
                            t.lemma_tree();
                        }
                        Ok(Box::new(t))
                    } else {
                        Err(Error::new(span, SyntaxError::TypeExpected))
                    }
                },
            }
        }
    }

    /// Parses an enum of TypeScript behind the word `enum`.
    pub fn parse_ts_enum_decl(&mut self, start: BytePos, is_const: bool) -> (r: PResult<TsEnumDecl>)
        requires
            old(self).live(),
        ensures
            final(self).live(),
            yields(
                old(self)@,
                final(self)@,
                r,
                old(self)@.g().ts_enum(old(self)@.pos, start, is_const, old(self)@.declare),
            ),
        decreases old(self)@.rem(), 0nat,
    {
        reveal(Gram::ts_enum);
        reveal(Gram::comma_list);
        let declare = self.in_declare();
        let id = match self.parse_decl_name() {
            Ok(x) => x,
            Err(e) => return Err(e),
        };
        match self.expect(Token::LBrace) {
            Ok(()) => {},
            Err(e) => return Err(e),
        }
        self.set_declare(false);
        let members = self.parse_ts_enum_members();
        self.set_declare(declare);
        let members = match members {
            Ok(x) => x,
            Err(e) => return Err(e),
        };
        match self.expect(Token::RBrace) {
            Ok(()) => {},
            Err(e) => return Err(e),
        }
        let x = TsEnumDecl { span: self.span(start), declare, is_const, id, members };
        proof {
            x.lemma_tree();
        }
        Ok(x)
    }

    /// Parses the members of an enum, up to the closing brace.
    fn parse_ts_enum_members(&mut self) -> (r: PResult<Vec<TsEnumMember>>)
        requires
            old(self).wf(),
        ensures
            final(self).wf(),
            yields_list(
                old(self)@,
                final(self)@,
                r,
                old(self)@.g().comma_list(ListKind::TsMembers, old(self)@.pos),
            ),
        decreases old(self)@.rem(), 18nat,
    {
        reveal(Gram::comma_list);
        reveal(Gram::elem);
        let ghost pre = self@;
        let ghost g = pre.g();
        let ghost whole = g.comma_list(ListKind::TsMembers, pre.pos);
        let ghost mut errs: Seq<Error> = Seq::empty();
        let mut v: Vec<TsEnumMember> = Vec::new();
        #[verifier::loop_isolation(false)]
        while !self.is(Token::RBrace)
            invariant
                self.wf(),
                pre.later(self@, errs),
                self@.pos >= pre.pos,
                listed(whole, g.comma_list(ListKind::TsMembers, self@.pos), v@, errs),
            decreases self@.rem(),
        {
            let ghost i = self@.pos;
            let ghost b = g.elem(ListKind::TsMembers, i);
            proof {
                g.lemma_elem(ListKind::TsMembers, i);
            }
            let e = match self.parse_ts_enum_member() {
                Ok(e) => e,
                Err(e) => return Err(e),
            };
            proof {
                lemma_listed(
                    whole,
                    g.comma_list(ListKind::TsMembers, i),
                    g.comma_list(ListKind::TsMembers, b.next + 1),
                    v@,
                    e,
                    b,
                    errs,
                );
                errs = errs + b.errs;
            }
            v.push(e);
            if !self.eat(Token::Comma) {
                return Ok(v);
            }
        }
        proof {
            lemma_listed_end(whole, self@.pos, v@, errs);
        }
        Ok(v)
    }

    /// Parses `Green = 2`.
    fn parse_ts_enum_member(&mut self) -> (r: PResult<TsEnumMember>)
        requires
            old(self).wf(),
        ensures
            final(self).wf(),
            yields(old(self)@, final(self)@, r, old(self)@.g().ts_member(old(self)@.pos)),
        decreases old(self)@.rem(), 0nat,
    {
        reveal(Gram::ts_member);
        reveal(Gram::assign);
        let start = self.cur_pos();
        let id = match self.parse_prop_name() {
            Ok(x) => x,
            Err(e) => return Err(e),
        };
        let init = if self.eat(Token::Eq) {
            match self.parse_assignment_expr() {
                Ok(x) => Some(x),
                Err(e) => return Err(e),
            }
        } else {
            None
        };
        let x = TsEnumMember { span: self.span(start), id, init };
        proof {
            x.lemma_tree();
        }
        Ok(x)
    }
}

} // verus!
