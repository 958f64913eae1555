//! What patterns and types are made of, and which of them are accepted.
use crate::ast::typescript::TsKeywordTypeKind;
use crate::error::{Error, SyntaxError};
use crate::grammar::{keyword_type, Gram, ListKind, Out};
use crate::laws::meaning::{is_ident_at, is_literal_at, is_name_at};
use crate::laws::refusals::{missing, no_word};
use crate::laws::sound::{
    sound_assign, sound_comma_list, sound_more_types, sound_pat, sound_pat_elem, sound_ty,
    sound_ty_postfix, sound_ty_primary,
};
use crate::laws::spelling::names_type;
use crate::span::BytePos;
use crate::token::Token;
use crate::tree::{kids1, node, Label, Tree};
use vstd::prelude::*;

verus! {

/// An object pattern is its properties between braces. It is refused for a brace or for
/// its properties.
pub proof fn object_patterns_are_their_properties(g: Gram, i: int)
    requires
        0 <= i,
    ensures
        ({
            let l = g.comma_list(ListKind::PatProps, i + 1);
            let o = g.object_pat(i);
            &&& o.res is Ok <==> g.kind(i) == Token::LBrace && l.res is Ok && g.kind(l.next)
                == Token::RBrace
            &&& o.res is Err ==> o.res == if g.kind(i) != Token::LBrace {
                missing(g, Token::LBrace, i)
            } else if l.res is Err {
                l.res
            } else {
                missing(g, Token::RBrace, l.next)
            }
            &&& o.res is Ok ==> {
                &&& o.next == l.next + 1
                &&& o.errs == l.errs
                &&& o.tree().label == (Label::ObjectPat { optional: false })
                &&& o.tree().kids.len() == 2
                &&& o.tree().kids[0] == l.tree()
                &&& o.tree().kids[1].label is Absent
            }
        }),
{
    reveal(Gram::object_pat);
    reveal(Gram::comma_list);
    sound_comma_list(g, ListKind::PatProps, i + 1);
}

/// Whether a tree is the binding that the token at an index is.
pub open spec fn is_binding_at(g: Gram, t: Tree, i: int) -> bool {
    &&& t.label is BindingIdent
    &&& t.span == g.toks[i].span
    &&& t.kids.len() == 2
    &&& is_ident_at(g, t.kids[0], i)
    &&& t.kids[1].label is Absent
}

/// A property of an object pattern binds what is left over, behind `...`; what a
/// pattern does, behind a name and a colon; or a name, with a default or without. It is
/// refused for the part that is refused.
pub proof fn properties_bind_what_they_name(g: Gram, i: int)
    requires
        0 <= i,
    ensures
        ({
            let o = g.pat_prop(i);
            let t = o.tree();
            if g.kind(i) == Token::DotDotDot {
                let a = g.pat(i + 1);
                &&& o.res is Ok <==> a.res is Ok
                &&& a.res is Err ==> o.res == a.res
                &&& o.res is Ok ==> {
                    &&& t.label == (Label::Rest { dots: g.toks[i].span })
                    &&& t.kids.len() == 1 && t.kids[0] == a.tree()
                    &&& o.next == a.next
                }
            } else if g.kind(i).is_word() && g.kind(i + 1) == Token::Colon {
                let a = g.pat_elem(i + 2);
                &&& o.res is Ok <==> a.res is Ok
                &&& a.res is Err ==> o.res == a.res
                &&& o.res is Ok ==> {
                    &&& t.label is KeyValuePat
                    &&& t.kids.len() == 2 && is_name_at(g, t.kids[0], i) && t.kids[1] == a.tree()
                    &&& o.next == a.next
                }
            } else if !g.kind(i).is_ident_like() {
                o.res == no_word(g, i)
            } else if g.kind(i + 1) == Token::Eq {
                let a = g.assign(i + 2);
                &&& o.res is Ok <==> a.res is Ok
                &&& a.res is Err ==> o.res == a.res
                &&& o.res is Ok ==> {
                    &&& t.label is AssignPatProp
                    &&& t.kids.len() == 2 && is_binding_at(g, t.kids[0], i) && t.kids[1]
                        == a.tree()
                    &&& o.next == a.next
                }
            } else {
                &&& o.res is Ok && o.next == i + 1
                &&& t.label is AssignPatProp
                &&& t.kids.len() == 2 && is_binding_at(g, t.kids[0], i) && t.kids[1].label is Absent
            }
        }),
{
    reveal(Gram::pat_prop);
    reveal(Gram::assign);
    reveal(Gram::pat);
    reveal(Gram::pat_elem);
    sound_pat(g, i + 1);
    sound_pat_elem(g, i + 2);
    sound_assign(g, i + 2);
}

/// A type without suffixes is a type in parentheses, a literal, a word of the language
/// that names a type, or an identifier. Nothing else is.
pub proof fn types_start_with_a_piece(g: Gram, i: int)
    requires
        0 <= i,
    ensures
        ({
            let a = g.ty(i + 1);
            let o = g.ty_primary(i);
            let k = g.kind(i);
            let named = exists|kind: TsKeywordTypeKind| #[trigger]
                names_type(kind, k, g.text(i));
            let lit = k == Token::Str || k == Token::Num || k == Token::True || k == Token::False;
            if k == Token::LParen {
                &&& o.res is Ok <==> a.res is Ok && g.kind(a.next) == Token::RParen
                &&& o.res is Err ==> o.res == if a.res is Err {
                    a.res
                } else {
                    missing(g, Token::RParen, a.next)
                }
                &&& o.res is Ok ==> {
                    &&& o.tree().label is TsParenthesized
                    &&& o.tree().kids.len() == 1 && o.tree().kids[0] == a.tree()
                    &&& o.next == a.next + 1
                }
            } else if lit {
                &&& o.res is Ok && o.next == i + 1
                &&& o.tree().label is TsLitType
                &&& o.tree().kids.len() == 1 && is_literal_at(g, o.tree().kids[0], i)
            } else if named {
                o.res is Ok && o.next == i + 1 && o.tree().label is TsKeyword
            } else if k.is_ident_like() {
                &&& o.res is Ok && o.next == i + 1
                &&& o.tree().label is TsTypeRef
                &&& o.tree().kids.len() == 1 && is_ident_at(g, o.tree().kids[0], i)
            } else {
                o.res == Err::<Tree, Error>(
                    Error { span: g.toks[i].span, error: SyntaxError::TypeExpected },
                )
            }
        }),
{
    reveal(Gram::ty_primary);
    reveal(Gram::ty);
    let k = g.kind(i);
    let named = keyword_type(k, g.text(i));
    assert(named is Some ==> names_type(named->0, k, g.text(i))) by {
        reveal(keyword_type);
    }
    assert forall|kind: TsKeywordTypeKind| #[trigger]
        names_type(kind, k, g.text(i)) implies named is Some by {
        reveal(keyword_type);
    }
    sound_ty(g, i + 1);
}

/// Each `[]` on the line of what stands before it makes an array of it.
pub proof fn brackets_make_arrays(g: Gram, start: BytePos, a: Out)
    requires
        0 <= a.next,
        a.res is Ok,
    ensures
        ({
            let o = g.ty_suffix(start, a);
            if g.kind(a.next) != Token::LBracket || g.nl(a.next) {
                o == a
            } else if g.kind(a.next + 1) != Token::RBracket {
                o.res == missing(g, Token::RBracket, a.next + 1)
            } else {
                exists|t: Tree| #[trigger]
                    is_array_of(t, a.tree()) && o == g.ty_suffix(
                        start,
                        Out { res: Ok(t), next: a.next + 2, errs: a.errs },
                    )
            }
        }),
{
    reveal(Gram::ty_suffix);
    if g.kind(a.next) == Token::LBracket && !g.nl(a.next) && g.kind(a.next + 1)
        == Token::RBracket {
        let t = node(
            Label::TsArray,
            g.span(start, a.next + 2),
            kids1(a.tree()),
        );
        assert(is_array_of(t, a.tree()));
    }
}

/// Whether a tree is the type of arrays of a type.
pub open spec fn is_array_of(t: Tree, e: Tree) -> bool {
    t.label is TsArray && t.kids.len() == 1 && t.kids[0] == e
}

/// A type without `|` is what stands there; one with `|` is a union, of what stands
/// before the first `|` and of what stands behind it and the others.
pub proof fn unions_are_their_types(g: Gram, i: int)
    requires
        0 <= i,
    ensures
        ({
            let a = g.ty_postfix(i);
            let m = g.more_types(a.next);
            let o = g.ty(i);
            &&& a.res is Err ==> o.res == a.res
            &&& a.res is Ok && g.kind(a.next) != Token::Pipe ==> o == a
            &&& a.res is Ok && g.kind(a.next) == Token::Pipe ==> {
                &&& o.res is Ok <==> m.res is Ok
                &&& m.res is Err ==> o.res == m.res
                &&& o.res is Ok ==> {
                    &&& o.next == m.next
                    &&& o.tree().label is TsUnion
                    &&& o.tree().kids.len() == 1 + m.tree().kids.len()
                    &&& o.tree().kids[0] == a.tree()
                    &&& forall|n: int|
                        0 <= n < m.tree().kids.len() ==> #[trigger] m.tree().kids[n]
                            == o.tree().kids[n + 1]
                }
            }
        }),
{
    reveal(Gram::ty);
    reveal(Gram::ty_postfix);
    reveal(Gram::more_types);
    sound_ty_postfix(g, i);
    if g.ty_postfix(i).res is Ok {
        sound_more_types(g, g.ty_postfix(i).next);
    }
}

/// A type with suffixes is refused for its piece.
pub proof fn types_are_pieces_with_suffixes(g: Gram, i: int)
    requires
        0 <= i,
    ensures
        g.ty_primary(i).res is Err ==> g.ty_postfix(i).res == g.ty_primary(i).res,
        g.ty_primary(i).res is Ok ==> g.ty_postfix(i) == g.ty_suffix(g.lo(i), g.ty_primary(i)),
{
    reveal(Gram::ty_postfix);
    reveal(Gram::ty_primary);
    reveal(Gram::ty_suffix);
    sound_ty_primary(g, i);
}

} // verus!
