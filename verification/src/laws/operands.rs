//! What expressions and statements are made of, and which of them are accepted.
use crate::ast::expr::BinaryOp;
use crate::error::{Error, SyntaxError};
use crate::grammar::{assign_op, is_lit, right_precedence, Gram, ListKind};
use crate::laws::alike::lemma_closed;
use crate::laws::bindings::is_binding_at;
use crate::laws::meaning::is_name_at;
use crate::laws::refusals::missing;
use crate::laws::shape::all_fine;
use crate::laws::signs::binary_operators_have_their_signs;
use crate::laws::sound::{
    sound_arrow_body, sound_arrow_params, sound_assign, sound_bin, sound_binding,
    sound_comma_list, sound_cond, sound_expr, sound_head, sound_more_exprs, sound_stmt,
    sound_stmts,
};
use crate::laws::spelling::{binary_sign, level};
use crate::span::BytePos;
use crate::token::Token;
use crate::tree::{Label, Tree};
use vstd::prelude::*;

verus! {

/// What stands in parentheses, in brackets or in braces is the expression, or the
/// sequence, between them. It is refused for what stands there, or for what is missing.
pub proof fn brackets_hold_expressions(g: Gram, i: int)
    requires
        0 <= i,
    ensures
        ({
            let e = g.expr(i + 1);
            let o = g.paren(i);
            g.kind(i) == Token::LParen ==> {
                &&& o.res is Ok <==> e.res is Ok && g.kind(e.next) == Token::RParen
                &&& o.res is Err ==> o.res == if e.res is Err {
                    e.res
                } else {
                    missing(g, Token::RParen, e.next)
                }
                &&& o.res is Ok ==> {
                    &&& o.tree().label is Paren
                    &&& o.tree().kids.len() == 1 && o.tree().kids[0] == e.tree()
                    &&& o.next == e.next + 1
                }
            }
        }),
        ({
            let l = g.comma_list(ListKind::Elems, i + 1);
            let o = g.array(i);
            g.kind(i) == Token::LBracket ==> {
                &&& o.res is Ok <==> l.res is Ok && g.kind(l.next) == Token::RBracket
                &&& o.res is Err ==> o.res == if l.res is Err {
                    l.res
                } else {
                    missing(g, Token::RBracket, l.next)
                }
                &&& o.res is Ok ==> {
                    &&& o.tree().label is Array
                    &&& o.tree().kids == l.tree().kids
                    &&& o.next == l.next + 1
                }
            }
        }),
        ({
            let l = g.comma_list(ListKind::Props, i + 1);
            let o = g.object(i);
            g.kind(i) == Token::LBrace ==> {
                &&& o.res is Ok <==> l.res is Ok && g.kind(l.next) == Token::RBrace
                &&& o.res is Err ==> o.res == if l.res is Err {
                    l.res
                } else {
                    missing(g, Token::RBrace, l.next)
                }
                &&& o.res is Ok ==> {
                    &&& o.tree().label is Object
                    &&& o.tree().kids == l.tree().kids
                    &&& o.next == l.next + 1
                }
            }
        }),
{
    sound_expr(g, i + 1);
    sound_comma_list(g, ListKind::Elems, i + 1);
    sound_comma_list(g, ListKind::Props, i + 1);
    reveal(Gram::paren);
    reveal(Gram::array);
    reveal(Gram::object);
    reveal(Gram::expr);
    reveal(Gram::comma_list);
}

/// A call has the arguments between its parentheses, and is of what stands before them.
pub proof fn calls_have_their_arguments(g: Gram, start: BytePos, t: Tree, i: int)
    requires
        0 <= i,
        g.kind(i) == Token::LParen,
    ensures
        ({
            let l = g.comma_list(ListKind::Args, i + 1);
            let s = g.subscript(start, t, i);
            let o = s->0;
            &&& s is Some
            &&& o.res is Ok <==> l.res is Ok && g.kind(l.next) == Token::RParen
            &&& o.res is Err ==> o.res == if l.res is Err {
                l.res
            } else {
                missing(g, Token::RParen, l.next)
            }
            &&& o.res is Ok ==> {
                &&& o.tree().label is Call
                &&& o.tree().kids.len() == 2
                &&& o.tree().kids[0] == t
                &&& o.tree().kids[1] == l.tree()
                &&& o.next == l.next + 1
            }
        }),
{
    sound_comma_list(g, ListKind::Args, i + 1);
    reveal(Gram::subscript);
    reveal(Gram::comma_list);
}

/// A property is of what stands before the point, and has the name behind it.
pub proof fn properties_have_their_names(g: Gram, start: BytePos, t: Tree, i: int)
    requires
        0 <= i,
        g.kind(i) == Token::Dot,
    ensures
        ({
            let s = g.subscript(start, t, i);
            let o = s->0;
            &&& s is Some
            &&& o.res is Ok <==> g.kind(i + 1).is_word()
            &&& o.res is Ok ==> {
                &&& o.tree().label is Member
                &&& o.tree().kids.len() == 2
                &&& o.tree().kids[0] == t
                &&& is_name_at(g, o.tree().kids[1], i + 1)
                &&& o.next == i + 2
            }
        }),
{
    reveal(Gram::subscript);
    reveal(Token::spec_is_word);
}

/// A conditional is its test, and what stands behind `?` and behind `:`. Without a `?` it
/// is the test alone.
pub proof fn conditionals_are_their_parts(g: Gram, i: int)
    requires
        0 <= i,
    ensures
        ({
            let t = g.bin(i, 0);
            let c = g.assign(t.next + 1);
            let a = g.assign(c.next + 1);
            let o = g.cond(i);
            &&& t.res is Err ==> o.res == t.res
            &&& t.res is Ok && g.kind(t.next) != Token::Question ==> o == t
            &&& t.res is Ok && g.kind(t.next) == Token::Question ==> {
                &&& o.res is Ok <==> c.res is Ok && g.kind(c.next) == Token::Colon && a.res is Ok
                &&& o.res is Err ==> o.res == if c.res is Err {
                    c.res
                } else if g.kind(c.next) != Token::Colon {
                    missing(g, Token::Colon, c.next)
                } else {
                    a.res
                }
                &&& o.res is Ok ==> {
                    &&& o.tree().label is Cond
                    &&& o.tree().kids.len() == 3
                    &&& o.tree().kids[0] == t.tree()
                    &&& o.tree().kids[1] == c.tree()
                    &&& o.tree().kids[2] == a.tree()
                    &&& o.next == a.next
                }
            }
        }),
{
    sound_bin(g, i, 0);
    let t = g.bin(i, 0);
    if t.res is Ok {
        sound_assign(g, t.next + 1);
        if g.assign(t.next + 1).res is Ok {
            sound_assign(g, g.assign(t.next + 1).next + 1);
        }
    }
    reveal(Gram::cond);
    reveal(Gram::assign);
    reveal(Gram::bin);
}

/// An expression without commas is an arrow function where one starts, or an assignment
/// to what stands before an operator that assigns, or else what stands there.
pub proof fn assignments_are_their_sides(g: Gram, i: int)
    requires
        0 <= i,
    ensures
        ({
            let a = g.cond(i);
            let op = assign_op(g.kind(a.next));
            let b = g.assign(a.next + 1);
            let o = g.assign(i);
            if g.arrow_ahead(i) {
                o == g.arrow(i)
            } else if a.res is Err || op is None {
                o.res == a.res
            } else if !(a.tree().label is Ident || a.tree().label is Member) {
                o.res == Err::<Tree, Error>(
                    Error { span: a.tree().span, error: SyntaxError::NotSimpleAssign },
                )
            } else {
                &&& o.res is Ok <==> b.res is Ok
                &&& b.res is Err ==> o.res == b.res
                &&& o.res is Ok ==> {
                    &&& o.tree().label == (Label::Assign { op: op->0 })
                    &&& o.tree().kids.len() == 2
                    &&& o.tree().kids[0] == a.tree()
                    &&& o.tree().kids[1] == b.tree()
                    &&& o.next == b.next
                }
            }
        }),
{
    sound_cond(g, i);
    if g.cond(i).res is Ok {
        sound_assign(g, g.cond(i).next + 1);
    }
    reveal(Gram::assign);
    reveal(Gram::cond);
    reveal(Gram::arrow);
}

/// An expression with commas is the sequence of what stands between them.
pub proof fn sequences_of_expressions_are_their_parts(g: Gram, i: int)
    requires
        0 <= i,
    ensures
        ({
            let a = g.assign(i);
            let m = g.more_exprs(a.next);
            let o = g.expr(i);
            &&& a.res is Err ==> o.res == a.res
            &&& a.res is Ok && g.kind(a.next) != Token::Comma ==> o == a
            &&& a.res is Ok && g.kind(a.next) == Token::Comma ==> {
                &&& o.res is Ok <==> m.res is Ok
                &&& m.res is Err ==> o.res == m.res
                &&& o.res is Ok ==> {
                    &&& o.next == m.next
                    &&& o.tree().label is SeqExpr
                    &&& o.tree().kids.len() == 1 + m.tree().kids.len()
                    &&& o.tree().kids[0] == a.tree()
                    &&& forall|n: int|
                        0 <= n < m.tree().kids.len() ==> #[trigger] m.tree().kids[n]
                            == o.tree().kids[n + 1]
                }
            }
        }),
{
    g.lemma_expr(i);
    sound_assign(g, i);
    if g.assign(i).res is Ok {
        sound_more_exprs(g, g.assign(i).next);
    }
}

/// An arrow function is its parameters, and the body behind `=>`.
pub proof fn arrows_are_parameters_and_bodies(g: Gram, i: int)
    requires
        0 <= i,
        g.arrow_ahead(i),
    ensures
        ({
            let p = g.arrow_params(i);
            let b = g.arrow_body(p.next + 1);
            let o = g.arrow(i);
            &&& o.res is Ok <==> p.res is Ok && g.kind(p.next) == Token::Arrow && b.res is Ok
            &&& o.res is Err ==> o.res == if p.res is Err {
                p.res
            } else if g.kind(p.next) != Token::Arrow {
                missing(g, Token::Arrow, p.next)
            } else {
                b.res
            }
            &&& o.res is Ok ==> {
                &&& o.tree().label is Arrow
                &&& o.tree().kids.len() == 2
                &&& o.tree().kids[0] == p.tree()
                &&& o.tree().kids[1] == b.tree()
                &&& o.next == b.next
            }
            &&& g.kind(i) != Token::LParen ==> {
                &&& p.res is Ok
                &&& p.tree().kids.len() == 1
                &&& is_binding_at(g, p.tree().kids[0], i)
            }
        }),
{
    sound_arrow_params(g, i);
    if g.arrow_params(i).res is Ok {
        sound_arrow_body(g, g.arrow_params(i).next + 1);
    }
    reveal(Gram::arrow);
    reveal(Gram::arrow_params);
    reveal(Gram::arrow_body);
}

/// An `if` statement is its test, the statement behind it, and the one behind `else`,
/// where there is one.
pub proof fn if_statements_are_their_parts(g: Gram, i: int)
    requires
        0 <= i,
        g.kind(i) == Token::If,
    ensures
        ({
            let t = g.head(i + 1);
            let c = g.stmt(t.next, false);
            let a = g.stmt(c.next + 1, false);
            let o = g.if_stmt(i);
            let two = g.kind(c.next) == Token::Else;
            &&& o.res is Ok <==> t.res is Ok && c.res is Ok && (two ==> a.res is Ok)
            &&& o.res is Err ==> o.res == if t.res is Err {
                t.res
            } else if c.res is Err {
                c.res
            } else {
                a.res
            }
            &&& o.res is Ok ==> {
                &&& o.tree().label is If
                &&& o.tree().kids.len() == 3
                &&& o.tree().kids[0] == t.tree()
                &&& o.tree().kids[1] == c.tree()
                &&& two ==> o.tree().kids[2] == a.tree() && o.next == a.next
                &&& !two ==> o.tree().kids[2].label is Absent && o.next == c.next
            }
        }),
{
    sound_head(g, i + 1);
    let t = g.head(i + 1);
    if t.res is Ok {
        sound_stmt(g, t.next, false);
        if g.stmt(t.next, false).res is Ok {
            sound_stmt(g, g.stmt(t.next, false).next + 1, false);
        }
    }
    reveal(Gram::if_stmt);
    reveal(Gram::head);
    reveal(Gram::stmt);
}

/// A variable is its pattern, and the value behind `=`, where there is one.
pub proof fn variables_are_patterns_and_values(g: Gram, i: int)
    requires
        0 <= i,
    ensures
        ({
            let b = g.binding(i);
            let a = g.assign(b.next + 1);
            let o = g.declarator(i);
            let set = g.kind(b.next) == Token::Eq;
            &&& o.res is Ok <==> b.res is Ok && (set ==> a.res is Ok)
            &&& o.res is Err ==> o.res == if b.res is Err {
                b.res
            } else {
                a.res
            }
            &&& o.res is Ok ==> {
                &&& o.tree().label == (Label::Declarator { definite: false })
                &&& o.tree().kids.len() == 2
                &&& o.tree().kids[0] == b.tree()
                &&& set ==> o.tree().kids[1] == a.tree() && o.next == a.next
                &&& !set ==> o.tree().kids[1].label is Absent && o.next == b.next
            }
        }),
{
    sound_binding(g, i);
    if g.binding(i).res is Ok {
        sound_assign(g, g.binding(i).next + 1);
    }
    reveal(Gram::declarator);
    reveal(Gram::binding);
    reveal(Gram::assign);
}

/// The statements of a block are refused for the first one that is refused.
pub proof fn statements_are_refused_for_the_first(g: Gram, i: int)
    requires
        0 <= i <= g.toks.len(),
        g.stmts(i).res is Err,
    ensures
        ({
            let s = g.stmt(i, true);
            &&& g.kind(i) != Token::RBrace && g.kind(i) != Token::Eof
            &&& g.stmts(i).res == if s.res is Err {
                s.res
            } else {
                g.stmts(s.next).res
            }
        }),
{
    sound_stmt(g, i, true);
    reveal(Gram::stmts);
    reveal(Gram::stmt);
}

/// A block is refused for a brace or for its statements.
pub proof fn blocks_are_refused_for_their_statements(g: Gram, i: int)
    requires
        0 <= i,
        g.block(i).res is Err,
    ensures
        ({
            let l = g.stmts(i + 1);
            g.block(i).res == if g.kind(i) != Token::LBrace {
                missing(g, Token::LBrace, i)
            } else if l.res is Err {
                l.res
            } else {
                missing(g, Token::RBrace, l.next)
            }
        }),
{
    if i + 1 <= g.toks.len() {
        sound_stmts(g, i + 1);
    }
    reveal(Gram::block);
    reveal(Gram::stmts);
}

/// An arrow function starts with an identifier before `=>`, or with a parenthesis that
/// is closed before `=>`.
pub proof fn arrows_stand_behind_their_parameters(g: Gram, i: int, j: int)
    requires
        0 <= i < j,
    ensures
        g.kind(i).is_ident_like() ==> (g.arrow_ahead(i) <==> g.kind(i + 1) == Token::Arrow),
        g.kind(i) == Token::LParen && all_fine(g, i + 1, j) && g.kind(j) == Token::RParen ==> (
        g.arrow_ahead(i) <==> g.kind(j + 1) == Token::Arrow),
        !g.kind(i).is_ident_like() && g.kind(i) != Token::LParen ==> !g.arrow_ahead(i),
{
    reveal(Gram::arrow_ahead);
    reveal(Token::spec_is_ident_like);
    if g.kind(i) == Token::LParen && all_fine(g, i + 1, j) && g.kind(j) == Token::RParen {
        lemma_closed(g, i + 1, j);
    }
}

/// The first token of an expression that is one piece tells what it is.
pub proof fn pieces_are_told_apart(g: Gram, i: int)
    requires
        0 <= i,
    ensures
        g.kind(i) == Token::LParen ==> g.primary(i) == g.paren(i),
        g.kind(i) == Token::LBracket ==> g.primary(i) == g.array(i),
        g.kind(i) == Token::LBrace ==> g.primary(i) == g.object(i),
        g.kind(i) == Token::NoSubstitutionTemplate || g.kind(i) == Token::TemplateHead
            ==> g.primary(i) == g.tpl(i),
{
    g.lemma_primary(i);
    reveal(Gram::match_keyword);
    reveal(Token::spec_is_word);
    reveal(Token::spec_is_ident_like);
    reveal(is_lit);
}

/// An operator behind an operand takes the operand behind it, where it binds more
/// tightly than what stands before: with operators in it that bind more tightly still.
pub proof fn operators_take_their_operands(
    g: Gram,
    start: BytePos,
    t: Tree,
    i: int,
    min: int,
    op: BinaryOp,
)
    requires
        0 <= i,
        g.kind(i) == binary_sign(op),
    ensures
        ({
            let s = g.bin_step(start, t, i, min);
            let b = g.bin(
                i + 1,
                if op == BinaryOp::Exp {
                    10
                } else {
                    level(op)
                },
            );
            &&& s is Some <==> level(op) > min
            &&& s is Some ==> {
                &&& s->0.res is Ok <==> b.res is Ok
                &&& b.res is Err ==> s->0.res == b.res
                &&& b.res is Ok ==> {
                    &&& s->0.tree().label == (Label::Bin { op })
                    &&& s->0.tree().kids.len() == 2
                    &&& s->0.tree().kids[0] == t
                    &&& s->0.tree().kids[1] == b.tree()
                    &&& s->0.next == b.next
                }
            }
        }),
{
    binary_operators_have_their_signs(op, g.kind(i));
    assert(g.kind(i) != Token::As && g.kind(i) != Token::Satisfies);
    sound_bin(g, i + 1, right_precedence(op));
    reveal(Gram::bin_step);
    reveal(Gram::bin);
}

/// What comes behind an operand is no operator, or one that does not bind tightly enough.
pub proof fn operands_end_where_no_operator_binds(
    g: Gram,
    start: BytePos,
    t: Tree,
    i: int,
    min: int,
)
    requires
        g.bin_step(start, t, i, min) is None,
    ensures
        forall|op: BinaryOp| #[trigger] binary_sign(op) == g.kind(i) ==> level(op) <= min,
        g.kind(i) == Token::As || g.kind(i) == Token::Satisfies ==> g.nl(i) || min >= 7,
{
    assert forall|op: BinaryOp| #[trigger] binary_sign(op) == g.kind(i) implies level(op)
        <= min by {
        binary_operators_have_their_signs(op, g.kind(i));
        reveal(Gram::bin_step);
        reveal(Gram::bin);
    }
    reveal(Gram::bin_step);
    reveal(Gram::bin);
}

} // verus!
