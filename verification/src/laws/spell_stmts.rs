//! What is accepted is what was written, for statements: the tree of a
//! phrase stands for the tokens of the phrase. `spell_x` is about the phrase `x` of the
//! grammar.
use crate::grammar::{is_ident_named, var_kind, Gram, ListKind};
use crate::laws::made::{
    made_bare_declarator, made_bare_export_default, made_bare_expr_stmt, made_bare_if,
    made_bare_ts_enum_member, made_block, made_declarator, made_empty, made_export_decl,
    made_export_default, made_expr_stmt, made_for, made_if, made_labeled, made_ts_enum,
    made_ts_enum_member, made_var, made_var_semi, made_while,
};
use crate::laws::sound::{
    sound_any_enum, sound_assign, sound_binding, sound_block, sound_comma_list, sound_declarator,
    sound_declarators, sound_export, sound_export_decl, sound_expr, sound_expr_stmt,
    sound_for_init, sound_for_stmt, sound_head, sound_if_stmt, sound_item, sound_items,
    sound_newtype, sound_opt_expr, sound_stmt, sound_stmts, sound_ts_enum, sound_ts_member,
    sound_var_decl, sound_var_stmt, sound_while_stmt,
};
use crate::laws::spell_exprs::{spell_assign, spell_expr};
use crate::laws::spell_parts::{spell_binding, spell_comma_list};
use crate::laws::spell_zts::{spell_any_enum, spell_newtype};
use crate::laws::spelling::{
    enum_words, lemma_absent_spelled, lemma_ident, lemma_ident_token, lemma_not_absent,
    lemma_prop_name_spelled, lemma_row_front, lemma_row_one, row, spelled, starts_statement, stop,
    var_sign, Sep,
};
use crate::span::{BytePos, SyntaxContext};
use crate::token::Token;
use crate::tree::Label;
use vstd::prelude::*;

verus! {

pub(crate) proof fn spell_ts_enum(
    g: Gram,
    k: int,
    i: int,
    start: BytePos,
    is_const: bool,
    declare: bool,
)
    requires
        0 <= i,
        !g.zts,
        0 <= k < i,
        start == g.lo(k),
        enum_words(g, is_const, declare, k, i),
    ensures
        ({
            let o = g.ts_enum(i, start, is_const, declare);
            o.res is Ok ==> {
                &&& spelled(g, o.tree(), k, o.next)
                &&& o.tree().label is TsEnum
            }
        }),
    decreases g.rem(i), 1nat,
{
    reveal(Gram::ts_enum);
    reveal(Gram::comma_list);
    reveal(Token::spec_is_word);
    let o = g.ts_enum(i, start, is_const, declare);
    let t = o.tree();
    if o.res is Ok {
        sound_ts_enum(g, i, start, is_const, declare);
        lemma_ident(g, i);
        let l = g.comma_list(ListKind::TsMembers, i + 2);
        sound_comma_list(g, ListKind::TsMembers, i + 2);
        spell_comma_list(g, ListKind::TsMembers, i + 2);
        made_ts_enum(g, t, k, i, i + 1, l.next);
    }
}

pub(crate) proof fn spell_ts_member(g: Gram, i: int)
    requires
        0 <= i,
    ensures
        ({
            let o = g.ts_member(i);
            o.res is Ok ==> {
                &&& spelled(g, o.tree(), i, o.next)
                &&& o.tree().label is TsEnumMember
            }
        }),
    decreases g.rem(i), 1nat,
{
    reveal(Gram::ts_member);
    reveal(Gram::assign);
    let o = g.ts_member(i);
    let t = o.tree();
    if o.res is Ok {
        sound_ts_member(g, i);
        lemma_prop_name_spelled(g, i);
        if g.kind(i + 1) == Token::Eq {
            sound_assign(g, i + 2);
            spell_assign(g, i + 2);
            made_ts_enum_member(g, t, i, i + 1, o.next);
        } else {
            lemma_absent_spelled(g, i + 1);
            made_bare_ts_enum_member(g, t, i, i + 1, i + 1);
        }
    }
}

pub(crate) proof fn spell_block(g: Gram, i: int)
    requires
        0 <= i,
    ensures
        ({
            let o = g.block(i);
            o.res is Ok ==> {
                &&& spelled(g, o.tree(), i, o.next)
                &&& o.tree().label is Block
            }
        }),
    decreases g.rem(i), 1nat,
{
    reveal(Gram::block);
    reveal(Gram::stmts);
    let o = g.block(i);
    let t = o.tree();
    if o.res is Ok {
        sound_block(g, i);
        let l = g.stmts(i + 1);
        sound_stmts(g, i + 1);
        spell_stmts(g, i + 1);
        made_block(g, t, i, l.next);
    }
}

pub(crate) proof fn spell_stmts(g: Gram, i: int)
    requires
        0 <= i,
        i <= g.toks.len(),
    ensures
        ({
            let o = g.stmts(i);
            o.res is Ok ==> {
                &&& row(g, o.tree().kids, 0, Sep::Nothing, i, o.next)
                &&& o.tree().label is List
            }
        }),
    decreases g.rem(i), 25nat,
{
    reveal(Gram::stmts);
    reveal(Gram::stmt);
    let o = g.stmts(i);
    let t = o.tree();
    if o.res is Ok {
        sound_stmts(g, i);
        if g.kind(i) == Token::RBrace || g.kind(i) == Token::Eof {
            reveal(row);
        } else {
            let s = g.stmt(i, true);
            sound_stmt(g, i, true);
            spell_stmt(g, i, true);
            sound_stmts(g, s.next);
            spell_stmts(g, s.next);
            let m = g.stmts(s.next);
            lemma_row_front(g, s.tree(), m.tree().kids, Sep::Nothing, i, s.next, s.next, o.next);
        }
    }
}

pub(crate) proof fn spell_stmt(g: Gram, i: int, top: bool)
    requires
        0 <= i,
    ensures
        ({
            let o = g.stmt(i, top);
            o.res is Ok ==> {
                &&& spelled(g, o.tree(), i, o.next)
            }
        }),
    decreases g.rem(i), 21nat,
{
    reveal(Gram::stmt);
    reveal(Gram::any_enum);
    reveal(Gram::block);
    reveal(Gram::expr_stmt);
    reveal(Gram::for_stmt);
    reveal(Gram::if_stmt);
    reveal(Gram::var_stmt);
    reveal(Gram::while_stmt);
    let o = g.stmt(i, top);
    let t = o.tree();
    if o.res is Ok {
        sound_stmt(g, i, top);
        let k = g.kind(i);
        if k == Token::LBrace {
            sound_block(g, i);
            spell_block(g, i);
        } else if k == Token::Semi {
            made_empty(g, t, i);
        } else if k == Token::If {
            sound_if_stmt(g, i);
            spell_if_stmt(g, i);
        } else if k == Token::While {
            sound_while_stmt(g, i);
            spell_while_stmt(g, i);
        } else if k == Token::For {
            sound_for_stmt(g, i);
            spell_for_stmt(g, i);
        } else if k == Token::Enum {
            sound_any_enum(g, i + 1, g.lo(i), false, false);
            spell_any_enum(g, i, i + 1, g.lo(i), false, false);
        } else if k == Token::Const && g.kind(i + 1) == Token::Enum {
            sound_any_enum(g, i + 2, g.lo(i), true, false);
            spell_any_enum(g, i, i + 2, g.lo(i), true, false);
        } else if k == Token::Const || k == Token::Let || k == Token::Var {
            sound_var_stmt(g, i);
            spell_var_stmt(g, i);
        } else {
            sound_expr_stmt(g, i, top);
            spell_expr_stmt(g, i, top);
        }
    }
}

pub(crate) proof fn spell_if_stmt(g: Gram, i: int)
    requires
        0 <= i,
    ensures
        ({
            let o = g.if_stmt(i);
            o.res is Ok ==> {
                &&& spelled(g, o.tree(), i, o.next)
                &&& o.tree().label is If
            }
        }),
    decreases g.rem(i), 1nat,
{
    reveal(Gram::if_stmt);
    reveal(Gram::head);
    reveal(Gram::expr);
    reveal(Gram::stmt);
    let o = g.if_stmt(i);
    let t = o.tree();
    if o.res is Ok {
        sound_if_stmt(g, i);
        let e = g.expr(i + 2);
        sound_expr(g, i + 2);
        spell_expr(g, i + 2);
        sound_head(g, i + 1);
        let c = g.stmt(e.next + 1, false);
        sound_stmt(g, e.next + 1, false);
        spell_stmt(g, e.next + 1, false);
        if g.kind(c.next) != Token::Else {
            lemma_absent_spelled(g, c.next);
            made_bare_if(g, t, i, e.next, c.next, c.next);
        } else {
            sound_stmt(g, c.next + 1, false);
            spell_stmt(g, c.next + 1, false);
            assert(!(g.stmt(c.next + 1, false).tree().label is Absent)) by {
                lemma_not_absent(g, g.stmt(c.next + 1, false).tree(), c.next + 1, o.next);
            }
            made_if(g, t, i, e.next, c.next, o.next);
        }
    }
}

pub(crate) proof fn spell_while_stmt(g: Gram, i: int)
    requires
        0 <= i,
    ensures
        ({
            let o = g.while_stmt(i);
            o.res is Ok ==> {
                &&& spelled(g, o.tree(), i, o.next)
                &&& o.tree().label is While
            }
        }),
    decreases g.rem(i), 1nat,
{
    reveal(Gram::while_stmt);
    reveal(Gram::head);
    reveal(Gram::expr);
    reveal(Gram::stmt);
    let o = g.while_stmt(i);
    let t = o.tree();
    if o.res is Ok {
        sound_while_stmt(g, i);
        let e = g.expr(i + 2);
        sound_expr(g, i + 2);
        spell_expr(g, i + 2);
        sound_head(g, i + 1);
        sound_stmt(g, e.next + 1, false);
        spell_stmt(g, e.next + 1, false);
        made_while(g, t, i, e.next, o.next);
    }
}

pub(crate) proof fn spell_opt_expr(g: Gram, i: int, stop: Token)
    requires
        0 <= i,
        stop != Token::Eof,
    ensures
        ({
            let o = g.opt_expr(i, stop);
            o.res is Ok ==> {
                &&& spelled(g, o.tree(), i, o.next)
            }
        }),
    decreases g.rem(i), 17nat,
{
    reveal(Gram::opt_expr);
    reveal(Gram::expr);
    let o = g.opt_expr(i, stop);
    let t = o.tree();
    if o.res is Ok {
        sound_opt_expr(g, i, stop);
        if g.kind(i) == stop {
            lemma_absent_spelled(g, i);
        } else {
            sound_expr(g, i);
            spell_expr(g, i);
        }
    }
}

pub(crate) proof fn spell_for_init(g: Gram, i: int)
    requires
        0 <= i,
    ensures
        ({
            let o = g.for_init(i);
            o.res is Ok ==> {
                &&& spelled(g, o.tree(), i, o.next)
            }
        }),
    decreases g.rem(i), 19nat,
{
    reveal(Gram::for_init);
    reveal(Gram::opt_expr);
    reveal(Gram::var_decl);
    let o = g.for_init(i);
    let t = o.tree();
    if o.res is Ok {
        sound_for_init(g, i);
        if var_kind(g.kind(i)) is Some {
            sound_var_decl(g, i);
            spell_var_decl(g, i);
        } else {
            sound_opt_expr(g, i, Token::Semi);
            spell_opt_expr(g, i, Token::Semi);
        }
    }
}

#[verifier::rlimit(30)]
pub(crate) proof fn spell_for_stmt(g: Gram, i: int)
    requires
        0 <= i,
    ensures
        ({
            let o = g.for_stmt(i);
            o.res is Ok ==> {
                &&& spelled(g, o.tree(), i, o.next)
                &&& o.tree().label is For
            }
        }),
    decreases g.rem(i), 1nat,
{
    reveal(Gram::for_stmt);
    reveal(Gram::for_init);
    reveal(Gram::opt_expr);
    reveal(Gram::stmt);
    let o = g.for_stmt(i);
    let t = o.tree();
    if o.res is Ok {
        sound_for_stmt(g, i);
        let a = g.for_init(i + 2);
        sound_for_init(g, i + 2);
        spell_for_init(g, i + 2);
        let b = g.opt_expr(a.next + 1, Token::Semi);
        sound_opt_expr(g, a.next + 1, Token::Semi);
        spell_opt_expr(g, a.next + 1, Token::Semi);
        let c = g.opt_expr(b.next + 1, Token::RParen);
        sound_opt_expr(g, b.next + 1, Token::RParen);
        spell_opt_expr(g, b.next + 1, Token::RParen);
        sound_stmt(g, c.next + 1, false);
        spell_stmt(g, c.next + 1, false);
        made_for(g, t, i, a.next, b.next, c.next, o.next);
    }
}

pub(crate) proof fn spell_var_decl(g: Gram, i: int)
    requires
        0 <= i,
    ensures
        ({
            let o = g.var_decl(i);
            o.res is Ok ==> {
                &&& spelled(g, o.tree(), i, o.next)
                &&& row(g, o.tree().kids, 0, Sep::Commas, i + 1, o.next)
                &&& o.tree().label matches Label::Var { ctxt, kind, declare } && ctxt
                    == SyntaxContext(0) && !declare && g.kind(i) == var_sign(kind)
            }
        }),
    decreases g.rem(i), 1nat,
{
    reveal(Gram::var_decl);
    reveal(Gram::declarators);
    reveal(var_kind);
    let o = g.var_decl(i);
    let t = o.tree();
    if o.res is Ok {
        sound_var_decl(g, i);
        sound_declarators(g, i + 1);
        spell_declarators(g, i + 1);
        made_var(g, t, i, o.next);
    }
}

pub(crate) proof fn spell_declarators(g: Gram, i: int)
    requires
        0 <= i,
    ensures
        ({
            let o = g.declarators(i);
            o.res is Ok ==> {
                &&& row(g, o.tree().kids, 0, Sep::Commas, i, o.next)
                &&& o.tree().kids.len() > 0
            }
        }),
    decreases g.rem(i), 11nat,
{
    reveal(Gram::declarators);
    reveal(Gram::declarator);
    let o = g.declarators(i);
    let t = o.tree();
    if o.res is Ok {
        sound_declarators(g, i);
        let d = g.declarator(i);
        sound_declarator(g, i);
        spell_declarator(g, i);
        if g.kind(d.next) == Token::Comma {
            sound_declarators(g, d.next + 1);
            spell_declarators(g, d.next + 1);
            let m = g.declarators(d.next + 1);
            lemma_row_front(g, d.tree(), m.tree().kids, Sep::Commas, i, d.next, d.next + 1, o.next);
        } else {
            lemma_row_one(g, d.tree(), Sep::Commas, i, d.next);
        }
    }
}

pub(crate) proof fn spell_declarator(g: Gram, i: int)
    requires
        0 <= i,
    ensures
        ({
            let o = g.declarator(i);
            o.res is Ok ==> {
                &&& spelled(g, o.tree(), i, o.next)
                &&& o.tree().label is Declarator
            }
        }),
    decreases g.rem(i), 9nat,
{
    reveal(Gram::declarator);
    reveal(Gram::assign);
    reveal(Gram::binding);
    let o = g.declarator(i);
    let t = o.tree();
    if o.res is Ok {
        sound_declarator(g, i);
        let b = g.binding(i);
        sound_binding(g, i);
        spell_binding(g, i);
        if g.kind(b.next) != Token::Eq {
            lemma_absent_spelled(g, b.next);
            made_bare_declarator(g, t, i, b.next, b.next);
        } else {
            sound_assign(g, b.next + 1);
            spell_assign(g, b.next + 1);
            made_declarator(g, t, i, b.next, o.next);
        }
    }
}

pub(crate) proof fn spell_var_stmt(g: Gram, i: int)
    requires
        0 <= i,
    ensures
        ({
            let o = g.var_stmt(i);
            o.res is Ok ==> {
                &&& spelled(g, o.tree(), i, o.next)
                &&& o.tree().label is Var
            }
        }),
    decreases g.rem(i), 3nat,
{
    reveal(Gram::var_stmt);
    reveal(Gram::var_decl);
    let o = g.var_stmt(i);
    let t = o.tree();
    if o.res is Ok {
        sound_var_stmt(g, i);
        let v = g.var_decl(i);
        sound_var_decl(g, i);
        spell_var_decl(g, i);
        if o.next == v.next {
            made_var(g, t, i, v.next);
        } else {
            made_var_semi(g, t, i, v.next);
        }
    }
}

#[verifier::rlimit(30)]
pub(crate) proof fn spell_expr_stmt(g: Gram, i: int, top: bool)
    requires
        0 <= i,
        !starts_statement(g.kind(i)),
    ensures
        ({
            let o = g.expr_stmt(i, top);
            o.res is Ok ==> {
                &&& spelled(g, o.tree(), i, o.next)
            }
        }),
    decreases g.rem(i), 19nat,
{
    reveal(Gram::expr_stmt);
    reveal(Gram::any_enum);
    reveal(Gram::expr);
    reveal(Gram::stmt);
    reveal(Gram::newtype_ahead);
    reveal(Token::spec_is_ident_like);
    let o = g.expr_stmt(i, top);
    let t = o.tree();
    if o.res is Ok {
        sound_expr_stmt(g, i, top);
        let e = g.expr(i);
        sound_expr(g, i);
        spell_expr(g, i);
        if e.tree().label is Ident {
            lemma_ident_token(g, e.tree(), i, e.next);
        }
        if e.tree().label is Ident && g.kind(e.next) == Token::Colon {
            sound_stmt(g, e.next + 1, false);
            spell_stmt(g, e.next + 1, false);
            made_labeled(g, t, i, e.next, o.next);
        } else if top && is_ident_named(e.tree(), "declare"@) && !g.nl(e.next) && g.kind(e.next)
            == Token::Enum {
            sound_any_enum(g, e.next + 1, g.lo(i), false, true);
            spell_any_enum(g, i, e.next + 1, g.lo(i), false, true);
        } else if top && is_ident_named(e.tree(), "declare"@) && !g.nl(e.next) && g.kind(e.next)
            == Token::Const && g.kind(e.next + 1) == Token::Enum {
            sound_any_enum(g, e.next + 2, g.lo(i), true, true);
            spell_any_enum(g, i, e.next + 2, g.lo(i), true, true);
        } else if top && is_ident_named(e.tree(), "declare"@) && !g.nl(e.next) && g.newtype_ahead(
            e.next,
        ) {
            reveal(Gram::newtype);
        } else if g.zts && top && is_ident_named(e.tree(), "newtype"@) && !g.nl(e.next) && g.kind(
            e.next,
        ).is_ident_like() {
            sound_newtype(g, e.next, g.lo(i), false);
            spell_newtype(g, e.next, g.lo(i), false);
        } else {
            if o.next == e.next {
                made_bare_expr_stmt(g, t, i, e.next);
            } else {
                made_expr_stmt(g, t, i, e.next);
            }
        }
    }
}

pub(crate) proof fn spell_items(g: Gram, i: int)
    requires
        0 <= i,
        i <= g.toks.len(),
    ensures
        ({
            let o = g.items(i);
            o.res is Ok ==> {
                &&& row(g, o.tree().kids, 0, Sep::Nothing, i, o.next)
            }
        }),
    decreases g.rem(i),
{
    reveal(Gram::items);
    let o = g.items(i);
    let t = o.tree();
    if o.res is Ok {
        sound_items(g, i);
        if g.kind(i) == Token::Eof {
            reveal(row);
        } else {
            let s = g.item(i);
            sound_item(g, i);
            spell_item(g, i);
            sound_items(g, s.next);
            spell_items(g, s.next);
            let m = g.items(s.next);
            lemma_row_front(g, s.tree(), m.tree().kids, Sep::Nothing, i, s.next, s.next, o.next);
        }
    }
}

pub(crate) proof fn spell_item(g: Gram, i: int)
    requires
        0 <= i,
    ensures
        ({
            let o = g.item(i);
            o.res is Ok ==> {
                &&& spelled(g, o.tree(), i, o.next)
            }
        }),
{
    reveal(Gram::item);
    let o = g.item(i);
    let t = o.tree();
    if o.res is Ok {
        sound_item(g, i);
        if g.kind(i) == Token::Export {
            sound_export(g, i);
            spell_export(g, i);
        } else {
            sound_stmt(g, i, true);
            spell_stmt(g, i, true);
        }
    }
}

pub(crate) proof fn spell_export(g: Gram, i: int)
    requires
        0 <= i,
        g.kind(i) == Token::Export,
    ensures
        ({
            let o = g.export(i);
            o.res is Ok ==> {
                &&& spelled(g, o.tree(), i, o.next)
            }
        }),
{
    reveal(Gram::export);
    let o = g.export(i);
    let t = o.tree();
    if o.res is Ok {
        sound_export(g, i);
        if g.kind(i + 1) == Token::Default {
            let e = g.assign(i + 2);
            sound_assign(g, i + 2);
            spell_assign(g, i + 2);
            if o.next == e.next {
                made_bare_export_default(g, t, i, e.next);
            } else {
                made_export_default(g, t, i, e.next);
            }
        } else {
            sound_export_decl(g, i + 1);
            spell_export_decl(g, i + 1);
            made_export_decl(g, t, i, o.next);
        }
    }
}

pub(crate) proof fn spell_export_decl(g: Gram, i: int)
    requires
        0 <= i,
    ensures
        ({
            let o = g.export_decl(i);
            o.res is Ok ==> {
                &&& spelled(g, o.tree(), i, o.next)
            }
        }),
{
    reveal(Gram::export_decl);
    reveal(Gram::newtype_ahead);
    reveal(Token::spec_is_ident_like);
    let o = g.export_decl(i);
    let t = o.tree();
    if o.res is Ok {
        sound_export_decl(g, i);
        let k = g.kind(i);
        if k == Token::Enum {
            sound_any_enum(g, i + 1, g.lo(i), false, false);
            spell_any_enum(g, i, i + 1, g.lo(i), false, false);
        } else if k == Token::Const && g.kind(i + 1) == Token::Enum {
            sound_any_enum(g, i + 2, g.lo(i), true, false);
            spell_any_enum(g, i, i + 2, g.lo(i), true, false);
        } else if var_kind(k) is Some {
            sound_var_stmt(g, i);
            spell_var_stmt(g, i);
        } else {
            reveal(Gram::newtype_ahead);
            reveal(Token::spec_is_ident_like);
            reveal(Token::spec_is_word);
            sound_newtype(g, i + 1, g.lo(i), false);
            spell_newtype(g, i + 1, g.lo(i), false);
        }
    }
}

} // verus!
