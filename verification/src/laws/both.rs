//! The parts of the law that zts is a superset of TypeScript.
use crate::grammar::{
    assign_op, binary_op, good, is_ident_named, is_lit, not_operand, unary_op, var_kind, Gram,
    ListKind, Out,
};
use crate::laws::sound::{sound_assign, sound_comma_list};
use crate::span::BytePos;
use crate::token::{word_kind, Tok, Token};
use crate::tree::{absent, kids1, kids2, kids3, kids4, list, Tree};
use vstd::prelude::*;

verus! {

/// The grammar with zts off.
pub open spec fn off(toks: Seq<Tok>) -> Gram {
    Gram { toks, zts: false }
}

/// The grammar with zts on.
pub open spec fn on(toks: Seq<Tok>) -> Gram {
    Gram { toks, zts: true }
}

/// Whether the words among the tokens are what their texts say.
pub open spec fn worded(toks: Seq<Tok>) -> bool {
    forall|k: int|
        0 <= k < toks.len() && (#[trigger] toks[k]).kind.is_word() ==> toks[k].kind == word_kind(
            toks[k].text,
        )
}

/// Whether a tree holds no enum of TypeScript.
#[verifier::opaque]
pub open spec fn no_enum(t: Tree) -> bool
    decreases t,
{
    &&& !(t.label is TsEnum)
    &&& forall|k: int|
        0 <= k < t.kids.len() ==> (if 0 <= k < t.kids.len() {
            no_enum(#[trigger] t.kids[k])
        } else {
            true
        })
}

/// Whether no phrase of TypeScript that ends in an expression can go on or end
/// at an index: a `{`, a word or a literal stands there, on the line of the token
/// before it.
#[verifier::opaque]
pub open spec fn blocked(g: Gram, n: int) -> bool {
    &&& 0 <= n
    &&& !g.nl(n)
    &&& g.kind(n) == Token::LBrace || not_operand(g.kind(n))
}

/// Whether a phrase ends where nothing can follow it, and is neither `declare`
/// nor `newtype`.
pub open spec fn stuck(g: Gram, o: Out) -> bool {
    &&& blocked(g, o.next)
    &&& !is_ident_named(o.tree(), "declare"@)
    &&& !is_ident_named(o.tree(), "newtype"@)
}

/// A phrase is the same with zts on and off.
pub open spec fn kept(toks: Seq<Tok>, i: int, o: Out, z: Out) -> bool {
    o.res is Ok ==> {
        &&& off(toks).ok(i, o)
        &&& no_enum(o.tree()) ==> z == o
    }
}

/// A phrase is the same with zts on and off, or nothing can follow it.
pub open spec fn held(toks: Seq<Tok>, i: int, o: Out, z: Out) -> bool {
    o.res is Ok ==> {
        &&& off(toks).ok(i, o)
        &&& no_enum(o.tree()) ==> z == o || stuck(off(toks), o)
    }
}

/// As [`kept`], for a phrase that may be empty.
pub open spec fn kept_list(toks: Seq<Tok>, i: int, o: Out, z: Out) -> bool {
    o.res is Ok ==> {
        &&& off(toks).okl(i, o)
        &&& no_enum(o.tree()) ==> z == o
    }
}

/// As [`held`], for a phrase that may be empty.
pub open spec fn held_list(toks: Seq<Tok>, i: int, o: Out, z: Out) -> bool {
    o.res is Ok ==> {
        &&& off(toks).okl(i, o)
        &&& no_enum(o.tree()) ==> z == o || blocked(off(toks), o.next)
    }
}

/// As [`held`], for what comes behind the expression `t`.
pub open spec fn held_step(
    toks: Seq<Tok>,
    i: int,
    t: Tree,
    o: Option<Out>,
    z: Option<Out>,
) -> bool {
    match o {
        None => z is None,
        Some(o) => {
            &&& z is Some
            &&& o.res is Ok ==> {
                &&& off(toks).ok(i, o)
                &&& no_enum(o.tree()) ==> no_enum(t) && (z->0 == o || stuck(off(toks), o))
            }
        },
    }
}

/// As [`kept`], for what comes behind the expression `t`.
pub open spec fn kept_step(
    toks: Seq<Tok>,
    i: int,
    t: Tree,
    o: Option<Out>,
    z: Option<Out>,
) -> bool {
    match o {
        None => z is None,
        Some(o) => {
            &&& z is Some
            &&& o.res is Ok ==> {
                &&& off(toks).ok(i, o)
                &&& no_enum(o.tree()) ==> no_enum(t) && z->0 == o
            }
        },
    }
}

/// Whether TypeScript has sequences of a kind, outside enums.
pub open spec fn plain_list(k: ListKind) -> bool {
    k is Args || k is Elems || k is Props || k is Params || k is PatProps
}

/// Whether zts reads a match expression at an index.
pub open spec fn match_ahead(toks: Seq<Tok>, i: int) -> bool {
    let h = on(toks).match_header(i);
    on(toks).match_keyword(i) && h is Some && on(toks).ok(i, h->0)
}

/// What does not stand where nothing can follow.
pub broadcast proof fn lemma_blocked(g: Gram, n: int)
    requires
        #[trigger] blocked(g, n),
    ensures
        g.kind(n) != Token::Comma,
        g.kind(n) != Token::RParen,
        g.kind(n) != Token::RBracket,
        g.kind(n) != Token::RBrace,
        g.kind(n) != Token::Colon,
        g.kind(n) != Token::Question,
        g.kind(n) != Token::Semi,
        g.kind(n) != Token::Eq,
        g.kind(n) != Token::Pipe,
        g.kind(n) != Token::TemplateMiddle,
        g.kind(n) != Token::TemplateTail,
        assign_op(g.kind(n)) is None,
        g.semi(n) is None,
{
    reveal(blocked);
    reveal(assign_op);
    reveal(Token::spec_is_word);
}

/// No operator stands where nothing can follow.
pub(crate) proof fn lemma_stuck_bin(g: Gram, start: BytePos, t: Tree, n: int, min: int)
    requires
        blocked(g, n),
    ensures
        g.bin_step(start, t, n, min) is None,
{
    reveal(blocked);
    reveal(binary_op);
    reveal(Token::spec_is_word);
    reveal(Gram::bin_step);
}

/// No call, property or assertion stands where nothing can follow.
pub(crate) proof fn lemma_stuck_subscript(g: Gram, start: BytePos, t: Tree, n: int)
    requires
        blocked(g, n),
    ensures
        g.subscript(start, t, n) is None,
{
    reveal(blocked);
    reveal(Token::spec_is_word);
    reveal(Gram::subscript);
}

pub(crate) proof fn ne1(t: Tree, a: Tree)
    requires
        no_enum(t),
        t.kids == kids1(a),
    ensures
        no_enum(a),
{
    reveal(no_enum);
    assert(t.kids[0] == a);
}

pub(crate) proof fn ne2(t: Tree, a: Tree, b: Tree)
    requires
        no_enum(t),
        t.kids == kids2(a, b),
    ensures
        no_enum(a),
        no_enum(b),
{
    reveal(no_enum);
    assert(t.kids[0] == a && t.kids[1] == b);
}

pub(crate) proof fn ne3(t: Tree, a: Tree, b: Tree, c: Tree)
    requires
        no_enum(t),
        t.kids == kids3(a, b, c),
    ensures
        no_enum(a),
        no_enum(b),
        no_enum(c),
{
    reveal(no_enum);
    assert(t.kids[0] == a && t.kids[1] == b && t.kids[2] == c);
}

pub(crate) proof fn ne4(t: Tree, a: Tree, b: Tree, c: Tree, d: Tree)
    requires
        no_enum(t),
        t.kids == kids4(a, b, c, d),
    ensures
        no_enum(a),
        no_enum(b),
        no_enum(c),
        no_enum(d),
{
    reveal(no_enum);
    assert(t.kids[0] == a && t.kids[1] == b && t.kids[2] == c && t.kids[3] == d);
}

/// A sequence of trees that starts with `a` and goes on with those of `l`.
pub(crate) proof fn ne_front(t: Tree, a: Tree, l: Tree)
    requires
        no_enum(t),
        t.kids == seq![a] + l.kids,
        l.label is List,
    ensures
        no_enum(a),
        no_enum(l),
{
    reveal(no_enum);
    assert(t.kids[0] == a);
    assert forall|k: int| 0 <= k < l.kids.len() implies no_enum(#[trigger] l.kids[k]) by {
        assert(t.kids[k + 1] == l.kids[k]);
    }
}

/// A sequence of trees with one more behind it.
pub(crate) proof fn ne_push(ts: Seq<Tree>, a: Tree)
    requires
        no_enum(list(ts.push(a))),
    ensures
        no_enum(list(ts)),
        no_enum(a),
{
    reveal(no_enum);
    let l = list(ts.push(a));
    assert(l.kids[ts.len() as int] == a);
    assert forall|k: int| 0 <= k < ts.len() implies no_enum(#[trigger] ts[k]) by {
        assert(l.kids[k] == ts[k]);
    }
}

/// A node with the parts of a sequence.
pub(crate) proof fn ne_list(t: Tree, l: Tree)
    requires
        no_enum(t),
        t.kids == l.kids,
        l.label is List,
    ensures
        no_enum(l),
{
    reveal(no_enum);
}

/// A binding with a type, and the binding without it.
pub(crate) proof fn lemma_annotated(p: Tree, t: Tree, ann: Tree)
    requires
        no_enum(t),
        t.label == p.label,
        t.kids == kids2(p.kids[0], ann),
        p.kids.len() == 2,
        p.kids[1] == absent(),
    ensures
        no_enum(p),
{
    reveal(no_enum);
    assert(t.kids[0] == p.kids[0]);
    assert(no_enum(absent()));
    assert forall|k: int| 0 <= k < p.kids.len() implies no_enum(#[trigger] p.kids[k]) by {
        assert(k == 0 || k == 1);
    }
}

/// The same node at another place.
pub(crate) proof fn lemma_respanned(v: Tree, t: Tree)
    requires
        no_enum(t),
        t.label == v.label,
        t.kids == v.kids,
    ensures
        no_enum(v),
{
    reveal(no_enum);
}

/// The words `not` and `match` are identifiers.
pub(crate) proof fn lemma_plain_words()
    ensures
        word_kind("not"@) == Token::Ident,
        word_kind("match"@) == Token::Ident,
{
    reveal(word_kind);
    reveal_strlit("not");
    reveal_strlit("match");
    reveal_strlit("null");
    reveal_strlit("true");
    reveal_strlit("false");
    reveal_strlit("as");
    reveal_strlit("satisfies");
    reveal_strlit("of");
    reveal_strlit("declare");
    reveal_strlit("break");
    reveal_strlit("case");
    reveal_strlit("catch");
    reveal_strlit("class");
    reveal_strlit("const");
    reveal_strlit("continue");
    reveal_strlit("debugger");
    reveal_strlit("default");
    reveal_strlit("delete");
    reveal_strlit("do");
    reveal_strlit("else");
    reveal_strlit("enum");
    reveal_strlit("export");
    reveal_strlit("extends");
    reveal_strlit("finally");
    reveal_strlit("for");
    reveal_strlit("function");
    reveal_strlit("if");
    reveal_strlit("import");
    reveal_strlit("in");
    reveal_strlit("instanceof");
    reveal_strlit("let");
    reveal_strlit("new");
    reveal_strlit("return");
    reveal_strlit("super");
    reveal_strlit("switch");
    reveal_strlit("this");
    reveal_strlit("throw");
    reveal_strlit("try");
    reveal_strlit("typeof");
    reveal_strlit("var");
    reveal_strlit("void");
    reveal_strlit("while");
    reveal_strlit("with");
    assert("not"@[0] != "for"@[0]);
    assert("not"@[0] != "let"@[0]);
    assert("not"@[1] != "new"@[1]);
    assert("not"@[0] != "try"@[0]);
    assert("not"@[0] != "var"@[0]);
    assert("match"@[0] != "false"@[0]);
    assert("match"@[0] != "break"@[0]);
    assert("match"@[0] != "catch"@[0]);
    assert("match"@[0] != "class"@[0]);
    assert("match"@[0] != "const"@[0]);
    assert("match"@[0] != "super"@[0]);
    assert("match"@[0] != "throw"@[0]);
    assert("match"@[0] != "while"@[0]);
}

pub(crate) proof fn lemma_var_kind(t: Token)
    ensures
        var_kind(t) is Some ==> t != Token::Eof,
{
    reveal(var_kind);
}

pub(crate) proof fn lemma_assign_op(t: Token)
    ensures
        assign_op(t) is Some ==> t != Token::Eof,
{
    reveal(assign_op);
}

pub(crate) proof fn lemma_binary_op(t: Token)
    ensures
        binary_op(t) is Some ==> t != Token::Eof,
{
    reveal(binary_op);
}

/// Without zts no newtype is ahead, and where one is ahead with zts, a statement
/// cannot end before it.
pub(crate) proof fn lemma_newtype_ahead(toks: Seq<Tok>, n: int)
    ensures
        !off(toks).newtype_ahead(n),
        on(toks).newtype_ahead(n) ==> off(toks).kind(n).is_ident_like(),
        off(toks).kind(n).is_ident_like() ==> {
            &&& !off(toks).nl(n) ==> off(toks).semi(n) is None
            &&& off(toks).kind(n) != Token::Enum
            &&& off(toks).kind(n) != Token::Const
            &&& off(toks).kind(n) != Token::Colon
            &&& var_kind(off(toks).kind(n)) is None
        },
{
    reveal(Gram::newtype_ahead);
    reveal(Token::spec_is_ident_like);
    reveal(var_kind);
}

/// An operator before an operand is the same with zts; `not` is one that zts
/// adds.
pub(crate) proof fn lemma_prefix_op(toks: Seq<Tok>, i: int)
    requires
        worded(toks),
    ensures
        off(toks).prefix_op(i) is Some ==> {
            &&& on(toks).prefix_op(i) == off(toks).prefix_op(i)
            &&& off(toks).kind(i) != Token::Eof
        },
        off(toks).prefix_op(i) is None && on(toks).prefix_op(i) is Some ==> on(toks).not_operator(
            i,
        ),
{
    reveal(Gram::prefix_op);
    reveal(Gram::not_operator);
    reveal(unary_op);
    reveal(Token::spec_is_word);
    lemma_plain_words();
}

/// Where zts reads `not` as an operator, TypeScript reads an identifier that
/// nothing can follow.
pub(crate) proof fn lemma_not(toks: Seq<Tok>, i: int)
    requires
        0 <= i,
        worded(toks),
        on(toks).not_operator(i),
    ensures
        off(toks).subscripts(i) == good(off(toks).ident_at(i), i + 1),
        stuck(off(toks), off(toks).subscripts(i)),
{
    let g = off(toks);
    lemma_plain_words();
    assert(g.kind(i) == Token::Ident && g.text(i) == "not"@ && !g.nl(i + 1) && not_operand(
        g.kind(i + 1),
    )) by {
        reveal(Gram::not_operator);
        reveal(Token::spec_is_word);
    }
    assert(g.primary(i) == good(g.ident_at(i), i + 1)) by {
        reveal(Gram::primary);
        reveal(Gram::match_keyword);
        reveal(Token::spec_is_ident_like);
    }
    assert(blocked(g, i + 1)) by {
        reveal(blocked);
    }
    let a = g.primary(i);
    g.lemma_subscripts(i);
    g.lemma_subscripts_rest(g.lo(i), a);
    lemma_stuck_subscript(g, g.lo(i), a.tree(), i + 1);
    reveal_strlit("not");
    reveal_strlit("declare");
    reveal_strlit("newtype");
    assert("not"@.len() == 3 && "declare"@.len() == 7 && "newtype"@.len() == 7);
}

/// The word `match` is an identifier.
pub(crate) proof fn lemma_match_word(toks: Seq<Tok>, i: int)
    requires
        worded(toks),
        on(toks).match_keyword(i),
    ensures
        off(toks).kind(i) == Token::Ident,
{
    reveal(Gram::match_keyword);
    reveal(Token::spec_is_word);
    lemma_plain_words();
}

/// What the header of a match expression is made of.
pub(crate) proof fn lemma_header(toks: Seq<Tok>, i: int)
    requires
        match_ahead(toks, i),
    ensures
        off(toks).kind(i + 1) == Token::LParen,
        ({
            let d = on(toks).expr(i + 2);
            &&& on(toks).ok(i + 2, d)
            &&& off(toks).kind(d.next) == Token::RParen
            &&& blocked(off(toks), d.next + 1)
        }),
{
    reveal(Gram::match_keyword);
    reveal(Gram::match_header);
    reveal(Gram::expr);
    reveal(blocked);
}

/// What a call is made of.
pub(crate) proof fn lemma_call(g: Gram, start: BytePos, t: Tree, i: int)
    requires
        0 <= i,
        g.kind(i) == Token::LParen,
    ensures
        g.subscript(start, t, i) is Some,
        g.ok(i, g.subscript(start, t, i)->0) ==> {
            let o = g.subscript(start, t, i)->0;
            let l = g.comma_list(ListKind::Args, i + 1);
            &&& g.okl(i + 1, l)
            &&& g.kind(l.next) == Token::RParen
            &&& o.tree().label is Call
            &&& o.tree().kids == kids2(t, l.tree())
            &&& o.next == l.next + 1
        },
{
    reveal(Gram::subscript);
    reveal(Gram::comma_list);
    sound_comma_list(g, ListKind::Args, i + 1);
}

/// No expression starts with a closing parenthesis.
pub(crate) proof fn lemma_no_expr(g: Gram, i: int)
    requires
        g.kind(i) == Token::RParen,
    ensures
        g.assign(i).res is Err,
{
    assert(g.primary(i).res is Err) by {
        reveal(Gram::primary);
        reveal(Gram::match_keyword);
        reveal(Token::spec_is_word);
        reveal(Token::spec_is_ident_like);
        reveal(is_lit);
    }
    g.lemma_subscripts(i);
    assert(g.unary(i) == g.subscripts(i)) by {
        reveal(Gram::unary);
        reveal(Gram::subscripts);
        reveal(Gram::prefix_op);
        reveal(Gram::not_operator);
        reveal(unary_op);
        reveal(Token::spec_is_word);
    }
    g.lemma_bin(i, 0);
    assert(g.cond(i) == g.bin(i, 0)) by {
        reveal(Gram::cond);
        reveal(Gram::bin);
    }
    assert(g.assign(i) == g.cond(i)) by {
        reveal(Gram::assign);
        reveal(Gram::cond);
        reveal(Gram::arrow_ahead);
        reveal(Token::spec_is_ident_like);
    }
}

/// A comma sequence and the arguments of a call that both end at a closing
/// parenthesis end at the same one.
pub(crate) proof fn lemma_more_args(g: Gram, j: int)
    requires
        0 <= j,
        g.kind(j) == Token::Comma,
        g.more_exprs(j).res is Ok,
        g.kind(g.more_exprs(j).next) == Token::RParen,
        g.comma_list(ListKind::Args, j + 1).res is Ok,
        g.kind(g.comma_list(ListKind::Args, j + 1).next) == Token::RParen,
    ensures
        g.more_exprs(j).next == g.comma_list(ListKind::Args, j + 1).next,
    decreases g.rem(j),
{
    g.lemma_more_exprs(j);
    lemma_args_parts(g, j + 1);
    sound_assign(g, j + 1);
    if g.kind(j + 1) == Token::RParen {
        lemma_no_expr(g, j + 1);
    } else {
        let e = g.assign(j + 1);
        g.lemma_more_exprs(e.next);
        if g.kind(e.next) == Token::Comma {
            lemma_more_args(g, e.next);
        }
    }
}

/// What the arguments of a call are made of.
pub(crate) proof fn lemma_args_parts(g: Gram, i: int)
    requires
        0 <= i,
    ensures
        g.kind(i) != Token::RParen ==> g.comma_list(ListKind::Args, i) == ({
            let e = g.assign(i);
            if !g.ok(i, e) {
                e
            } else if g.kind(e.next) != Token::Comma {
                e.grown(list(seq![e.tree()]), e.next)
            } else {
                g.comma_list(ListKind::Args, e.next + 1).behind(seq![e.tree()], e.errs)
            }
        }),
{
    g.lemma_elem(ListKind::Args, i);
    reveal(Gram::comma_list);
    reveal(Gram::elem);
}

/// The expression in the header of a match and the arguments of a call end at
/// the same parenthesis.
pub(crate) proof fn lemma_args(g: Gram, i: int)
    requires
        0 <= i,
        g.expr(i).res is Ok,
        g.kind(g.expr(i).next) == Token::RParen,
        g.comma_list(ListKind::Args, i).res is Ok,
        g.kind(g.comma_list(ListKind::Args, i).next) == Token::RParen,
    ensures
        g.expr(i).next == g.comma_list(ListKind::Args, i).next,
{
    g.lemma_expr(i);
    lemma_args_parts(g, i);
    sound_assign(g, i);
    if g.kind(i) == Token::RParen {
        lemma_no_expr(g, i);
    } else {
        let a = g.assign(i);
        if g.kind(a.next) == Token::Comma {
            lemma_more_args(g, a.next);
        }
    }
}

/// Without zts an enum is one of TypeScript.
pub(crate) proof fn lemma_enum(
    toks: Seq<Tok>,
    i: int,
    start: BytePos,
    is_const: bool,
    declare: bool,
)
    requires
        0 <= i,
    ensures
        off(toks).any_enum(i, start, is_const, declare).res matches Ok(t) ==> !no_enum(t),
{
    let g = off(toks);
    reveal(Gram::any_enum);
    reveal(Gram::ts_enum);
    reveal(Gram::comma_list);
    reveal(Token::spec_is_word);
    reveal(no_enum);
    if g.decl_name(i).res is Ok && g.kind(i + 1) == Token::LBrace {
        sound_comma_list(g, ListKind::TsMembers, i + 2);
    }
}

} // verus!
