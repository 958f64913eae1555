//! The tokens, and the way back to an earlier one.
use crate::atom::{atom_is, atom_text};
use crate::error::{Error, PResult, SyntaxError};
use crate::grammar::{good, Gram, Out};
use crate::lexer::{lemma_tokens_from, lex, pos_of, tokens};
use crate::span::{BytePos, Span};
use crate::syntax::{Syntax, TsSyntax};
use crate::token::{toks_of, well_lexed, Tok, Token, TokenAndSpan};
use crate::tree::{lemma_trees_push, list, trees, HasTree, Tree};
use std::collections::HashSet;
use swc_atoms::Atom;
use vstd::prelude::*;

verus! {

broadcast use vstd::std_specs::hash::group_hash_axioms;

/// What the parser is at: the tokens and whether zts is on, whether it is
/// inside a `declare`, the index of the current token, the errors that it has
/// reported and gone on after, and the positions of the words that it has given
/// up as starts of a match expression.
pub ghost struct State {
    pub toks: Seq<Tok>,
    pub zts: bool,
    pub declare: bool,
    pub pos: int,
    pub errs: Seq<Error>,
    pub given_up: Set<u32>,
}

impl State {
    /// The grammar of the tokens.
    pub open spec fn g(self) -> Gram {
        Gram { toks: self.toks, zts: self.zts }
    }

    /// How many tokens are left.
    pub open spec fn rem(self) -> int {
        self.toks.len() - self.pos
    }

    /// A later state: the tokens and the flags are the same, the errors `errs` have
    /// been reported since, and no word that was given up has been taken back.
    pub open spec fn later(self, post: State, errs: Seq<Error>) -> bool {
        &&& post.toks == self.toks
        &&& post.zts == self.zts
        &&& post.declare == self.declare
        &&& post.errs =~= self.errs + errs
        &&& self.given_up.subset_of(post.given_up)
    }

    /// The state behind a phrase that was parsed from here on.
    pub open spec fn moved(self, post: State, o: Out) -> bool {
        self.later(post, o.errs) && post.pos == o.next
    }

    /// A later state at the same token, with nothing reported since.
    pub open spec fn back(self, post: State) -> bool {
        self.later(post, Seq::empty()) && post.pos == self.pos
    }
}

/// The grammar says that parsing from `pre` on yields `o`; the parser got to
/// `post` and returned `r`. The two agree: on the node or the error, on the
/// token where parsing goes on, and on the errors reported on the way. No word
/// that was given up before is taken back.
pub open spec fn yields<T: HasTree>(pre: State, post: State, r: PResult<T>, o: Out) -> bool {
    &&& pre.moved(post, o)
    &&& match r {
        Ok(t) => o.res == Ok::<Tree, Error>(t.as_tree()) && pre.pos < post.pos,
        Err(e) => o.res == Err::<Tree, Error>(e),
    }
}

/// As [`yields`], for a phrase that may be empty.
pub open spec fn yields_list<T: HasTree>(pre: State, post: State, r: PResult<T>, o: Out) -> bool {
    &&& pre.moved(post, o)
    &&& match r {
        Ok(t) => o.res == Ok::<Tree, Error>(t.as_tree()) && pre.pos <= post.pos,
        Err(e) => o.res == Err::<Tree, Error>(e),
    }
}

/// As [`yields`], for a parser that is handed over and handed back.
pub open spec fn hands_back<T: HasTree>(pre: State, back: (Parser, PResult<T>), o: Out) -> bool {
    let (q, r) = back;
    q.wf() && yields(pre, q@, r, o)
}

/// A sequence that goes on behind `ts` with `t` goes on behind `ts` and `t`.
pub proof fn lemma_behind(o: Out, ts: Seq<Tree>, t: Tree, e1: Seq<Error>, e2: Seq<Error>)
    ensures
        o.behind(seq![t], e2).behind(ts, e1) == o.behind(ts.push(t), e1 + e2),
{
    match o.res {
        Ok(l) => {
            assert(ts + (seq![t] + l.kids) =~= ts.push(t) + l.kids);
        },
        Err(_) => {},
    }
    assert(e1 + (e2 + o.errs) =~= (e1 + e2) + o.errs);
}

/// The sequence `whole` is made of the nodes `v`, which have been parsed with the
/// errors `errs` reported, and of `rest`.
pub open spec fn listed<T: HasTree>(whole: Out, rest: Out, v: Seq<T>, errs: Seq<Error>) -> bool {
    &&& v.len() == 0 ==> errs.len() == 0 && whole == rest
    &&& v.len() > 0 ==> whole == rest.behind(trees(v), errs)
}

/// One more node `e` of a sequence, parsed as the phrase `b`.
pub proof fn lemma_listed<T: HasTree>(
    whole: Out,
    before: Out,
    after: Out,
    v: Seq<T>,
    e: T,
    b: Out,
    errs: Seq<Error>,
)
    requires
        listed(whole, before, v, errs),
        b.res == Ok::<Tree, Error>(e.as_tree()),
    ensures
        before == after.behind(seq![b.tree()], b.errs) ==> listed(
            whole,
            after,
            v.push(e),
            errs + b.errs,
        ),
        before == b.grown(list(seq![b.tree()]), b.next) ==> {
            &&& whole.res == Ok::<Tree, Error>(list(trees(v.push(e))))
            &&& whole.next == b.next
            &&& whole.errs == errs + b.errs
        },
{
    lemma_trees_push(v, e);
    lemma_behind(after, trees(v), b.tree(), errs, b.errs);
    if v.len() == 0 {
        assert(trees(v).push(b.tree()) =~= seq![b.tree()]);
        assert(errs + b.errs =~= b.errs);
    } else {
        assert(trees(v) + seq![b.tree()] =~= trees(v).push(b.tree()));
    }
}

/// No more node of a sequence.
pub proof fn lemma_listed_end<T: HasTree>(whole: Out, n: int, v: Seq<T>, errs: Seq<Error>)
    requires
        listed(whole, good(list(Seq::empty()), n), v, errs),
    ensures
        whole.res == Ok::<Tree, Error>(list(trees(v))),
        whole.next == n,
        whole.errs == errs,
{
    assert(trees(v) + Seq::<Tree>::empty() =~= trees(v));
    assert(errs + Seq::<Error>::empty() =~= errs);
    if v.len() == 0 {
        assert(trees(v) =~= Seq::<Tree>::empty());
        assert(errs =~= Seq::<Error>::empty());
    }
}

/// Whether each of the positions is the start of a word from which no match
/// expression can be read.
pub open spec fn failures_valid(g: Gram, failures: Set<u32>) -> bool {
    forall|s: u32, i: int|
        #![trigger failures.contains(s), g.match_header(i)]
        failures.contains(s) && 0 <= i < g.toks.len() && g.toks[i].span.lo.0 == s
            ==> g.match_header(i) is None
}

/// A parser.
pub struct Parser {
    input: Vec<TokenAndSpan>,
    pos: usize,
    syntax: Syntax,
    in_declare: bool,
    errors: Vec<Error>,
    zts_match_speculation_failures: HashSet<u32>,
}

/// A place to come back to.
pub struct Checkpoint {
    pos: usize,
    errors: usize,
}

impl View for Checkpoint {
    type V = (int, nat);

    closed spec fn view(&self) -> (int, nat) {
        (self.pos as int, self.errors as nat)
    }
}

impl View for Parser {
    type V = State;

    closed spec fn view(&self) -> State {
        State {
            toks: toks_of(self.input@),
            zts: self.syntax.zts(),
            declare: self.in_declare,
            pos: self.pos as int,
            errs: self.errors@,
            given_up: self.zts_match_speculation_failures@,
        }
    }
}

impl Parser {
    /// What holds of the parser besides the index of the current token: the
    /// tokens are in order, and the positions that it has given up as starts of
    /// a match expression are none.
    pub closed spec fn inv(&self) -> bool {
        &&& well_lexed(self@.toks)
        &&& failures_valid(self@.g(), self@.given_up)
    }

    /// The parser has no tokens, and nothing has happened to it.
    pub open spec fn is_vacant(&self) -> bool {
        &&& self@.toks == Seq::<Tok>::empty()
        &&& !self@.zts
        &&& !self@.declare
        &&& self@.pos == 0
        &&& self@.errs == Seq::<Error>::empty()
        &&& self@.given_up == Set::<u32>::empty()
    }

    /// The parser stands at a token.
    pub open spec fn live(&self) -> bool {
        &&& self.inv()
        &&& 0 <= self@.pos < self@.toks.len()
    }

    /// The parser can go on: it stands at a token, and is not inside a `declare`.
    /// A parser starts out like this, and stays so; it is inside a `declare` only
    /// while it parses what is declared.
    pub open spec fn wf(&self) -> bool {
        self.live() && !self@.declare
    }

    /// A parser of a source text, at its first token. [`crate::lexer::fits`] says
    /// whether the text is short enough.
    pub fn new(src: &str, syntax: Syntax) -> (p: Parser)
        requires
            pos_of(src@, src@.len() as int) <= u32::MAX,
        ensures
            p.wf(),
            p@ == (State {
                toks: tokens(src@, syntax.zts()),
                zts: syntax.zts(),
                declare: false,
                pos: 0,
                errs: Seq::empty(),
                given_up: Set::empty(),
            }),
    {
        proof {
            lemma_tokens_from(src@, 0, syntax.zts(), Seq::empty());
        }
        Parser {
            input: lex(src, syntax.zts()),
            pos: 0,
            syntax,
            in_declare: false,
            errors: Vec::new(),
            zts_match_speculation_failures: HashSet::new(),
        }
    }

    /// The tokens of a parser are in order.
    pub proof fn lemma_well_lexed(&self)
        requires
            self.inv(),
        ensures
            well_lexed(self@.toks),
    {
    }

    /// A parser without tokens of its own, to stand in for another one.
    fn vacant() -> (p: Parser)
        ensures
            p.is_vacant(),
    {
        let p = Parser {
            input: Vec::new(),
            pos: 0,
            syntax: Syntax::Typescript(TsSyntax { zts: false }),
            in_declare: false,
            errors: Vec::new(),
            zts_match_speculation_failures: HashSet::new(),
        };
        assert(p@.toks =~= Seq::<Tok>::empty());
        p
    }

    /// Moves the parser out of its place, and leaves a vacant one there.
    pub(crate) fn lend(&mut self) -> (p: Parser)
        ensures
            p == *old(self),
            final(self).is_vacant(),
    {
        let mut p = Parser::vacant();
        std::mem::swap(self, &mut p);
        p
    }

    /// The language to parse.
    pub fn syntax(&self) -> (s: Syntax)
        ensures
            s.zts() == self@.zts,
    {
        self.syntax
    }

    /// Whether the parser is inside a `declare`.
    pub fn in_declare(&self) -> (b: bool)
        ensures
            b == self@.declare,
    {
        self.in_declare
    }

    /// Enters or leaves a `declare`.
    pub(crate) fn set_declare(&mut self, declare: bool)
        ensures
            final(self)@ == (State { declare, ..old(self)@ }),
            old(self).live() ==> final(self).live(),
    {
        self.in_declare = declare;
    }

    /// The current token.
    pub fn cur(&self) -> (t: Token)
        requires
            self.live(),
        ensures
            t == self@.g().kind(self@.pos),
    {
        self.input[self.pos].token
    }

    /// The token after the current one.
    pub fn peek(&self) -> (t: Token)
        requires
            self.live(),
        ensures
            t == self@.g().kind(self@.pos + 1),
    {
        assert(self.pos < self.input.len());
        if self.pos + 1 < self.input.len() {
            self.input[self.pos + 1].token
        } else {
            Token::Eof
        }
    }

    /// Whether the current token is of a kind.
    pub fn is(&self, t: Token) -> (b: bool)
        requires
            self.live(),
        ensures
            b == (self@.g().kind(self@.pos) == t),
    {
        self.cur() == t
    }

    /// Whether the text of the current token is `w`.
    pub fn cur_text_is(&self, w: &str) -> (b: bool)
        requires
            self.live(),
        ensures
            b == (self@.g().text(self@.pos) == w@),
    {
        atom_is(&self.input[self.pos].text, w)
    }

    /// The text of the current token.
    pub fn cur_text(&self) -> (a: Atom)
        requires
            self.live(),
        ensures
            atom_text(a) == self@.g().text(self@.pos),
    {
        self.input[self.pos].text.clone()
    }

    /// The span of the current token.
    pub fn cur_span(&self) -> (s: Span)
        requires
            self.live(),
        ensures
            s == self@.g().span_at(self@.pos),
    {
        self.input[self.pos].span
    }

    /// Where the current token starts.
    pub fn cur_pos(&self) -> (p: BytePos)
        requires
            self.live(),
        ensures
            p == self@.g().lo(self@.pos),
    {
        self.input[self.pos].span.lo
    }

    /// Where the token before the current one ends.
    pub fn last_pos(&self) -> (p: BytePos)
        requires
            self.live(),
        ensures
            p == self@.g().end(self@.pos),
    {
        if self.pos > 0 {
            self.input[self.pos - 1].span.hi
        } else {
            BytePos(1)
        }
    }

    /// The span from `start` to the end of the token before the current one.
    pub fn span(&self, start: BytePos) -> (s: Span)
        requires
            self.live(),
        ensures
            s == self@.g().span(start, self@.pos),
    {
        Span::new(start, self.last_pos())
    }

    /// Whether a line break comes before the current token.
    pub fn had_line_break_before_cur(&self) -> (b: bool)
        requires
            self.live(),
        ensures
            b == self@.g().nl(self@.pos),
    {
        self.input[self.pos].had_line_break
    }

    /// Whether a line break comes between the current token and the next one.
    pub fn has_linebreak_between_cur_and_peeked(&self) -> (b: bool)
        requires
            self.live(),
        ensures
            b == self@.g().nl(self@.pos + 1),
    {
        assert(self.pos < self.input.len());
        if self.pos + 1 < self.input.len() {
            self.input[self.pos + 1].had_line_break
        } else {
            false
        }
    }

    /// The kind of the token at an index.
    pub(crate) fn kind_at(&self, i: usize) -> (t: Token)
        requires
            self.live(),
        ensures
            t == self@.g().kind(i as int),
            t != Token::Eof ==> i + 1 < self@.toks.len() && i < usize::MAX,
    {
        if i < self.input.len() {
            assert(self@.toks[i as int].kind == self.input@[i as int].token);
            self.input[i].token
        } else {
            Token::Eof
        }
    }

    /// The index of the current token.
    pub(crate) fn index(&self) -> (i: usize)
        ensures
            i == self@.pos,
    {
        self.pos
    }

    /// Goes on to the next token.
    pub fn bump(&mut self)
        requires
            old(self).live(),
            old(self)@.g().kind(old(self)@.pos) != Token::Eof,
        ensures
            final(self).live(),
            final(self)@ == (State { pos: old(self)@.pos + 1, ..old(self)@ }),
    {
        assert(self.pos < self.input.len());
        self.pos = self.pos + 1;
    }

    /// Goes on to the next token if the current one is of a kind.
    pub fn eat(&mut self, t: Token) -> (b: bool)
        requires
            old(self).live(),
            t != Token::Eof,
        ensures
            final(self).live(),
            b == (old(self)@.g().kind(old(self)@.pos) == t),
            final(self)@ == (State {
                pos: if b {
                    old(self)@.pos + 1
                } else {
                    old(self)@.pos
                },
                ..old(self)@
            }),
    {
        if self.cur() == t {
            self.bump();
            true
        } else {
            false
        }
    }

    /// Goes on behind a token that has to be there.
    pub fn expect(&mut self, t: Token) -> (r: PResult<()>)
        requires
            old(self).live(),
            t != Token::Eof,
        ensures
            final(self).live(),
            match r {
                Ok(()) => {
                    &&& old(self)@.g().kind(old(self)@.pos) == t
                    &&& final(self)@ == (State { pos: old(self)@.pos + 1, ..old(self)@ })
                },
                Err(e) => {
                    &&& old(self)@.g().kind(old(self)@.pos) != t
                    &&& Err::<Tree, Error>(e) == old(self)@.g().expected(old(self)@.pos, t).res
                    &&& final(self)@ == old(self)@
                },
            },
    {
        if self.cur() == t {
            self.bump();
            Ok(())
        } else {
            Err(Error::new(self.cur_span(), SyntaxError::Expected(t, self.cur())))
        }
    }

    /// Goes on behind the end of a statement.
    pub fn expect_general_semi(&mut self) -> (r: PResult<()>)
        requires
            old(self).live(),
        ensures
            final(self).live(),
            match r {
                Ok(()) => {
                    &&& old(self)@.g().semi(old(self)@.pos) is Some
                    &&& final(self)@ == (State {
                        pos: old(self)@.g().semi(old(self)@.pos)->0,
                        ..old(self)@
                    })
                },
                Err(e) => {
                    &&& old(self)@.g().semi(old(self)@.pos) is None
                    &&& Err::<Tree, Error>(e) == old(self)@.g().no_semi(old(self)@.pos).res
                    &&& final(self)@ == old(self)@
                },
            },
    {
        let t = self.cur();
        if t == Token::Semi {
            self.bump();
            Ok(())
        } else if t == Token::RBrace || t == Token::Eof || self.had_line_break_before_cur() {
            Ok(())
        } else {
            Err(Error::new(self.cur_span(), SyntaxError::ExpectedSemi))
        }
    }

    /// Reports an error and goes on.
    pub fn emit_err(&mut self, span: Span, error: SyntaxError)
        requires
            old(self).live(),
        ensures
            final(self).live(),
            final(self)@ == (State {
                errs: old(self)@.errs.push(Error { span, error }),
                ..old(self)@
            }),
    {
        self.errors.push(Error::new(span, error));
    }

    /// Takes the reported errors.
    pub fn take_errors(&mut self) -> (errors: Vec<Error>)
        requires
            old(self).live(),
        ensures
            final(self).live(),
            errors@ == old(self)@.errs,
            final(self)@ == (State { errs: Seq::empty(), ..old(self)@ }),
    {
        let mut errors: Vec<Error> = Vec::new();
        std::mem::swap(&mut errors, &mut self.errors);
        errors
    }

    /// Remembers the current token and how many errors have been reported.
    pub(crate) fn checkpoint_save(&self) -> (c: Checkpoint)
        ensures
            c@ == (self@.pos, self@.errs.len()),
    {
        Checkpoint { pos: self.pos, errors: self.errors.len() }
    }

    /// Goes back to an earlier token, and forgets the errors reported since.
    pub(crate) fn checkpoint_load(&mut self, c: Checkpoint)
        requires
            old(self).live(),
            0 <= c@.0 < old(self)@.toks.len(),
            c@.1 <= old(self)@.errs.len(),
        ensures
            final(self).live(),
            final(self)@ == (State {
                pos: c@.0,
                errs: old(self)@.errs.take(c@.1 as int),
                ..old(self)@
            }),
    {
        self.pos = c.pos;
        self.errors.truncate(c.errors);
        assert(self.errors@ =~= old(self).errors@.take(c.errors as int));
    }

    /// Whether the word at `start`, the current one, was given up before as the
    /// start of a match expression.
    pub(crate) fn speculation_failed(&self, start: BytePos) -> (b: bool)
        requires
            self.live(),
            start == self@.g().lo(self@.pos),
        ensures
            b == self@.given_up.contains(start.0),
            b ==> self@.g().match_header(self@.pos) is None,
    {
        self.zts_match_speculation_failures.contains(&start.0)
    }

    /// Gives the word at `start`, the current one, up as the start of a match
    /// expression.
    pub(crate) fn record_failure(&mut self, start: BytePos)
        requires
            old(self).live(),
            start == old(self)@.g().lo(old(self)@.pos),
            old(self)@.g().match_header(old(self)@.pos) is None,
        ensures
            final(self).live(),
            final(self)@ == (State {
                given_up: old(self)@.given_up.insert(start.0),
                ..old(self)@
            }),
    {
        self.zts_match_speculation_failures.insert(start.0);
        proof {
            let g = self@.g();
            assert forall|s: u32, i: int|
                #![trigger self.zts_match_speculation_failures@.contains(s), g.match_header(i)]
                self.zts_match_speculation_failures@.contains(s) && 0 <= i < g.toks.len()
                    && g.toks[i].span.lo.0 == s implies g.match_header(i) is None by {
                let before = old(self).zts_match_speculation_failures@;
                if before.contains(s) {
                    assert(old(self)@.g().match_header(i) is None);
                } else {
                    assert(s == start.0);
                    let p = self@.pos;
                    assert(g.toks[i].span.lo.0 == g.toks[p].span.lo.0);
                }
            }
        }
    }
}
} // verus!
