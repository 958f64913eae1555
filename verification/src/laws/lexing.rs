//! Laws of the tokens of a text.
use crate::laws::both::worded;
use crate::lexer::{
    at, braces_behind, digits_end, exponent_end, in_substitution, lemma_digits_end, lemma_token_at,
    lemma_tokens_from, lemma_trivia_end, number, pos_of, punctuation, range_at, token_at, tokens,
    tokens_from, trivia_end,
};
use crate::token::{well_lexed, word_kind, Tok, Token};
use vstd::prelude::*;

verus! {

/// The tokens of a text are in order: the last one is the end of the text, each
/// starts behind the start of the one before it, and none ends before its start.
pub proof fn tokens_are_in_order(s: Seq<char>, zts: bool)
    requires
        pos_of(s, s.len() as int) <= u32::MAX,
    ensures
        well_lexed(tokens(s, zts)),
{
    lemma_tokens_from(s, 0, zts, Seq::empty());
}

/// Whether a word comes behind each point.
pub open spec fn points_lead(toks: Seq<Tok>) -> bool {
    forall|k: int|
        0 <= k < toks.len() && (#[trigger] toks[k]).kind == Token::Dot ==> k + 1 < toks.len()
            && toks[k + 1].kind.is_word()
}

/// What tells the tokens of zts from those of TypeScript: a `..=`, which
/// TypeScript reads as a point and another point, or, behind a number, as a point
/// that goes with the number and another point.
proof fn lemma_difference(s: Seq<char>, j: int, sub: bool)
    requires
        0 <= j < s.len(),
        token_at(s, j, false, sub) != token_at(s, j, true, sub),
    ensures
        ({
            let (kind, e) = token_at(s, j, false, sub);
            ||| kind == Token::Dot && e == j + 1 && at(s, e) == '.' && at(s, e + 1) == '='
            ||| kind == Token::Num && e < s.len() && at(s, e) == '.' && at(s, e + 1) == '='
        }),
{
    reveal(token_at);
    reveal(number);
    reveal(punctuation);
    let a = digits_end(s, j, '\0');
    lemma_digits_end(s, j, '\0');
    if range_at(s, a) {
        assert(digits_end(s, a + 1, '\0') == a + 1);
        assert(exponent_end(s, a + 1) == a + 1);
    }
}

/// The token at a point that no digit follows and no second point: the point.
proof fn lemma_point_token(s: Seq<char>, j: int, sub: bool)
    requires
        0 <= j,
        at(s, j) == '.',
        at(s, j + 1) == '=',
    ensures
        trivia_end(s, j) == j,
        j < s.len(),
        token_at(s, j, false, sub) == (Token::Dot, j + 1),
{
    reveal(token_at);
    reveal(punctuation);
}

/// The token at an equals sign is no word.
proof fn lemma_equals_token(s: Seq<char>, j: int, sub: bool)
    requires
        0 <= j,
        at(s, j) == '=',
    ensures
        trivia_end(s, j) == j,
        j < s.len(),
        !token_at(s, j, false, sub).0.is_word(),
{
    reveal(token_at);
    reveal(punctuation);
    reveal(Token::spec_is_word);
}

/// The first token of a text, and the others.
proof fn lemma_first(s: Seq<char>, i: int, zts: bool, braces: Seq<bool>)
    requires
        0 <= i <= s.len(),
        trivia_end(s, i) < s.len(),
    ensures
        ({
            let (kind, e) = token_at(s, trivia_end(s, i), zts, in_substitution(braces));
            let all = tokens_from(s, i, zts, braces);
            let rest = tokens_from(s, e, zts, braces_behind(braces, kind));
            &&& i <= trivia_end(s, i) < e <= s.len()
            &&& kind != Token::Eof
            &&& all.len() == rest.len() + 1
            &&& all[0].kind == kind
            &&& all[0].text == s.subrange(trivia_end(s, i), e)
            &&& forall|k: int| 0 < k < all.len() ==> #[trigger] all[k] == rest[k - 1]
        }),
{
    lemma_trivia_end(s, i);
    lemma_token_at(s, trivia_end(s, i), zts, in_substitution(braces));
}

/// The first token is the same where a word comes behind each point.
proof fn lemma_agree(s: Seq<char>, i: int, braces: Seq<bool>)
    requires
        0 <= i <= s.len(),
        trivia_end(s, i) < s.len(),
        points_lead(tokens_from(s, i, false, braces)),
    ensures
        token_at(s, trivia_end(s, i), true, in_substitution(braces)) == token_at(
            s,
            trivia_end(s, i),
            false,
            in_substitution(braces),
        ),
{
    let j = trivia_end(s, i);
    let sub = in_substitution(braces);
    lemma_first(s, i, false, braces);
    if token_at(s, j, true, sub) != token_at(s, j, false, sub) {
        let all = tokens_from(s, i, false, braces);
        let (kind, e) = token_at(s, j, false, sub);
        lemma_difference(s, j, sub);
        let b = braces_behind(braces, kind);
        assert(b == braces);
        let rest = tokens_from(s, e, false, b);
        lemma_point_token(s, e, sub);
        lemma_first(s, e, false, b);
        assert(all[1] == rest[0]);
        if kind == Token::Dot {
            assert(all[0].kind == Token::Dot);
            assert(!Token::Dot.is_word()) by {
                reveal(Token::spec_is_word);
            }
        } else {
            lemma_equals_token(s, e + 1, sub);
            lemma_first(s, e + 1, false, b);
            assert(rest[1] == tokens_from(s, e + 1, false, b)[0]);
            assert(all[2] == rest[1]);
            assert(all[1].kind == Token::Dot);
        }
    }
}

/// A text in which a word comes behind each point has the same tokens with zts
/// and without.
pub proof fn same_tokens_from(s: Seq<char>, i: int, braces: Seq<bool>)
    requires
        0 <= i <= s.len(),
        points_lead(tokens_from(s, i, false, braces)),
    ensures
        tokens_from(s, i, true, braces) == tokens_from(s, i, false, braces),
    decreases s.len() - i,
{
    if trivia_end(s, i) < s.len() {
        lemma_first(s, i, false, braces);
        lemma_agree(s, i, braces);
        let all = tokens_from(s, i, false, braces);
        let (kind, e) = token_at(s, trivia_end(s, i), false, in_substitution(braces));
        let b = braces_behind(braces, kind);
        let rest = tokens_from(s, e, false, b);
        assert forall|k: int|
            0 <= k < rest.len() && (#[trigger] rest[k]).kind == Token::Dot implies k + 1
            < rest.len() && rest[k + 1].kind.is_word() by {
            assert(all[k + 1] == rest[k]);
            assert(all[k + 2] == rest[k + 1]);
        }
        same_tokens_from(s, e, b);
    }
}

/// A word is what its text says.
pub proof fn words_from(s: Seq<char>, i: int, zts: bool, braces: Seq<bool>)
    requires
        0 <= i <= s.len(),
    ensures
        worded(tokens_from(s, i, zts, braces)),
    decreases s.len() - i,
{
    if trivia_end(s, i) < s.len() {
        lemma_first(s, i, zts, braces);
        let j = trivia_end(s, i);
        let (kind, e) = token_at(s, j, zts, in_substitution(braces));
        words_from(s, e, zts, braces_behind(braces, kind));
        lemma_word_token(s, j, zts, in_substitution(braces));
    } else {
        reveal(Token::spec_is_word);
    }
}

/// A token that is a word is what its text says.
proof fn lemma_word_token(s: Seq<char>, j: int, zts: bool, sub: bool)
    requires
        0 <= j < s.len(),
    ensures
        ({
            let (kind, e) = token_at(s, j, zts, sub);
            kind.is_word() ==> kind == word_kind(s.subrange(j, e))
        }),
{
    reveal(token_at);
    reveal(number);
    reveal(punctuation);
    reveal(Token::spec_is_word);
}

/// Only the last token is the end of the text.
pub proof fn end_comes_last(s: Seq<char>, i: int, zts: bool, braces: Seq<bool>)
    requires
        0 <= i <= s.len(),
    ensures
        tokens_from(s, i, zts, braces).len() > 0,
        tokens_from(s, i, zts, braces).last().kind == Token::Eof,
        forall|k: int|
            0 <= k < tokens_from(s, i, zts, braces).len() - 1 ==> (#[trigger] tokens_from(
                s,
                i,
                zts,
                braces,
            )[k]).kind != Token::Eof,
    decreases s.len() - i,
{
    if trivia_end(s, i) < s.len() {
        lemma_first(s, i, zts, braces);
        let (kind, e) = token_at(s, trivia_end(s, i), zts, in_substitution(braces));
        let b = braces_behind(braces, kind);
        end_comes_last(s, e, zts, b);
        assert(tokens_from(s, i, zts, braces).last() == tokens_from(s, e, zts, b).last());
    }
}

/// Without zts there is no `..=`.
pub proof fn no_range_without_zts(s: Seq<char>, i: int, braces: Seq<bool>)
    requires
        0 <= i <= s.len(),
    ensures
        forall|k: int|
            0 <= k < tokens_from(s, i, false, braces).len() ==> (#[trigger] tokens_from(
                s,
                i,
                false,
                braces,
            )[k]).kind != Token::DotDotEq,
    decreases s.len() - i,
{
    if trivia_end(s, i) < s.len() {
        lemma_first(s, i, false, braces);
        let (kind, e) = token_at(s, trivia_end(s, i), false, in_substitution(braces));
        no_range_without_zts(s, e, braces_behind(braces, kind));
        assert(kind != Token::DotDotEq) by {
            reveal(token_at);
            reveal(number);
            reveal(punctuation);
            reveal(word_kind);
        }
    }
}

} // verus!
