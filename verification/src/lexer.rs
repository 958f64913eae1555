//! From source text to tokens.
//!
//! [`tokens`] says what the tokens of a text are; [`lex`] computes them.
use crate::atom::{atom_new, atom_text};
use crate::span::{BytePos, Span};
use crate::token::{
    toks_of, token_of_word, well_lexed, word_kind, Tok, Token, TokenAndSpan,
};
use swc_atoms::Atom;
use vstd::prelude::*;

verus! {

/// `String::push` puts a character behind the ones that the string holds.
pub assume_specification[ String::push ](s: &mut String, c: char)
    ensures
        final(s)@ == old(s)@.push(c),
;

/// How many bytes a character takes in UTF-8.
pub open spec fn utf8_len(c: char) -> int {
    if (c as int) < 0x80 {
        1
    } else if (c as int) < 0x800 {
        2
    } else if (c as int) < 0x10000 {
        3
    } else {
        4
    }
}

/// The byte position of the character at an index.
pub open spec fn pos_of(s: Seq<char>, i: int) -> int
    decreases i,
{
    if i <= 0 {
        1
    } else {
        pos_of(s, i - 1) + utf8_len(s[i - 1])
    }
}

/// The character at an index, or NUL behind the end.
pub open spec fn at(s: Seq<char>, i: int) -> char {
    if 0 <= i < s.len() {
        s[i]
    } else {
        '\0'
    }
}

/// Whether a character ends a line.
pub open spec fn is_newline(c: char) -> bool {
    c == '\n' || c == '\r' || c == '\u{2028}' || c == '\u{2029}'
}

/// Whether a character is white space.
pub open spec fn is_space(c: char) -> bool {
    ||| c == ' '
    ||| c == '\t'
    ||| c == '\u{b}'
    ||| c == '\u{c}'
    ||| c == '\u{a0}'
    ||| c == '\u{feff}'
    ||| is_newline(c)
}

/// Whether a character is a decimal digit.
pub open spec fn is_digit(c: char) -> bool {
    '0' <= c <= '9'
}

/// Whether a word can start with a character.
pub open spec fn is_word_start(c: char) -> bool {
    ||| 'a' <= c <= 'z'
    ||| 'A' <= c <= 'Z'
    ||| c == '_'
    ||| c == '$'
    ||| (c as int) >= 0x80 && !is_space(c)
}

/// Whether a word can go on with a character.
pub open spec fn is_word_part(c: char) -> bool {
    is_word_start(c) || is_digit(c)
}

/// Whether a character is a digit of a number, or a separator. `radix` is the
/// letter behind the leading zero, or NUL for a decimal number.
pub open spec fn is_number_part(c: char, radix: char) -> bool {
    ||| c == '_'
    ||| if radix == 'x' || radix == 'X' {
        is_digit(c) || 'a' <= c <= 'f' || 'A' <= c <= 'F'
    } else if radix == 'o' || radix == 'O' {
        '0' <= c <= '7'
    } else if radix == 'b' || radix == 'B' {
        c == '0' || c == '1'
    } else {
        is_digit(c)
    }
}

/// The end of a word.
pub open spec fn word_end(s: Seq<char>, i: int) -> int
    decreases s.len() - i,
{
    if 0 <= i < s.len() && is_word_part(s[i]) {
        word_end(s, i + 1)
    } else {
        i
    }
}

/// The end of a run of digits.
pub open spec fn digits_end(s: Seq<char>, i: int, radix: char) -> int
    decreases s.len() - i,
{
    if 0 <= i < s.len() && is_number_part(s[i], radix) {
        digits_end(s, i + 1, radix)
    } else {
        i
    }
}

/// The end of a line.
pub open spec fn line_end(s: Seq<char>, i: int) -> int
    decreases s.len() - i,
{
    if 0 <= i < s.len() && !is_newline(s[i]) {
        line_end(s, i + 1)
    } else {
        i
    }
}

/// The index behind the `*/` that closes a comment.
pub open spec fn comment_end(s: Seq<char>, i: int) -> Option<int>
    decreases s.len() - i,
{
    if i < 0 || i + 1 >= s.len() {
        None
    } else if s[i] == '*' && s[i + 1] == '/' {
        Some(i + 2)
    } else {
        comment_end(s, i + 1)
    }
}

/// The index behind the quote `q` that closes a string.
pub open spec fn string_end(s: Seq<char>, i: int, q: char) -> Option<int>
    decreases s.len() - i,
{
    if i < 0 || i >= s.len() || s[i] == '\n' || s[i] == '\r' {
        None
    } else if s[i] == q {
        Some(i + 1)
    } else if s[i] == '\\' && i + 1 < s.len() {
        string_end(s, i + 2, q)
    } else {
        string_end(s, i + 1, q)
    }
}

/// The end of a piece of a template, and whether the template ends there too:
/// behind the next backquote, or behind the next `${`.
pub open spec fn template_end(s: Seq<char>, i: int) -> Option<(bool, int)>
    decreases s.len() - i,
{
    if i < 0 || i >= s.len() {
        None
    } else if s[i] == '`' {
        Some((true, i + 1))
    } else if s[i] == '$' && at(s, i + 1) == '{' {
        Some((false, i + 2))
    } else if s[i] == '\\' && i + 1 < s.len() {
        template_end(s, i + 2)
    } else {
        template_end(s, i + 1)
    }
}

/// The end of an exponent, or `i` where there is none.
pub open spec fn exponent_end(s: Seq<char>, i: int) -> int {
    if at(s, i) != 'e' && at(s, i) != 'E' {
        i
    } else {
        let d = if at(s, i + 1) == '+' || at(s, i + 1) == '-' {
            i + 2
        } else {
            i + 1
        };
        if digits_end(s, d, '\0') > d {
            digits_end(s, d, '\0')
        } else {
            i
        }
    }
}

/// Where the white space and the comments end that start at an index.
pub open spec fn trivia_end(s: Seq<char>, i: int) -> int
    decreases s.len() - i,
{
    if i < 0 || i >= s.len() {
        i
    } else if is_space(s[i]) {
        trivia_end(s, i + 1)
    } else if s[i] == '/' && at(s, i + 1) == '/' {
        proof {
            lemma_line_end(s, i + 2);
        }
        trivia_end(s, line_end(s, i + 2))
    } else if s[i] == '/' && at(s, i + 1) == '*' {
        proof {
            lemma_comment_end(s, i + 2);
        }
        match comment_end(s, i + 2) {
            Some(e) => trivia_end(s, e),
            None => i,
        }
    } else {
        i
    }
}

/// Whether a line ends between two indices.
pub open spec fn has_newline(s: Seq<char>, i: int, j: int) -> bool {
    exists|k: int| i <= k < j && is_newline(#[trigger] s[k])
}

/// Whether `..=` stands at an index.
pub open spec fn range_at(s: Seq<char>, i: int) -> bool {
    at(s, i) == '.' && at(s, i + 1) == '.' && at(s, i + 2) == '='
}

/// The kind and the end of the number at an index. A decimal point goes with the
/// digits before it, but for the first point of `..=` where zts is on.
#[verifier::opaque]
pub open spec fn number(s: Seq<char>, i: int, zts: bool) -> (Token, int) {
    let r = at(s, i + 1);
    let (kind, end) = if at(s, i) == '0' && (r == 'x' || r == 'X' || r == 'o' || r == 'O' || r
        == 'b' || r == 'B') {
        let e = digits_end(s, i + 2, r);
        if e == i + 2 {
            (Token::Error, i + 1)
        } else if at(s, e) == 'n' {
            (Token::BigInt, e + 1)
        } else {
            (Token::Num, e)
        }
    } else {
        let a = digits_end(s, i, '\0');
        if at(s, a) == 'n' {
            (Token::BigInt, a + 1)
        } else if at(s, a) == '.' && !(zts && range_at(s, a)) {
            (Token::Num, exponent_end(s, digits_end(s, a + 1, '\0')))
        } else {
            (Token::Num, exponent_end(s, a))
        }
    };
    if is_word_start(at(s, end)) {
        (Token::Error, end)
    } else {
        (kind, end)
    }
}

/// The kind and the length of the punctuation that three characters start with:
/// the longest that there is.
#[verifier::opaque]
pub open spec fn punctuation(a: char, b: char, c: char, zts: bool) -> (Token, int) {
    if a == '(' {
        (Token::LParen, 1)
    } else if a == ')' {
        (Token::RParen, 1)
    } else if a == '{' {
        (Token::LBrace, 1)
    } else if a == '}' {
        (Token::RBrace, 1)
    } else if a == '[' {
        (Token::LBracket, 1)
    } else if a == ']' {
        (Token::RBracket, 1)
    } else if a == ',' {
        (Token::Comma, 1)
    } else if a == ';' {
        (Token::Semi, 1)
    } else if a == ':' {
        (Token::Colon, 1)
    } else if a == '~' {
        (Token::Tilde, 1)
    } else if a == '?' {
        if b == '?' {
            (Token::NullishCoalescing, 2)
        } else {
            (Token::Question, 1)
        }
    } else if a == '.' {
        if b == '.' && c == '.' {
            (Token::DotDotDot, 3)
        } else if zts && b == '.' && c == '=' {
            (Token::DotDotEq, 3)
        } else {
            (Token::Dot, 1)
        }
    } else if a == '=' {
        if b == '=' && c == '=' {
            (Token::EqEqEq, 3)
        } else if b == '=' {
            (Token::EqEq, 2)
        } else if b == '>' {
            (Token::Arrow, 2)
        } else {
            (Token::Eq, 1)
        }
    } else if a == '!' {
        if b == '=' && c == '=' {
            (Token::NotEqEq, 3)
        } else if b == '=' {
            (Token::NotEq, 2)
        } else {
            (Token::Bang, 1)
        }
    } else if a == '+' {
        if b == '+' {
            (Token::PlusPlus, 2)
        } else if b == '=' {
            (Token::PlusEq, 2)
        } else {
            (Token::Plus, 1)
        }
    } else if a == '-' {
        if b == '-' {
            (Token::MinusMinus, 2)
        } else if b == '=' {
            (Token::MinusEq, 2)
        } else {
            (Token::Minus, 1)
        }
    } else if a == '*' {
        if b == '*' {
            (Token::Exp, 2)
        } else if b == '=' {
            (Token::MulEq, 2)
        } else {
            (Token::Asterisk, 1)
        }
    } else if a == '/' {
        if b == '=' {
            (Token::DivEq, 2)
        } else {
            (Token::Slash, 1)
        }
    } else if a == '%' {
        if b == '=' {
            (Token::ModEq, 2)
        } else {
            (Token::Percent, 1)
        }
    } else if a == '<' {
        if b == '<' {
            (Token::LShift, 2)
        } else if b == '=' {
            (Token::LtEq, 2)
        } else {
            (Token::Lt, 1)
        }
    } else if a == '>' {
        if b == '>' && c == '>' {
            (Token::ZeroFillRShift, 3)
        } else if b == '>' {
            (Token::RShift, 2)
        } else if b == '=' {
            (Token::GtEq, 2)
        } else {
            (Token::Gt, 1)
        }
    } else if a == '&' {
        if b == '&' {
            (Token::LogicalAnd, 2)
        } else {
            (Token::Ampersand, 1)
        }
    } else if a == '|' {
        if b == '|' {
            (Token::LogicalOr, 2)
        } else {
            (Token::Pipe, 1)
        }
    } else if a == '^' {
        (Token::Caret, 1)
    } else {
        (Token::Error, 1)
    }
}

/// The braces that are open behind a token; those of a substitution are marked.
pub open spec fn braces_behind(braces: Seq<bool>, kind: Token) -> Seq<bool> {
    if kind == Token::LBrace {
        braces.push(false)
    } else if kind == Token::TemplateHead {
        braces.push(true)
    } else if (kind == Token::RBrace || kind == Token::TemplateTail) && braces.len() > 0 {
        braces.drop_last()
    } else {
        braces
    }
}

/// Whether the innermost open brace is that of a substitution.
pub open spec fn in_substitution(braces: Seq<bool>) -> bool {
    braces.len() > 0 && braces.last()
}

/// The kind and the end of the token at an index. `sub` says whether the innermost
/// open brace is that of a substitution in a template.
#[verifier::opaque]
pub open spec fn token_at(s: Seq<char>, i: int, zts: bool, sub: bool) -> (Token, int) {
    let c = at(s, i);
    if c == '`' {
        match template_end(s, i + 1) {
            Some((true, e)) => (Token::NoSubstitutionTemplate, e),
            Some((false, e)) => (Token::TemplateHead, e),
            None => (Token::Error, i + 1),
        }
    } else if c == '}' && sub {
        match template_end(s, i + 1) {
            Some((true, e)) => (Token::TemplateTail, e),
            Some((false, e)) => (Token::TemplateMiddle, e),
            None => (Token::Error, i + 1),
        }
    } else if is_word_start(c) {
        let e = word_end(s, i);
        (word_kind(s.subrange(i, e)), e)
    } else if is_digit(c) || c == '.' && is_digit(at(s, i + 1)) {
        number(s, i, zts)
    } else if c == '"' || c == '\'' {
        match string_end(s, i + 1, c) {
            Some(e) => (Token::Str, e),
            None => (Token::Error, i + 1),
        }
    } else {
        let (kind, n) = punctuation(c, at(s, i + 1), at(s, i + 2), zts);
        (kind, i + n)
    }
}

/// The span between two indices.
pub open spec fn span_of(s: Seq<char>, i: int, j: int) -> Span {
    Span { lo: BytePos(pos_of(s, i) as u32), hi: BytePos(pos_of(s, j) as u32) }
}

/// The tokens of a text, from an index on where the given braces are open. The
/// last one is the end of the text.
pub open spec fn tokens_from(s: Seq<char>, i: int, zts: bool, braces: Seq<bool>) -> Seq<Tok>
    decreases s.len() - i,
{
    let j = trivia_end(s, i);
    let nl = has_newline(s, i, j);
    if i < 0 || j >= s.len() {
        seq![Tok { kind: Token::Eof, text: Seq::empty(), span: span_of(s, j, j), nl }]
    } else {
        let (kind, e) = token_at(s, j, zts, in_substitution(braces));
        proof {
            lemma_trivia_end(s, i);
            lemma_token_at(s, j, zts, in_substitution(braces));
        }
        seq![Tok { kind, text: s.subrange(j, e), span: span_of(s, j, e), nl }] + tokens_from(
            s,
            e,
            zts,
            braces_behind(braces, kind),
        )
    }
}

/// The tokens of a text.
pub open spec fn tokens(s: Seq<char>, zts: bool) -> Seq<Tok> {
    tokens_from(s, 0, zts, Seq::empty())
}

/// A position lies at or behind its index.
pub proof fn lemma_pos_of(s: Seq<char>, i: int, j: int)
    requires
        0 <= i <= j,
    ensures
        pos_of(s, i) >= i + 1,
        pos_of(s, j) - pos_of(s, i) >= j - i,
    decreases j,
{
    if i < j {
        lemma_pos_of(s, i, j - 1);
    } else if 0 < j {
        lemma_pos_of(s, j - 1, j - 1);
    }
}

pub proof fn lemma_line_end(s: Seq<char>, i: int)
    ensures
        i <= line_end(s, i),
        i <= s.len() ==> line_end(s, i) <= s.len(),
    decreases s.len() - i,
{
    if 0 <= i < s.len() && !is_newline(s[i]) {
        lemma_line_end(s, i + 1);
    }
}

pub proof fn lemma_comment_end(s: Seq<char>, i: int)
    ensures
        comment_end(s, i) matches Some(e) ==> i < e <= s.len(),
    decreases s.len() - i,
{
    if !(i < 0 || i + 1 >= s.len()) && !(s[i] == '*' && s[i + 1] == '/') {
        lemma_comment_end(s, i + 1);
    }
}

pub proof fn lemma_string_end(s: Seq<char>, i: int, q: char)
    ensures
        string_end(s, i, q) matches Some(e) ==> i < e <= s.len(),
    decreases s.len() - i,
{
    if !(i < 0 || i >= s.len() || s[i] == '\n' || s[i] == '\r' || s[i] == q) {
        lemma_string_end(s, i + 1, q);
        if i + 1 < s.len() {
            lemma_string_end(s, i + 2, q);
        }
    }
}

/// A piece of a template has at least one character.
pub proof fn lemma_template_end(s: Seq<char>, i: int)
    ensures
        template_end(s, i) matches Some(e) ==> i < e.1 <= s.len(),
    decreases s.len() - i,
{
    if 0 <= i < s.len() {
        lemma_template_end(s, i + 1);
        if i + 1 < s.len() {
            lemma_template_end(s, i + 2);
        }
    }
}

pub proof fn lemma_word_end(s: Seq<char>, i: int)
    ensures
        i <= word_end(s, i),
        i <= s.len() ==> word_end(s, i) <= s.len(),
    decreases s.len() - i,
{
    if 0 <= i < s.len() && is_word_part(s[i]) {
        lemma_word_end(s, i + 1);
    }
}

pub proof fn lemma_digits_end(s: Seq<char>, i: int, radix: char)
    ensures
        i <= digits_end(s, i, radix),
        i <= s.len() ==> digits_end(s, i, radix) <= s.len(),
        0 <= i < s.len() && is_number_part(s[i], radix) ==> i < digits_end(s, i, radix),
    decreases s.len() - i,
{
    if 0 <= i < s.len() && is_number_part(s[i], radix) {
        lemma_digits_end(s, i + 1, radix);
    }
}

/// White space and comments end where they start or behind.
pub proof fn lemma_trivia_end(s: Seq<char>, i: int)
    ensures
        i <= trivia_end(s, i),
        i <= s.len() ==> trivia_end(s, i) <= s.len(),
    decreases s.len() - i,
{
    if 0 <= i < s.len() {
        if is_space(s[i]) {
            lemma_trivia_end(s, i + 1);
        } else if s[i] == '/' && at(s, i + 1) == '/' {
            lemma_line_end(s, i + 2);
            lemma_trivia_end(s, line_end(s, i + 2));
        } else if s[i] == '/' && at(s, i + 1) == '*' {
            lemma_comment_end(s, i + 2);
            if let Some(e) = comment_end(s, i + 2) {
                lemma_trivia_end(s, e);
            }
        }
    }
}

/// A token has at least one character.
pub proof fn lemma_token_at(s: Seq<char>, i: int, zts: bool, sub: bool)
    requires
        0 <= i < s.len(),
    ensures
        i < token_at(s, i, zts, sub).1 <= s.len(),
        token_at(s, i, zts, sub).0 != Token::Eof,
{
    reveal(token_at);
    reveal(number);
    reveal(punctuation);
    reveal(word_kind);
    lemma_template_end(s, i + 1);
    let c = at(s, i);
    if is_word_start(c) {
        lemma_word_end(s, i + 1);
    } else if is_digit(c) || c == '.' && is_digit(at(s, i + 1)) {
        let r = at(s, i + 1);
        lemma_digits_end(s, i + 2, r);
        let a = digits_end(s, i, '\0');
        lemma_digits_end(s, i, '\0');
        lemma_digits_end(s, a + 1, '\0');
        lemma_exponent_end(s, a);
        lemma_exponent_end(s, digits_end(s, a + 1, '\0'));
    } else if c == '"' || c == '\'' {
        lemma_string_end(s, i + 1, c);
    }
}

pub proof fn lemma_exponent_end(s: Seq<char>, i: int)
    requires
        0 <= i,
    ensures
        i <= exponent_end(s, i),
        i <= s.len() ==> exponent_end(s, i) <= s.len(),
{
    lemma_digits_end(s, i + 1, '\0');
    lemma_digits_end(s, i + 2, '\0');
}

/// The tokens of a text are in order, and the last one is the end of the text.
pub proof fn lemma_tokens_from(s: Seq<char>, i: int, zts: bool, braces: Seq<bool>)
    requires
        0 <= i <= s.len(),
        pos_of(s, s.len() as int) <= u32::MAX,
    ensures
        well_lexed(tokens_from(s, i, zts, braces)),
        forall|k: int|
            0 <= k < tokens_from(s, i, zts, braces).len() ==> pos_of(s, i)
                <= (#[trigger] tokens_from(s, i, zts, braces)[k]).span.lo.0,
    decreases s.len() - i,
{
    let j = trivia_end(s, i);
    lemma_trivia_end(s, i);
    lemma_pos_of(s, i, j);
    lemma_pos_of(s, j, s.len() as int);
    if j < s.len() {
        let (kind, e) = token_at(s, j, zts, in_substitution(braces));
        let b = braces_behind(braces, kind);
        lemma_token_at(s, j, zts, in_substitution(braces));
        lemma_tokens_from(s, e, zts, b);
        lemma_pos_of(s, j, e);
        lemma_pos_of(s, e, s.len() as int);
        let rest = tokens_from(s, e, zts, b);
        let all = tokens_from(s, i, zts, braces);
        assert(all.len() == rest.len() + 1);
        assert forall|k: int| 0 < k < all.len() implies #[trigger] all[k] == rest[k - 1] by {}
        assert(all.last() == rest.last());
    }
}

/// The characters of a string.
fn chars_of(src: &str) -> (v: Vec<char>)
    ensures
        v@ == src@,
{
    broadcast use vstd::string::axiom_spec_iter;

    let mut v: Vec<char> = Vec::new();
    for c in it: src.chars()
        invariant
            it.seq() == src@,
            v@ == src@.take(it.index()),
    {
        v.push(c);
    }
    v
}

/// The character `k` behind an index.
fn ahead(s: &Vec<char>, i: usize, k: usize) -> (c: char)
    ensures
        c == at(s@, i + k),
{
    if i < s.len() && k < s.len() - i {
        s[i + k]
    } else {
        '\0'
    }
}

fn utf8_len_of(c: char) -> (n: u32)
    ensures
        n == utf8_len(c),
{
    let n = c as u32;
    if n < 0x80 {
        1
    } else if n < 0x800 {
        2
    } else if n < 0x10000 {
        3
    } else {
        4
    }
}

fn newline(c: char) -> (b: bool)
    ensures
        b == is_newline(c),
{
    c == '\n' || c == '\r' || c == '\u{2028}' || c == '\u{2029}'
}

fn space(c: char) -> (b: bool)
    ensures
        b == is_space(c),
{
    c == ' ' || c == '\t' || c == '\u{b}' || c == '\u{c}' || c == '\u{a0}' || c == '\u{feff}'
        || newline(c)
}

fn digit(c: char) -> (b: bool)
    ensures
        b == is_digit(c),
{
    '0' <= c && c <= '9'
}

fn word_start(c: char) -> (b: bool)
    ensures
        b == is_word_start(c),
{
    'a' <= c && c <= 'z' || 'A' <= c && c <= 'Z' || c == '_' || c == '$' || c as u32 >= 0x80
        && !space(c)
}

fn word_part(c: char) -> (b: bool)
    ensures
        b == is_word_part(c),
{
    word_start(c) || digit(c)
}

fn number_part(c: char, radix: char) -> (b: bool)
    ensures
        b == is_number_part(c, radix),
{
    c == '_' || if radix == 'x' || radix == 'X' {
        digit(c) || 'a' <= c && c <= 'f' || 'A' <= c && c <= 'F'
    } else if radix == 'o' || radix == 'O' {
        '0' <= c && c <= '7'
    } else if radix == 'b' || radix == 'B' {
        c == '0' || c == '1'
    } else {
        digit(c)
    }
}

fn skip_word(s: &Vec<char>, i: usize) -> (e: usize)
    requires
        i <= s@.len(),
    ensures
        e == word_end(s@, i as int),
        i <= e <= s@.len(),
{
    let mut e: usize = i;
    while e < s.len() && word_part(s[e])
        invariant
            i <= e <= s@.len(),
            word_end(s@, e as int) == word_end(s@, i as int),
        decreases s@.len() - e,
    {
        e = e + 1;
    }
    e
}

fn skip_digits(s: &Vec<char>, i: usize, radix: char) -> (e: usize)
    requires
        i <= s@.len(),
    ensures
        e == digits_end(s@, i as int, radix),
        i <= e <= s@.len(),
{
    let mut e: usize = i;
    while e < s.len() && number_part(s[e], radix)
        invariant
            i <= e <= s@.len(),
            digits_end(s@, e as int, radix) == digits_end(s@, i as int, radix),
        decreases s@.len() - e,
    {
        e = e + 1;
    }
    e
}

fn skip_line(s: &Vec<char>, i: usize) -> (e: usize)
    requires
        i <= s@.len(),
    ensures
        e == line_end(s@, i as int),
        i <= e <= s@.len(),
{
    let mut e: usize = i;
    while e < s.len() && !newline(s[e])
        invariant
            i <= e <= s@.len(),
            line_end(s@, e as int) == line_end(s@, i as int),
        decreases s@.len() - e,
    {
        e = e + 1;
    }
    e
}

fn find_comment_end(s: &Vec<char>, i: usize) -> (r: Option<usize>)
    requires
        i <= s@.len(),
    ensures
        match r {
            Some(e) => comment_end(s@, i as int) == Some(e as int) && i < e <= s@.len(),
            None => comment_end(s@, i as int) is None,
        },
{
    let mut e: usize = i;
    while e < s.len() && s.len() - e > 1
        invariant
            i <= e <= s@.len(),
            comment_end(s@, e as int) == comment_end(s@, i as int),
        decreases s@.len() - e,
    {
        if s[e] == '*' && s[e + 1] == '/' {
            return Some(e + 2);
        }
        e = e + 1;
    }
    None
}

fn find_string_end(s: &Vec<char>, i: usize, q: char) -> (r: Option<usize>)
    requires
        i <= s@.len(),
    ensures
        match r {
            Some(e) => string_end(s@, i as int, q) == Some(e as int) && i < e <= s@.len(),
            None => string_end(s@, i as int, q) is None,
        },
{
    let mut e: usize = i;
    while e < s.len()
        invariant
            i <= e <= s@.len(),
            string_end(s@, e as int, q) == string_end(s@, i as int, q),
        decreases s@.len() - e,
    {
        let c = s[e];
        if c == '\n' || c == '\r' {
            return None;
        }
        if c == q {
            return Some(e + 1);
        }
        if c == '\\' && s.len() - e > 1 {
            e = e + 2;
        } else {
            e = e + 1;
        }
    }
    None
}

fn find_template_end(s: &Vec<char>, i: usize) -> (r: Option<(bool, usize)>)
    requires
        i <= s@.len(),
    ensures
        match r {
            Some((closed, e)) => {
                &&& template_end(s@, i as int) == Some((closed, e as int))
                &&& i < e <= s@.len()
            },
            None => template_end(s@, i as int) is None,
        },
{
    let mut e: usize = i;
    while e < s.len()
        invariant
            i <= e <= s@.len(),
            template_end(s@, e as int) == template_end(s@, i as int),
        decreases s@.len() - e,
    {
        let c = s[e];
        if c == '`' {
            return Some((true, e + 1));
        }
        if c == '$' && ahead(s, e, 1) == '{' {
            return Some((false, e + 2));
        }
        if c == '\\' && s.len() - e > 1 {
            e = e + 2;
        } else {
            e = e + 1;
        }
    }
    None
}

fn skip_exponent(s: &Vec<char>, i: usize) -> (e: usize)
    requires
        i <= s@.len(),
    ensures
        e == exponent_end(s@, i as int),
        i <= e <= s@.len(),
{
    assert(s@.len() == s.len());
    let c = ahead(s, i, 0);
    if c != 'e' && c != 'E' {
        return i;
    }
    let sign = ahead(s, i, 1);
    let d: usize = if sign == '+' || sign == '-' {
        i + 2
    } else {
        i + 1
    };
    let e = skip_digits(s, d, '\0');
    if e > d {
        e
    } else {
        i
    }
}

fn range(s: &Vec<char>, i: usize) -> (b: bool)
    ensures
        b == range_at(s@, i as int),
{
    ahead(s, i, 0) == '.' && ahead(s, i, 1) == '.' && ahead(s, i, 2) == '='
}

fn lex_number(s: &Vec<char>, i: usize, zts: bool) -> (r: (Token, usize))
    requires
        i < s@.len(),
        is_digit(at(s@, i as int)) || at(s@, i as int) == '.' && is_digit(at(s@, i + 1)),
    ensures
        r.0 == number(s@, i as int, zts).0,
        r.1 == number(s@, i as int, zts).1,
{
    reveal(number);
    assert(s@.len() == s.len());
    let r = ahead(s, i, 1);
    let (kind, end): (Token, usize) = if s[i] == '0' && (r == 'x' || r == 'X' || r == 'o' || r
        == 'O' || r == 'b' || r == 'B') {
        let e = skip_digits(s, i + 2, r);
        if e == i + 2 {
            (Token::Error, i + 1)
        } else if ahead(s, e, 0) == 'n' {
            (Token::BigInt, e + 1)
        } else {
            (Token::Num, e)
        }
    } else {
        let a = skip_digits(s, i, '\0');
        let c = ahead(s, a, 0);
        if c == 'n' {
            (Token::BigInt, a + 1)
        } else if c == '.' && !(zts && range(s, a)) {
            (Token::Num, skip_exponent(s, skip_digits(s, a + 1, '\0')))
        } else {
            (Token::Num, skip_exponent(s, a))
        }
    };
    if word_start(ahead(s, end, 0)) {
        (Token::Error, end)
    } else {
        (kind, end)
    }
}

fn lex_punctuation(a: char, b: char, c: char, zts: bool) -> (r: (Token, usize))
    ensures
        r.0 == punctuation(a, b, c, zts).0,
        r.1 == punctuation(a, b, c, zts).1,
{
    reveal(punctuation);
    if a == '(' {
        (Token::LParen, 1)
    } else if a == ')' {
        (Token::RParen, 1)
    } else if a == '{' {
        (Token::LBrace, 1)
    } else if a == '}' {
        (Token::RBrace, 1)
    } else if a == '[' {
        (Token::LBracket, 1)
    } else if a == ']' {
        (Token::RBracket, 1)
    } else if a == ',' {
        (Token::Comma, 1)
    } else if a == ';' {
        (Token::Semi, 1)
    } else if a == ':' {
        (Token::Colon, 1)
    } else if a == '~' {
        (Token::Tilde, 1)
    } else if a == '?' {
        if b == '?' {
            (Token::NullishCoalescing, 2)
        } else {
            (Token::Question, 1)
        }
    } else if a == '.' {
        if b == '.' && c == '.' {
            (Token::DotDotDot, 3)
        } else if zts && b == '.' && c == '=' {
            (Token::DotDotEq, 3)
        } else {
            (Token::Dot, 1)
        }
    } else if a == '=' {
        if b == '=' && c == '=' {
            (Token::EqEqEq, 3)
        } else if b == '=' {
            (Token::EqEq, 2)
        } else if b == '>' {
            (Token::Arrow, 2)
        } else {
            (Token::Eq, 1)
        }
    } else if a == '!' {
        if b == '=' && c == '=' {
            (Token::NotEqEq, 3)
        } else if b == '=' {
            (Token::NotEq, 2)
        } else {
            (Token::Bang, 1)
        }
    } else if a == '+' {
        if b == '+' {
            (Token::PlusPlus, 2)
        } else if b == '=' {
            (Token::PlusEq, 2)
        } else {
            (Token::Plus, 1)
        }
    } else if a == '-' {
        if b == '-' {
            (Token::MinusMinus, 2)
        } else if b == '=' {
            (Token::MinusEq, 2)
        } else {
            (Token::Minus, 1)
        }
    } else if a == '*' {
        if b == '*' {
            (Token::Exp, 2)
        } else if b == '=' {
            (Token::MulEq, 2)
        } else {
            (Token::Asterisk, 1)
        }
    } else if a == '/' {
        if b == '=' {
            (Token::DivEq, 2)
        } else {
            (Token::Slash, 1)
        }
    } else if a == '%' {
        if b == '=' {
            (Token::ModEq, 2)
        } else {
            (Token::Percent, 1)
        }
    } else if a == '<' {
        if b == '<' {
            (Token::LShift, 2)
        } else if b == '=' {
            (Token::LtEq, 2)
        } else {
            (Token::Lt, 1)
        }
    } else if a == '>' {
        if b == '>' && c == '>' {
            (Token::ZeroFillRShift, 3)
        } else if b == '>' {
            (Token::RShift, 2)
        } else if b == '=' {
            (Token::GtEq, 2)
        } else {
            (Token::Gt, 1)
        }
    } else if a == '&' {
        if b == '&' {
            (Token::LogicalAnd, 2)
        } else {
            (Token::Ampersand, 1)
        }
    } else if a == '|' {
        if b == '|' {
            (Token::LogicalOr, 2)
        } else {
            (Token::Pipe, 1)
        }
    } else if a == '^' {
        (Token::Caret, 1)
    } else {
        (Token::Error, 1)
    }
}

/// The text between two indices.
fn text_of(s: &Vec<char>, i: usize, e: usize) -> (t: String)
    requires
        i <= e <= s@.len(),
    ensures
        t@ == s@.subrange(i as int, e as int),
{
    let mut t = String::new();
    let mut k: usize = i;
    while k < e
        invariant
            i <= k <= e <= s@.len(),
            t@ == s@.subrange(i as int, k as int),
        decreases e - k,
    {
        t.push(s[k]);
        k = k + 1;
        assert(t@ =~= s@.subrange(i as int, k as int));
    }
    t
}

/// The position of an index that lies behind another one.
fn advance(s: &Vec<char>, i: usize, pos: u32, e: usize) -> (p: u32)
    requires
        i <= e <= s@.len(),
        pos == pos_of(s@, i as int),
        pos_of(s@, s@.len() as int) <= u32::MAX,
    ensures
        p == pos_of(s@, e as int),
{
    let mut k: usize = i;
    let mut p: u32 = pos;
    while k < e
        invariant
            i <= k <= e <= s@.len(),
            p == pos_of(s@, k as int),
            pos_of(s@, s@.len() as int) <= u32::MAX,
        decreases e - k,
    {
        proof {
            lemma_pos_of(s@, k + 1, s@.len() as int);
        }
        p = p + utf8_len_of(s[k]);
        k = k + 1;
    }
    p
}

/// Skips white space and comments. Says where they end, and whether a line ended
/// in them.
fn skip_trivia(s: &Vec<char>, i: usize) -> (r: (usize, bool))
    requires
        i <= s@.len(),
    ensures
        r.0 == trivia_end(s@, i as int),
        i <= r.0 <= s@.len(),
        r.1 == has_newline(s@, i as int, r.0 as int),
{
    let mut e: usize = i;
    let mut nl: bool = false;
    #[verifier::loop_isolation(false)]
    while e < s.len()
        invariant
            i <= e <= s@.len(),
            trivia_end(s@, e as int) == trivia_end(s@, i as int),
            nl == has_newline(s@, i as int, e as int),
        decreases s@.len() - e,
    {
        let c = s[e];
        if space(c) {
            if newline(c) {
                nl = true;
                assert(is_newline(s@[e as int]));
            }
            e = e + 1;
        } else if c == '/' && ahead(s, e, 1) == '/' {
            let j = skip_line(s, e + 2);
            proof {
                lemma_no_newline(s@, e + 2);
                assert forall|k: int| e <= k < j implies !is_newline(#[trigger] s@[k]) by {}
            }
            e = j;
        } else if c == '/' && ahead(s, e, 1) == '*' {
            match find_comment_end(s, e + 2) {
                Some(j) => {
                    if any_newline(s, e, j) {
                        nl = true;
                    }
                    e = j;
                },
                None => return (e, nl),
            }
        } else {
            return (e, nl);
        }
    }
    (e, nl)
}

/// A line holds no line end.
pub proof fn lemma_no_newline(s: Seq<char>, i: int)
    requires
        0 <= i,
    ensures
        forall|k: int| i <= k < line_end(s, i) ==> !is_newline(#[trigger] s[k]),
    decreases s.len() - i,
{
    if i < s.len() && !is_newline(s[i]) {
        lemma_no_newline(s, i + 1);
    }
}

/// Whether a line ends between two indices.
fn any_newline(s: &Vec<char>, i: usize, j: usize) -> (b: bool)
    requires
        i <= j <= s@.len(),
    ensures
        b == has_newline(s@, i as int, j as int),
{
    let mut k: usize = i;
    while k < j
        invariant
            i <= k <= j <= s@.len(),
            !has_newline(s@, i as int, k as int),
        decreases j - k,
    {
        if newline(s[k]) {
            assert(is_newline(s@[k as int]));
            return true;
        }
        k = k + 1;
    }
    false
}

/// The token at an index: what it is, its text, and where it ends.
fn lex_token(s: &Vec<char>, i: usize, zts: bool, sub: bool) -> (r: (Token, Atom, usize))
    requires
        i < s@.len(),
    ensures
        r.0 == token_at(s@, i as int, zts, sub).0,
        r.2 == token_at(s@, i as int, zts, sub).1,
        i < r.2 <= s@.len(),
        atom_text(r.1) == s@.subrange(i as int, r.2 as int),
{
    reveal(token_at);
    proof {
        lemma_token_at(s@, i as int, zts, sub);
    }
    assert(s@.len() == s.len());
    let c = s[i];
    if word_start(c) {
        let e = skip_word(s, i);
        let text = atom_new(text_of(s, i, e).as_str());
        (token_of_word(&text), text, e)
    } else {
        let (kind, e): (Token, usize) = if c == '`' {
            match find_template_end(s, i + 1) {
                Some((true, e)) => (Token::NoSubstitutionTemplate, e),
                Some((false, e)) => (Token::TemplateHead, e),
                None => (Token::Error, i + 1),
            }
        } else if c == '}' && sub {
            match find_template_end(s, i + 1) {
                Some((true, e)) => (Token::TemplateTail, e),
                Some((false, e)) => (Token::TemplateMiddle, e),
                None => (Token::Error, i + 1),
            }
        } else if digit(c) || c == '.' && digit(ahead(s, i, 1)) {
            lex_number(s, i, zts)
        } else if c == '"' || c == '\'' {
            match find_string_end(s, i + 1, c) {
                Some(e) => (Token::Str, e),
                None => (Token::Error, i + 1),
            }
        } else {
            let (kind, n) = lex_punctuation(c, ahead(s, i, 1), ahead(s, i, 2), zts);
            (kind, i + n)
        };
        (kind, atom_new(text_of(s, i, e).as_str()), e)
    }
}

/// Whether the positions of a text fit into 32 bits, so that it can be parsed.
pub fn fits(src: &str) -> (b: bool)
    ensures
        b == (pos_of(src@, src@.len() as int) <= u32::MAX),
{
    let s = chars_of(src);
    let mut pos: u32 = 1;
    let mut i: usize = 0;
    while i < s.len()
        invariant
            i <= s@.len(),
            s@ == src@,
            pos == pos_of(s@, i as int),
        decreases s@.len() - i,
    {
        let n = utf8_len_of(s[i]);
        if pos > u32::MAX - n {
            proof {
                lemma_pos_of(s@, i + 1, s@.len() as int);
            }
            return false;
        }
        pos = pos + n;
        i = i + 1;
    }
    true
}

/// The tokens of a text.
pub fn lex(src: &str, zts: bool) -> (v: Vec<TokenAndSpan>)
    requires
        pos_of(src@, src@.len() as int) <= u32::MAX,
    ensures
        toks_of(v@) == tokens(src@, zts),
{
    let s = chars_of(src);
    let mut v: Vec<TokenAndSpan> = Vec::new();
    let mut i: usize = 0;
    let mut pos: u32 = 1;
    let mut braces: Vec<bool> = Vec::new();
    proof {
        assert(braces@ =~= Seq::<bool>::empty());
        assert(toks_of(v@) + tokens_from(s@, 0, zts, braces@) =~= tokens(s@, zts));
    }
    #[verifier::loop_isolation(false)]
    loop
        invariant
            i <= s@.len(),
            pos == pos_of(s@, i as int),
            toks_of(v@) + tokens_from(s@, i as int, zts, braces@) == tokens(s@, zts),
        decreases s@.len() - i,
    {
        let ghost before = toks_of(v@);
        let (j, had_line_break) = skip_trivia(&s, i);
        let lo = advance(&s, i, pos, j);
        if j >= s.len() {
            let text = atom_new("");
            proof {
                reveal_strlit("");
                assert(atom_text(text) =~= Seq::<char>::empty());
            }
            let span = Span { lo: BytePos(lo), hi: BytePos(lo) };
            let t = TokenAndSpan { token: Token::Eof, text, span, had_line_break };
            v.push(t);
            proof {
                assert(toks_of(v@) =~= before + seq![t@]);
            }
            return v;
        }
        let sub = braces.len() > 0 && braces[braces.len() - 1];
        let (token, text, e) = lex_token(&s, j, zts, sub);
        let ghost open = braces@;
        if token == Token::LBrace {
            braces.push(false);
        } else if token == Token::TemplateHead {
            braces.push(true);
        } else if token == Token::RBrace || token == Token::TemplateTail {
            braces.pop();
        }
        assert(braces@ =~= braces_behind(open, token));
        let hi = advance(&s, j, lo, e);
        let span = Span { lo: BytePos(lo), hi: BytePos(hi) };
        let t = TokenAndSpan { token, text, span, had_line_break };
        v.push(t);
        proof {
            assert(toks_of(v@) =~= before + seq![t@]);
            let rest = tokens_from(s@, e as int, zts, braces@);
            assert((before + seq![t@]) + rest =~= before + (seq![t@] + rest));
        }
        i = e;
        pos = hi;
    }
}

} // verus!
