//! What tokens are written as: the tokens of a text are the text, cut into pieces.
use crate::laws::spelling::cuts;
use crate::lexer::{
    at, braces_behind, comment_end, in_substitution, is_digit, is_word_part, is_word_start,
    lemma_comment_end, lemma_digits_end, lemma_line_end, lemma_token_at, lemma_trivia_end, line_end,
    number, pos_of, punctuation, string_end, template_end, token_at, tokens, tokens_from,
    trivia_end, word_end,
};
use crate::token::{word_kind, Tok, Token};
use vstd::prelude::*;

verus! {

/// The characters of a sign, with NUL where there is none.
pub open spec fn sign_of(t: Token) -> Option<(char, char, char)> {
    match t {
        Token::LParen => Some(('(', '\0', '\0')),
        Token::RParen => Some((')', '\0', '\0')),
        Token::LBrace => Some(('{', '\0', '\0')),
        Token::RBrace => Some(('}', '\0', '\0')),
        Token::LBracket => Some(('[', '\0', '\0')),
        Token::RBracket => Some((']', '\0', '\0')),
        Token::Comma => Some((',', '\0', '\0')),
        Token::Semi => Some((';', '\0', '\0')),
        Token::Colon => Some((':', '\0', '\0')),
        Token::Question => Some(('?', '\0', '\0')),
        Token::Dot => Some(('.', '\0', '\0')),
        Token::DotDotDot => Some(('.', '.', '.')),
        Token::Arrow => Some(('=', '>', '\0')),
        Token::Eq => Some(('=', '\0', '\0')),
        Token::PlusEq => Some(('+', '=', '\0')),
        Token::MinusEq => Some(('-', '=', '\0')),
        Token::MulEq => Some(('*', '=', '\0')),
        Token::DivEq => Some(('/', '=', '\0')),
        Token::ModEq => Some(('%', '=', '\0')),
        Token::EqEq => Some(('=', '=', '\0')),
        Token::NotEq => Some(('!', '=', '\0')),
        Token::EqEqEq => Some(('=', '=', '=')),
        Token::NotEqEq => Some(('!', '=', '=')),
        Token::Lt => Some(('<', '\0', '\0')),
        Token::LtEq => Some(('<', '=', '\0')),
        Token::Gt => Some(('>', '\0', '\0')),
        Token::GtEq => Some(('>', '=', '\0')),
        Token::LShift => Some(('<', '<', '\0')),
        Token::RShift => Some(('>', '>', '\0')),
        Token::ZeroFillRShift => Some(('>', '>', '>')),
        Token::Plus => Some(('+', '\0', '\0')),
        Token::Minus => Some(('-', '\0', '\0')),
        Token::Asterisk => Some(('*', '\0', '\0')),
        Token::Exp => Some(('*', '*', '\0')),
        Token::Slash => Some(('/', '\0', '\0')),
        Token::Percent => Some(('%', '\0', '\0')),
        Token::PlusPlus => Some(('+', '+', '\0')),
        Token::MinusMinus => Some(('-', '-', '\0')),
        Token::Ampersand => Some(('&', '\0', '\0')),
        Token::Pipe => Some(('|', '\0', '\0')),
        Token::Caret => Some(('^', '\0', '\0')),
        Token::Tilde => Some(('~', '\0', '\0')),
        Token::Bang => Some(('!', '\0', '\0')),
        Token::LogicalAnd => Some(('&', '&', '\0')),
        Token::LogicalOr => Some(('|', '|', '\0')),
        Token::NullishCoalescing => Some(('?', '?', '\0')),
        Token::DotDotEq => Some(('.', '.', '=')),
        _ => None,
    }
}

/// How many characters a sign has.
pub open spec fn sign_len(x: (char, char, char)) -> int {
    if x.1 == '\0' {
        1
    } else if x.2 == '\0' {
        2
    } else {
        3
    }
}

/// Whether three characters start with a sign.
pub open spec fn starts_with(x: (char, char, char), a: char, b: char, c: char) -> bool {
    &&& x.0 == a
    &&& sign_len(x) >= 2 ==> x.1 == b
    &&& sign_len(x) >= 3 ==> x.2 == c
}

/// The word that a token with a fixed word is written as.
pub open spec fn word_of(t: Token) -> Option<Seq<char>> {
    match t {
        Token::Null => Some("null"@),
        Token::True => Some("true"@),
        Token::False => Some("false"@),
        Token::As => Some("as"@),
        Token::Satisfies => Some("satisfies"@),
        Token::Of => Some("of"@),
        Token::Declare => Some("declare"@),
        Token::Break => Some("break"@),
        Token::Case => Some("case"@),
        Token::Catch => Some("catch"@),
        Token::Class => Some("class"@),
        Token::Const => Some("const"@),
        Token::Continue => Some("continue"@),
        Token::Debugger => Some("debugger"@),
        Token::Default => Some("default"@),
        Token::Delete => Some("delete"@),
        Token::Do => Some("do"@),
        Token::Else => Some("else"@),
        Token::Enum => Some("enum"@),
        Token::Export => Some("export"@),
        Token::Extends => Some("extends"@),
        Token::Finally => Some("finally"@),
        Token::For => Some("for"@),
        Token::Function => Some("function"@),
        Token::If => Some("if"@),
        Token::Import => Some("import"@),
        Token::In => Some("in"@),
        Token::InstanceOf => Some("instanceof"@),
        Token::Let => Some("let"@),
        Token::New => Some("new"@),
        Token::Return => Some("return"@),
        Token::Super => Some("super"@),
        Token::Switch => Some("switch"@),
        Token::This => Some("this"@),
        Token::Throw => Some("throw"@),
        Token::Try => Some("try"@),
        Token::TypeOf => Some("typeof"@),
        Token::Var => Some("var"@),
        Token::Void => Some("void"@),
        Token::While => Some("while"@),
        Token::With => Some("with"@),
        _ => None,
    }
}

/// Characters that start with signs are read as one of them: as the longest. `..=` is a
/// sign with zts on alone.
pub proof fn longest_signs_are_read(a: char, b: char, c: char, zts: bool, t: Token)
    ensures
        ({
            let (kind, n) = punctuation(a, b, c, zts);
            &&& kind != Token::Error ==> {
                &&& sign_of(kind) is Some
                &&& n == sign_len(sign_of(kind)->0)
                &&& starts_with(sign_of(kind)->0, a, b, c)
                &&& kind == Token::DotDotEq ==> zts
            }
            &&& sign_of(t) is Some && starts_with(sign_of(t)->0, a, b, c) && (t
                == Token::DotDotEq ==> zts) ==> kind != Token::Error && n >= sign_len(sign_of(t)->0)
        }),
{
    reveal(punctuation);
}

/// A word of the language is read as its token, and no other word is.
pub proof fn words_are_read_as_their_tokens(w: Seq<char>, t: Token)
    ensures
        word_of(t) == Some(w) ==> word_kind(w) == t,
        word_kind(w) == t && t != Token::Ident ==> word_of(t) == Some(w),
{
    reveal_strlit("null");
    reveal_strlit("true");
    reveal_strlit("false");
    reveal_strlit("as");
    reveal_strlit("satisfies");
    reveal_strlit("of");
    reveal_strlit("declare");
    reveal_strlit("break");
    reveal_strlit("case");
    reveal_strlit("catch");
    reveal_strlit("class");
    reveal_strlit("const");
    reveal_strlit("continue");
    reveal_strlit("debugger");
    reveal_strlit("default");
    reveal_strlit("delete");
    reveal_strlit("do");
    reveal_strlit("else");
    reveal_strlit("enum");
    reveal_strlit("export");
    reveal_strlit("extends");
    reveal_strlit("finally");
    reveal_strlit("for");
    reveal_strlit("function");
    reveal_strlit("if");
    reveal_strlit("import");
    reveal_strlit("in");
    reveal_strlit("instanceof");
    reveal_strlit("let");
    reveal_strlit("new");
    reveal_strlit("return");
    reveal_strlit("super");
    reveal_strlit("switch");
    reveal_strlit("this");
    reveal_strlit("throw");
    reveal_strlit("try");
    reveal_strlit("typeof");
    reveal_strlit("var");
    reveal_strlit("void");
    reveal_strlit("while");
    reveal_strlit("with");
    assert("null"@.len() == 4 && "null"@[0] == 'n');
    assert("true"@.len() == 4 && "true"@[0] == 't' && "true"@[1] == 'r');
    assert("false"@.len() == 5 && "false"@[0] == 'f');
    assert("as"@.len() == 2 && "as"@[0] == 'a');
    assert("satisfies"@.len() == 9);
    assert("of"@.len() == 2 && "of"@[0] == 'o');
    assert("declare"@.len() == 7 && "declare"@[0] == 'd' && "declare"@[1] == 'e'
        && "declare"@[2] == 'c');
    assert("break"@.len() == 5 && "break"@[0] == 'b');
    assert("case"@.len() == 4 && "case"@[0] == 'c');
    assert("catch"@.len() == 5 && "catch"@[0] == 'c' && "catch"@[1] == 'a');
    assert("class"@.len() == 5 && "class"@[0] == 'c' && "class"@[1] == 'l');
    assert("const"@.len() == 5 && "const"@[0] == 'c' && "const"@[1] == 'o');
    assert("continue"@.len() == 8 && "continue"@[0] == 'c');
    assert("debugger"@.len() == 8 && "debugger"@[0] == 'd');
    assert("default"@.len() == 7 && "default"@[0] == 'd' && "default"@[1] == 'e'
        && "default"@[2] == 'f');
    assert("delete"@.len() == 6 && "delete"@[0] == 'd');
    assert("do"@.len() == 2 && "do"@[0] == 'd');
    assert("else"@.len() == 4 && "else"@[0] == 'e' && "else"@[1] == 'l');
    assert("enum"@.len() == 4 && "enum"@[0] == 'e' && "enum"@[1] == 'n');
    assert("export"@.len() == 6 && "export"@[0] == 'e');
    assert("extends"@.len() == 7 && "extends"@[0] == 'e');
    assert("finally"@.len() == 7 && "finally"@[0] == 'f');
    assert("for"@.len() == 3 && "for"@[0] == 'f');
    assert("function"@.len() == 8 && "function"@[0] == 'f');
    assert("if"@.len() == 2 && "if"@[0] == 'i' && "if"@[1] == 'f');
    assert("import"@.len() == 6 && "import"@[0] == 'i');
    assert("in"@.len() == 2 && "in"@[0] == 'i' && "in"@[1] == 'n');
    assert("instanceof"@.len() == 10);
    assert("let"@.len() == 3 && "let"@[0] == 'l');
    assert("new"@.len() == 3 && "new"@[0] == 'n');
    assert("return"@.len() == 6 && "return"@[0] == 'r');
    assert("super"@.len() == 5 && "super"@[0] == 's');
    assert("switch"@.len() == 6 && "switch"@[0] == 's');
    assert("this"@.len() == 4 && "this"@[0] == 't' && "this"@[1] == 'h');
    assert("throw"@.len() == 5 && "throw"@[0] == 't');
    assert("try"@.len() == 3 && "try"@[0] == 't');
    assert("typeof"@.len() == 6 && "typeof"@[0] == 't');
    assert("var"@.len() == 3 && "var"@[0] == 'v');
    assert("void"@.len() == 4 && "void"@[0] == 'v');
    assert("while"@.len() == 5 && "while"@[0] == 'w');
    assert("with"@.len() == 4 && "with"@[0] == 'w');
    reveal(word_kind);
}

/// The words are the identifiers and the words of the language; five of the latter can
/// stand as identifiers too.
pub proof fn words_are_told_apart(t: Token)
    ensures
        t.is_word() <==> t == Token::Ident || word_of(t) is Some,
        t.is_ident_like() <==> t == Token::Ident || t == Token::As || t == Token::Satisfies || t
            == Token::Of || t == Token::Declare,
{
    reveal(Token::spec_is_word);
    reveal(Token::spec_is_ident_like);
}

/// Whether a character ends a line.
pub open spec fn ends_line(c: char) -> bool {
    c == '\n' || c == '\r' || c == '\u{2028}' || c == '\u{2029}'
}

/// Whether a character is white space.
pub open spec fn is_blank(c: char) -> bool {
    ||| ends_line(c)
    ||| c == ' '
    ||| c == '\t'
    ||| c == '\u{b}'
    ||| c == '\u{c}'
    ||| c == '\u{a0}'
    ||| c == '\u{feff}'
}

/// Whether a comment stands between two indices: from `//` to the end of the line, or
/// from `/*` to the first `*/` behind it.
pub open spec fn is_comment(s: Seq<char>, i: int, j: int) -> bool {
    &&& 0 <= i
    &&& i + 2 <= j <= s.len()
    &&& s[i] == '/'
    &&& {
        ||| {
            &&& s[i + 1] == '/'
            &&& forall|k: int| i + 2 <= k < j ==> !ends_line(#[trigger] s[k])
            &&& j < s.len() ==> ends_line(s[j])
        }
        ||| {
            &&& s[i + 1] == '*'
            &&& i + 4 <= j
            &&& s[j - 2] == '*'
            &&& s[j - 1] == '/'
            &&& forall|k: int|
                i + 2 <= k < j - 2 ==> !(#[trigger] s[k] == '*' && s[k + 1] == '/')
        }
    }
}

/// Whether only white space and comments stand between two indices.
pub open spec fn blank(s: Seq<char>, i: int, j: int) -> bool
    decreases j - i,
{
    if i >= j {
        i == j
    } else {
        ||| 0 <= i < s.len() && is_blank(s[i]) && blank(s, i + 1, j)
        ||| exists|e: int| #[trigger]
            cuts(e, e) && i < e <= j && is_comment(s, i, e) && blank(s, e, j)
    }
}

/// Whether the characters between two indices are what a token is written as.
pub open spec fn writes(s: Seq<char>, i: int, j: int, t: Token) -> bool {
    &&& sign_of(t) is Some ==> {
        &&& j - i == sign_len(sign_of(t)->0)
        &&& starts_with(sign_of(t)->0, at(s, i), at(s, i + 1), at(s, i + 2))
    }
    &&& t.is_word() ==> {
        &&& t == word_kind(s.subrange(i, j))
        &&& is_word_start(s[i])
        &&& forall|k: int| i <= k < j ==> is_word_part(#[trigger] s[k])
        &&& j < s.len() ==> !is_word_part(s[j])
    }
    &&& t == Token::Str ==> {
        &&& i + 2 <= j
        &&& s[i] == '"' || s[i] == '\''
        &&& s[j - 1] == s[i]
    }
    &&& t == Token::Num || t == Token::BigInt ==> is_digit(s[i]) || s[i] == '.'
    &&& t == Token::Num || t == Token::BigInt ==> !is_word_start(at(s, j))
    &&& t == Token::BigInt ==> s[j - 1] == 'n'
    &&& t == Token::NoSubstitutionTemplate || t == Token::TemplateHead ==> s[i] == '`'
    &&& t == Token::TemplateMiddle || t == Token::TemplateTail ==> s[i] == '}'
    &&& t == Token::NoSubstitutionTemplate || t == Token::TemplateTail ==> {
        &&& i + 2 <= j
        &&& s[j - 1] == '`'
    }
    &&& t == Token::TemplateHead || t == Token::TemplateMiddle ==> {
        &&& i + 3 <= j
        &&& s[j - 2] == '$'
        &&& s[j - 1] == '{'
    }
}

/// Whether a line ends between two indices.
pub open spec fn breaks(s: Seq<char>, i: int, j: int) -> bool {
    exists|k: int| i <= k < j && ends_line(#[trigger] s[k])
}

/// Whether tokens are what a text holds from an index on: each has the text, the span and
/// the line break before it that it is written with, only white space and comments stand
/// between them, and the last one is the end of the text.
pub open spec fn cover(s: Seq<char>, i: int, toks: Seq<Tok>) -> bool
    decreases toks.len(),
{
    &&& toks.len() > 0
    &&& exists|a: int, b: int| #[trigger]
        cuts(a, b) && {
            let t = toks[0];
            &&& i <= a <= b <= s.len()
            &&& blank(s, i, a)
            &&& t.text == s.subrange(a, b)
            &&& t.span.lo.0 == pos_of(s, a) as u32
            &&& t.span.hi.0 == pos_of(s, b) as u32
            &&& t.nl <==> breaks(s, i, a)
            &&& if toks.len() == 1 {
                t.kind == Token::Eof && a == s.len()
            } else {
                &&& t.kind != Token::Eof
                &&& a < b
                &&& writes(s, a, b, t.kind)
                &&& cover(s, b, toks.drop_first())
            }
        }
}

/// The tokens of a text are what the text holds.
pub proof fn tokens_are_what_was_written(s: Seq<char>, zts: bool)
    ensures
        cover(s, 0, tokens(s, zts)),
{
    lemma_cover(s, 0, zts, Seq::empty());
}

proof fn lemma_cover(s: Seq<char>, i: int, zts: bool, braces: Seq<bool>)
    requires
        0 <= i <= s.len(),
    ensures
        cover(s, i, tokens_from(s, i, zts, braces)),
    decreases s.len() - i,
{
    let a = trivia_end(s, i);
    let all = tokens_from(s, i, zts, braces);
    lemma_trivia_end(s, i);
    lemma_blank(s, i);
    if a >= s.len() {
        assert(cuts(a, a));
        assert(s.subrange(a, a) =~= Seq::empty());
    } else {
        let sub = in_substitution(braces);
        let (kind, b) = token_at(s, a, zts, sub);
        lemma_token_at(s, a, zts, sub);
        lemma_writes(s, a, zts, sub);
        let rest = tokens_from(s, b, zts, braces_behind(braces, kind));
        lemma_cover(s, b, zts, braces_behind(braces, kind));
        assert(all.drop_first() =~= rest);
        assert(all[0].kind == kind);
        assert(cuts(a, b));
    }
}

proof fn lemma_blank(s: Seq<char>, i: int)
    requires
        0 <= i <= s.len(),
    ensures
        blank(s, i, trivia_end(s, i)),
        i <= trivia_end(s, i) <= s.len(),
    decreases s.len() - i,
{
    lemma_trivia_end(s, i);
    let j = trivia_end(s, i);
    if i < s.len() && i < j {
        if is_blank(s[i]) {
            lemma_blank(s, i + 1);
        } else if at(s, i + 1) == '/' {
            lemma_line_end(s, i + 2);
            lemma_line(s, i + 2);
            let e = line_end(s, i + 2);
            lemma_blank(s, e);
            assert(cuts(e, e));
        } else {
            lemma_comment_end(s, i + 2);
            lemma_comment(s, i + 2);
            let e = comment_end(s, i + 2)->0;
            lemma_blank(s, e);
            assert(is_comment(s, i, e));
            assert(cuts(e, e));
        }
    }
}

proof fn lemma_line(s: Seq<char>, i: int)
    requires
        0 <= i <= s.len(),
    ensures
        forall|k: int| i <= k < line_end(s, i) ==> !ends_line(#[trigger] s[k]),
        line_end(s, i) < s.len() ==> ends_line(s[line_end(s, i)]),
        i <= line_end(s, i) <= s.len(),
    decreases s.len() - i,
{
    if i < s.len() && !ends_line(s[i]) {
        lemma_line(s, i + 1);
    }
}

proof fn lemma_comment(s: Seq<char>, i: int)
    requires
        0 <= i <= s.len(),
    ensures
        comment_end(s, i) matches Some(e) ==> {
            &&& i + 2 <= e <= s.len()
            &&& s[e - 2] == '*'
            &&& s[e - 1] == '/'
            &&& forall|k: int| i <= k < e - 2 ==> !(#[trigger] s[k] == '*' && s[k + 1] == '/')
        },
    decreases s.len() - i,
{
    if i + 1 < s.len() && !(s[i] == '*' && s[i + 1] == '/') {
        lemma_comment(s, i + 1);
    }
}

proof fn lemma_writes(s: Seq<char>, i: int, zts: bool, sub: bool)
    requires
        0 <= i < s.len(),
    ensures
        ({
            let (kind, e) = token_at(s, i, zts, sub);
            writes(s, i, e, kind)
        }),
{
    reveal(token_at);
    reveal(Token::spec_is_word);
    let c = s[i];
    lemma_token_at(s, i, zts, sub);
    if c == '`' || c == '}' && sub {
        lemma_template(s, i + 1);
    } else if is_word_start(c) {
        lemma_word(s, i);
        lemma_word_sign(s.subrange(i, word_end(s, i)));
    } else if is_digit(c) || c == '.' && is_digit(at(s, i + 1)) {
        reveal(number);
        lemma_digits_end(s, i + 2, at(s, i + 1));
        lemma_digits_end(s, i, '\0');
    } else if c == '"' || c == '\'' {
        lemma_string(s, i + 1, c);
    } else {
        longest_signs_are_read(c, at(s, i + 1), at(s, i + 2), zts, Token::Eof);
    }
}

proof fn lemma_word_sign(w: Seq<char>)
    ensures
        word_kind(w).is_word(),
        sign_of(word_kind(w)) is None,
{
    reveal(word_kind);
    reveal(Token::spec_is_word);
}

proof fn lemma_word(s: Seq<char>, i: int)
    requires
        0 <= i <= s.len(),
    ensures
        i <= word_end(s, i) <= s.len(),
        forall|k: int| i <= k < word_end(s, i) ==> is_word_part(#[trigger] s[k]),
        word_end(s, i) < s.len() ==> !is_word_part(s[word_end(s, i)]),
    decreases s.len() - i,
{
    if i < s.len() && is_word_part(s[i]) {
        lemma_word(s, i + 1);
    }
}

proof fn lemma_string(s: Seq<char>, i: int, q: char)
    requires
        0 <= i <= s.len(),
    ensures
        string_end(s, i, q) matches Some(e) ==> i < e <= s.len() && s[e - 1] == q,
    decreases s.len() - i,
{
    if i < s.len() && s[i] != '\n' && s[i] != '\r' && s[i] != q {
        if s[i] == '\\' && i + 1 < s.len() {
            lemma_string(s, i + 2, q);
        } else {
            lemma_string(s, i + 1, q);
        }
    }
}

proof fn lemma_template(s: Seq<char>, i: int)
    requires
        0 <= i <= s.len(),
    ensures
        template_end(s, i) matches Some((last, e)) ==> {
            &&& i < e <= s.len()
            &&& last ==> s[e - 1] == '`'
            &&& !last ==> i + 2 <= e && s[e - 2] == '$' && s[e - 1] == '{'
        },
    decreases s.len() - i,
{
    if i < s.len() && s[i] != '`' && !(s[i] == '$' && at(s, i + 1) == '{') {
        if s[i] == '\\' && i + 1 < s.len() {
            lemma_template(s, i + 2);
        } else {
            lemma_template(s, i + 1);
        }
    }
}

} // verus!
