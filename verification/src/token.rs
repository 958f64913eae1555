//! Tokens.
use crate::atom::{atom_is, atom_text};
use crate::span::Span;
use swc_atoms::Atom;
use vstd::prelude::*;

verus! {

/// The kinds of token.
///
/// Words come first: identifiers, the literal words, the words that are
/// keywords only in some positions, and the reserved words. Every other word
/// that means something in some position only (`match`, `not`, `newtype`, `_`)
/// is an [`Token::Ident`], told apart by its text.
#[derive(Clone, Copy, Debug, PartialEq, Eq, Hash, Structural)]
pub enum Token {
    /// An identifier.
    Ident,
    /// `null`
    Null,
    /// `true`
    True,
    /// `false`
    False,
    /// `as`
    As,
    /// `satisfies`
    Satisfies,
    /// `of`
    Of,
    /// `declare`
    Declare,
    /// `break`
    Break,
    /// `case`
    Case,
    /// `catch`
    Catch,
    /// `class`
    Class,
    /// `const`
    Const,
    /// `continue`
    Continue,
    /// `debugger`
    Debugger,
    /// `default`
    Default,
    /// `delete`
    Delete,
    /// `do`
    Do,
    /// `else`
    Else,
    /// `enum`
    Enum,
    /// `export`
    Export,
    /// `extends`
    Extends,
    /// `finally`
    Finally,
    /// `for`
    For,
    /// `function`
    Function,
    /// `if`
    If,
    /// `import`
    Import,
    /// `in`
    In,
    /// `instanceof`
    InstanceOf,
    /// `let`
    Let,
    /// `new`
    New,
    /// `return`
    Return,
    /// `super`
    Super,
    /// `switch`
    Switch,
    /// `this`
    This,
    /// `throw`
    Throw,
    /// `try`
    Try,
    /// `typeof`
    TypeOf,
    /// `var`
    Var,
    /// `void`
    Void,
    /// `while`
    While,
    /// `with`
    With,
    /// A number literal.
    Num,
    /// A string literal.
    Str,
    /// A big integer literal.
    BigInt,
    /// A template without substitutions.
    NoSubstitutionTemplate,
    /// The start of a template, up to and with the first `${`.
    TemplateHead,
    /// A piece of a template, from `}` up to and with the next `${`.
    TemplateMiddle,
    /// The end of a template, from the last `}` on.
    TemplateTail,
    /// `(`
    LParen,
    /// `)`
    RParen,
    /// `{`
    LBrace,
    /// `}`
    RBrace,
    /// `[`
    LBracket,
    /// `]`
    RBracket,
    /// `,`
    Comma,
    /// `;`
    Semi,
    /// `:`
    Colon,
    /// `?`
    Question,
    /// `.`
    Dot,
    /// `...`
    DotDotDot,
    /// `=>`
    Arrow,
    /// `=`
    Eq,
    /// `+=`
    PlusEq,
    /// `-=`
    MinusEq,
    /// `*=`
    MulEq,
    /// `/=`
    DivEq,
    /// `%=`
    ModEq,
    /// `==`
    EqEq,
    /// `!=`
    NotEq,
    /// `===`
    EqEqEq,
    /// `!==`
    NotEqEq,
    /// `<`
    Lt,
    /// `<=`
    LtEq,
    /// `>`
    Gt,
    /// `>=`
    GtEq,
    /// `<<`
    LShift,
    /// `>>`
    RShift,
    /// `>>>`
    ZeroFillRShift,
    /// `+`
    Plus,
    /// `-`
    Minus,
    /// `*`
    Asterisk,
    /// `**`
    Exp,
    /// `/`
    Slash,
    /// `%`
    Percent,
    /// `++`
    PlusPlus,
    /// `--`
    MinusMinus,
    /// `&`
    Ampersand,
    /// `|`
    Pipe,
    /// `^`
    Caret,
    /// `~`
    Tilde,
    /// `!`
    Bang,
    /// `&&`
    LogicalAnd,
    /// `||`
    LogicalOr,
    /// `??`
    NullishCoalescing,
    /// `..=`
    DotDotEq,
    /// Text that is no token.
    Error,
    /// The end of the source text.
    Eof,
}

impl Token {
    /// Whether the token is spelled as a word: an identifier, a reserved word,
    /// or one of the words in between.
    #[verifier::opaque]
    pub open spec fn spec_is_word(self) -> bool {
        match self {
            Token::Ident | Token::Null | Token::True | Token::False | Token::As
            | Token::Satisfies | Token::Of | Token::Declare | Token::Break | Token::Case
            | Token::Catch | Token::Class | Token::Const | Token::Continue | Token::Debugger
            | Token::Default | Token::Delete | Token::Do | Token::Else | Token::Enum
            | Token::Export | Token::Extends | Token::Finally | Token::For | Token::Function
            | Token::If | Token::Import | Token::In | Token::InstanceOf | Token::Let
            | Token::New | Token::Return | Token::Super | Token::Switch | Token::This
            | Token::Throw | Token::Try | Token::TypeOf | Token::Var | Token::Void
            | Token::While | Token::With => true,
            _ => false,
        }
    }

    /// Whether the token is spelled as a word: an identifier, a reserved word,
    /// or one of the words in between.
    #[verifier::when_used_as_spec(spec_is_word)]
    pub fn is_word(self) -> (b: bool)
        ensures
            b == self.spec_is_word(),
            b ==> self != Token::Eof,
    {
        reveal(Token::spec_is_word);
        match self {
            Token::Ident | Token::Null | Token::True | Token::False | Token::As
            | Token::Satisfies | Token::Of | Token::Declare | Token::Break | Token::Case
            | Token::Catch | Token::Class | Token::Const | Token::Continue | Token::Debugger
            | Token::Default | Token::Delete | Token::Do | Token::Else | Token::Enum
            | Token::Export | Token::Extends | Token::Finally | Token::For | Token::Function
            | Token::If | Token::Import | Token::In | Token::InstanceOf | Token::Let
            | Token::New | Token::Return | Token::Super | Token::Switch | Token::This
            | Token::Throw | Token::Try | Token::TypeOf | Token::Var | Token::Void
            | Token::While | Token::With => true,
            _ => false,
        }
    }

    /// Whether the token can stand as an identifier.
    #[verifier::opaque]
    pub open spec fn spec_is_ident_like(self) -> bool {
        match self {
            Token::Ident | Token::As | Token::Satisfies | Token::Of | Token::Declare => true,
            _ => false,
        }
    }

    /// Whether the token can stand as an identifier.
    #[verifier::when_used_as_spec(spec_is_ident_like)]
    pub fn is_ident_like(self) -> (b: bool)
        ensures
            b == self.spec_is_ident_like(),
            b ==> self != Token::Eof,
    {
        reveal(Token::spec_is_ident_like);
        match self {
            Token::Ident | Token::As | Token::Satisfies | Token::Of | Token::Declare => true,
            _ => false,
        }
    }
}

/// The token that a word stands for.
#[verifier::opaque]
pub open spec fn word_kind(w: Seq<char>) -> Token {
    if w == "null"@ {
        Token::Null
    } else if w == "true"@ {
        Token::True
    } else if w == "false"@ {
        Token::False
    } else if w == "as"@ {
        Token::As
    } else if w == "satisfies"@ {
        Token::Satisfies
    } else if w == "of"@ {
        Token::Of
    } else if w == "declare"@ {
        Token::Declare
    } else if w == "break"@ {
        Token::Break
    } else if w == "case"@ {
        Token::Case
    } else if w == "catch"@ {
        Token::Catch
    } else if w == "class"@ {
        Token::Class
    } else if w == "const"@ {
        Token::Const
    } else if w == "continue"@ {
        Token::Continue
    } else if w == "debugger"@ {
        Token::Debugger
    } else if w == "default"@ {
        Token::Default
    } else if w == "delete"@ {
        Token::Delete
    } else if w == "do"@ {
        Token::Do
    } else if w == "else"@ {
        Token::Else
    } else if w == "enum"@ {
        Token::Enum
    } else if w == "export"@ {
        Token::Export
    } else if w == "extends"@ {
        Token::Extends
    } else if w == "finally"@ {
        Token::Finally
    } else if w == "for"@ {
        Token::For
    } else if w == "function"@ {
        Token::Function
    } else if w == "if"@ {
        Token::If
    } else if w == "import"@ {
        Token::Import
    } else if w == "in"@ {
        Token::In
    } else if w == "instanceof"@ {
        Token::InstanceOf
    } else if w == "let"@ {
        Token::Let
    } else if w == "new"@ {
        Token::New
    } else if w == "return"@ {
        Token::Return
    } else if w == "super"@ {
        Token::Super
    } else if w == "switch"@ {
        Token::Switch
    } else if w == "this"@ {
        Token::This
    } else if w == "throw"@ {
        Token::Throw
    } else if w == "try"@ {
        Token::Try
    } else if w == "typeof"@ {
        Token::TypeOf
    } else if w == "var"@ {
        Token::Var
    } else if w == "void"@ {
        Token::Void
    } else if w == "while"@ {
        Token::While
    } else if w == "with"@ {
        Token::With
    } else {
        Token::Ident
    }
}

/// The token that a word stands for.
pub(crate) fn token_of_word(w: &Atom) -> (t: Token)
    ensures
        t == word_kind(atom_text(*w)),
{
    reveal(word_kind);
    if atom_is(w, "null") {
        Token::Null
    } else if atom_is(w, "true") {
        Token::True
    } else if atom_is(w, "false") {
        Token::False
    } else if atom_is(w, "as") {
        Token::As
    } else if atom_is(w, "satisfies") {
        Token::Satisfies
    } else if atom_is(w, "of") {
        Token::Of
    } else if atom_is(w, "declare") {
        Token::Declare
    } else if atom_is(w, "break") {
        Token::Break
    } else if atom_is(w, "case") {
        Token::Case
    } else if atom_is(w, "catch") {
        Token::Catch
    } else if atom_is(w, "class") {
        Token::Class
    } else if atom_is(w, "const") {
        Token::Const
    } else if atom_is(w, "continue") {
        Token::Continue
    } else if atom_is(w, "debugger") {
        Token::Debugger
    } else if atom_is(w, "default") {
        Token::Default
    } else if atom_is(w, "delete") {
        Token::Delete
    } else if atom_is(w, "do") {
        Token::Do
    } else if atom_is(w, "else") {
        Token::Else
    } else if atom_is(w, "enum") {
        Token::Enum
    } else if atom_is(w, "export") {
        Token::Export
    } else if atom_is(w, "extends") {
        Token::Extends
    } else if atom_is(w, "finally") {
        Token::Finally
    } else if atom_is(w, "for") {
        Token::For
    } else if atom_is(w, "function") {
        Token::Function
    } else if atom_is(w, "if") {
        Token::If
    } else if atom_is(w, "import") {
        Token::Import
    } else if atom_is(w, "in") {
        Token::In
    } else if atom_is(w, "instanceof") {
        Token::InstanceOf
    } else if atom_is(w, "let") {
        Token::Let
    } else if atom_is(w, "new") {
        Token::New
    } else if atom_is(w, "return") {
        Token::Return
    } else if atom_is(w, "super") {
        Token::Super
    } else if atom_is(w, "switch") {
        Token::Switch
    } else if atom_is(w, "this") {
        Token::This
    } else if atom_is(w, "throw") {
        Token::Throw
    } else if atom_is(w, "try") {
        Token::Try
    } else if atom_is(w, "typeof") {
        Token::TypeOf
    } else if atom_is(w, "var") {
        Token::Var
    } else if atom_is(w, "void") {
        Token::Void
    } else if atom_is(w, "while") {
        Token::While
    } else if atom_is(w, "with") {
        Token::With
    } else {
        Token::Ident
    }
}

/// A token as the grammar sees it: its kind and text, the byte positions it
/// spans, and whether a line break comes between it and the token before it.
pub ghost struct Tok {
    pub kind: Token,
    pub text: Seq<char>,
    pub span: Span,
    pub nl: bool,
}

/// A token of a source text.
#[derive(Debug)]
pub struct TokenAndSpan {
    pub token: Token,
    /// The source text of the token.
    pub text: Atom,
    pub span: Span,
    /// Whether a line break comes between the token before it and this one.
    pub had_line_break: bool,
}

impl View for TokenAndSpan {
    type V = Tok;

    open spec fn view(&self) -> Tok {
        Tok {
            kind: self.token,
            text: atom_text(self.text),
            span: self.span,
            nl: self.had_line_break,
        }
    }
}

impl Clone for TokenAndSpan {
    fn clone(&self) -> (c: TokenAndSpan)
        ensures
            c@ == self@,
    {
        TokenAndSpan {
            token: self.token,
            text: self.text.clone(),
            span: self.span,
            had_line_break: self.had_line_break,
        }
    }
}

/// Tokens on which a parser can run: the last one is the end of the source text,
/// each starts behind the start of the one before it, and none ends before its own
/// start or that of an earlier one.
pub open spec fn well_lexed(toks: Seq<Tok>) -> bool {
    &&& toks.len() > 0
    &&& toks.last().kind == Token::Eof
    &&& forall|i: int, j: int|
        0 <= i < j < toks.len() ==> (#[trigger] toks[i]).span.lo.0 < (#[trigger] toks[j]).span.lo.0
    &&& forall|i: int, j: int|
        0 <= i <= j < toks.len() ==> (#[trigger] toks[i]).span.lo.0 <= (
        #[trigger] toks[j]).span.hi.0
}

/// The tokens as the grammar sees them.
pub open spec fn toks_of(s: Seq<TokenAndSpan>) -> Seq<Tok> {
    s.map_values(|t: TokenAndSpan| t@)
}

} // verus!
