//! From source text to tokens.
use zts_parser::lexer::{fits, lex};
use zts_parser::token::Token;

/// The kinds and the texts of the tokens, without the end of the text.
fn pieces(src: &str, zts: bool) -> Vec<(Token, String)> {
    let v = lex(src, zts);
    let (last, rest) = v.split_last().unwrap();
    assert_eq!(last.token, Token::Eof);
    rest.iter().map(|t| (t.token, t.text.to_string())).collect()
}

fn kinds(src: &str, zts: bool) -> Vec<Token> {
    pieces(src, zts).into_iter().map(|p| p.0).collect()
}

#[test]
fn words_are_told_apart() {
    assert_eq!(
        kinds("match not newtype _ $x null true false as of if", true),
        vec![
            Token::Ident,
            Token::Ident,
            Token::Ident,
            Token::Ident,
            Token::Ident,
            Token::Null,
            Token::True,
            Token::False,
            Token::As,
            Token::Of,
            Token::If,
        ]
    );
    assert_eq!(pieces("iffy", true), vec![(Token::Ident, "iffy".to_string())]);
}

#[test]
fn numbers_keep_their_text() {
    for (src, kind) in [
        ("0", Token::Num),
        ("404", Token::Num),
        ("1_000", Token::Num),
        ("1.5", Token::Num),
        ("1.", Token::Num),
        (".5", Token::Num),
        ("1e9", Token::Num),
        ("1.5e-9", Token::Num),
        ("0xFf", Token::Num),
        ("0b101", Token::Num),
        ("0o17", Token::Num),
        ("10n", Token::BigInt),
        ("0xFn", Token::BigInt),
    ] {
        assert_eq!(pieces(src, true), vec![(kind, src.to_string())], "{src}");
    }
}

#[test]
fn malformed_numbers_are_no_tokens() {
    assert_eq!(kinds("3px", true)[0], Token::Error);
    assert_eq!(kinds("0x", true)[0], Token::Error);
    assert_eq!(kinds("0b2", true)[0], Token::Error);
    assert_eq!(kinds("1e+", true)[0], Token::Error);
}

#[test]
fn strings_keep_their_quotes() {
    assert_eq!(
        pieces(r#""a" 'b\'c' "d\\""#, true),
        vec![
            (Token::Str, r#""a""#.to_string()),
            (Token::Str, r"'b\'c'".to_string()),
            (Token::Str, r#""d\\""#.to_string()),
        ]
    );
    assert_eq!(kinds("\"open", true)[0], Token::Error);
    assert_eq!(kinds("'a\nb'", true)[0], Token::Error);
    assert_eq!(kinds("'\\", true)[0], Token::Error);
}

#[test]
fn the_longest_punctuation_is_taken() {
    assert_eq!(
        kinds("=== == => = !== != ! ** *= * >>> >> >= > ?? ? ... .", true),
        vec![
            Token::EqEqEq,
            Token::EqEq,
            Token::Arrow,
            Token::Eq,
            Token::NotEqEq,
            Token::NotEq,
            Token::Bang,
            Token::Exp,
            Token::MulEq,
            Token::Asterisk,
            Token::ZeroFillRShift,
            Token::RShift,
            Token::GtEq,
            Token::Gt,
            Token::NullishCoalescing,
            Token::Question,
            Token::DotDotDot,
            Token::Dot,
        ]
    );
    assert_eq!(
        kinds("(){}[],;:+ - ++ -- += -= / /= % %= & && | || ^ ~ < <= <<", true),
        vec![
            Token::LParen,
            Token::RParen,
            Token::LBrace,
            Token::RBrace,
            Token::LBracket,
            Token::RBracket,
            Token::Comma,
            Token::Semi,
            Token::Colon,
            Token::Plus,
            Token::Minus,
            Token::PlusPlus,
            Token::MinusMinus,
            Token::PlusEq,
            Token::MinusEq,
            Token::Slash,
            Token::DivEq,
            Token::Percent,
            Token::ModEq,
            Token::Ampersand,
            Token::LogicalAnd,
            Token::Pipe,
            Token::LogicalOr,
            Token::Caret,
            Token::Tilde,
            Token::Lt,
            Token::LtEq,
            Token::LShift,
        ]
    );
    assert_eq!(kinds("@", true), vec![Token::Error]);
}

#[test]
fn the_range_token_is_one_of_zts() {
    assert_eq!(kinds("1..=3", true), vec![Token::Num, Token::DotDotEq, Token::Num]);
    assert_eq!(
        pieces("1..=3", false),
        vec![
            (Token::Num, "1.".to_string()),
            (Token::Dot, ".".to_string()),
            (Token::Eq, "=".to_string()),
            (Token::Num, "3".to_string()),
        ]
    );
    assert_eq!(kinds("a..=b", true), vec![Token::Ident, Token::DotDotEq, Token::Ident]);
    assert_eq!(
        kinds("a..=b", false),
        vec![Token::Ident, Token::Dot, Token::Dot, Token::Eq, Token::Ident]
    );
}

#[test]
fn comments_are_skipped() {
    assert_eq!(kinds("a // b\nc /* d */ e", true), vec![Token::Ident; 3]);
    let v = lex("a /* x\n y */ b // z\nc d", true);
    let breaks: Vec<bool> = v.iter().map(|t| t.had_line_break).collect();
    assert_eq!(breaks, vec![false, true, true, false, false]);
    // A comment that is not closed is none.
    assert_eq!(kinds("a /* b", true)[1], Token::Slash);
}

#[test]
fn positions_count_bytes_from_one() {
    let v = lex("é \u{10348}=x", true);
    let spans: Vec<(u32, u32)> = v.iter().map(|t| (t.span.lo.0, t.span.hi.0)).collect();
    assert_eq!(spans, vec![(1, 3), (4, 8), (8, 9), (9, 10), (10, 10)]);
}

#[test]
fn templates_are_cut_at_their_substitutions() {
    assert_eq!(
        pieces("`a\nb\\`c`", true),
        vec![(Token::NoSubstitutionTemplate, "`a\nb\\`c`".to_string())]
    );
    assert_eq!(
        pieces("`a${ { b: `c${d}` } }e${f}`", true),
        vec![
            (Token::TemplateHead, "`a${".to_string()),
            (Token::LBrace, "{".to_string()),
            (Token::Ident, "b".to_string()),
            (Token::Colon, ":".to_string()),
            (Token::TemplateHead, "`c${".to_string()),
            (Token::Ident, "d".to_string()),
            (Token::TemplateTail, "}`".to_string()),
            (Token::RBrace, "}".to_string()),
            (Token::TemplateMiddle, "}e${".to_string()),
            (Token::Ident, "f".to_string()),
            (Token::TemplateTail, "}`".to_string()),
        ]
    );
    assert_eq!(kinds("`open", true)[0], Token::Error);
    assert_eq!(kinds("`a${b} open", true)[2], Token::Error);
    // A dollar sign alone is text, and a brace that closes nothing is a brace.
    assert_eq!(kinds("`$ {`", true), vec![Token::NoSubstitutionTemplate]);
    assert_eq!(kinds("}", true), vec![Token::RBrace]);
}

#[test]
fn short_texts_fit() {
    assert!(fits(""));
    assert!(fits("const é = 1;"));
}

#[test]
fn an_empty_text_has_one_token() {
    let v = lex("", true);
    assert_eq!(v.len(), 1);
    assert_eq!(v[0].token, Token::Eof);
    assert_eq!((v[0].span.lo.0, v[0].span.hi.0), (1, 1));
    assert_eq!(v[0].text.to_string(), "");
}
