use rac::parser::token::{Token, TokenKind};
use rac::parser::tokeniter::TokenIter;

fn lex(src: &str) -> Vec<Token> {
    let b = src.as_bytes();
    let mut ts = TokenIter::new(b, b.len(), 0);
    ts.tokens()
}

fn kinds(src: &str) -> Vec<TokenKind> {
    lex(src).iter().map(|t| t.kind).collect()
}

#[test]
fn test_tokeniter() {
    let src = "
        abstract class Char
        case class MkChar(code: Int(32)) extends Char

        // A comment
        // A comment
        // 
        // A comment

        abstract class CharList

        /* a multiline comment
                hasdhasd
    ";
    assert_eq!(
        kinds(src),
        vec![
            TokenKind::KwAbstract, TokenKind::KwClass, TokenKind::Identifier, TokenKind::KwCase, TokenKind::KwClass, TokenKind::Identifier, TokenKind::OpenParen, TokenKind::Identifier,
            TokenKind::Colon, TokenKind::TypInt, TokenKind::OpenParen, TokenKind::LitInt, TokenKind::CloseParen, TokenKind::CloseParen, TokenKind::KwExtends, TokenKind::Identifier,
            TokenKind::KwAbstract, TokenKind::KwClass, TokenKind::Identifier, TokenKind::UnclosedComment,
        ]
    );
}

#[test]
fn operators_and_delimiters() {
    assert_eq!(
        kinds("&& || == <= < + - ++ * / % ! => := = : , . ; ( ) { } [ ] _ ?"),
        vec![
            TokenKind::AndAnd, TokenKind::PipePipe, TokenKind::EqualEqual, TokenKind::LessEquals, TokenKind::Less, TokenKind::Plus, TokenKind::Minus, TokenKind::PlusPlus, TokenKind::Star, TokenKind::Slash,
            TokenKind::Percent, TokenKind::Bang, TokenKind::RightArrow, TokenKind::ColonEqual, TokenKind::Equal, TokenKind::Colon, TokenKind::Comma, TokenKind::Dot, TokenKind::Semicolon, TokenKind::OpenParen,
            TokenKind::CloseParen, TokenKind::OpenCurly, TokenKind::CloseCurly, TokenKind::OpenBracket, TokenKind::CloseBracket, TokenKind::Underscore, TokenKind::Unknown,
        ]
    );
}

#[test]
fn keywords_types_and_literals() {
    assert_eq!(
        kinds("object def val if then else match case end error extends String Boolean Unit true false 42 \"hi\" foo"),
        vec![
            TokenKind::KwObject, TokenKind::KwDef, TokenKind::KwVal, TokenKind::KwIf, TokenKind::KwThen, TokenKind::KwElse, TokenKind::KwMatch, TokenKind::KwCase, TokenKind::KwEnd, TokenKind::KwError,
            TokenKind::KwExtends, TokenKind::TypString, TokenKind::TypBoolean, TokenKind::TypUnit, TokenKind::LitTrue, TokenKind::LitFalse, TokenKind::LitInt, TokenKind::LitString,
            TokenKind::Identifier,
        ]
    );
}

#[test]
fn token_ranges_and_tags() {
    let b = "val xy = 12".as_bytes();
    let mut ts = TokenIter::new(b, b.len(), 7);
    let ranges: Vec<(usize, usize, u8)> =
        ts.tokens().iter().map(|t| (t.range.start, t.range.end, t.range.tag)).collect();
    assert_eq!(ranges, vec![(0, 3, 7), (4, 6, 7), (7, 8, 7), (9, 11, 7)]);
    let eof = ts.pop();
    assert_eq!(eof.kind, TokenKind::Eof);
    assert_eq!((eof.range.start, eof.range.end), (11, 11));
}

#[test]
fn comments_are_skipped() {
    assert_eq!(kinds("a // b c\n/* d\ne */ f"), vec![TokenKind::Identifier, TokenKind::Identifier]);
    assert_eq!(kinds(""), Vec::<TokenKind>::new());
}

#[test]
fn peek_then_pop_gives_the_same_token() {
    let b = "x + 1".as_bytes();
    let mut ts = TokenIter::new(b, b.len(), 0);
    let p1 = ts.peek();
    let p2 = ts.peek();
    assert_eq!(p1, p2);
    let t = ts.pop();
    assert_eq!(p1, t);
    assert_eq!(ts.pop().kind, TokenKind::Plus);
    ts.consume();
    assert_eq!(ts.pop().kind, TokenKind::Eof);
    assert_eq!(ts.pop().kind, TokenKind::Eof);
}

#[test]
fn limit_cuts_the_input() {
    let b = "abc def".as_bytes();
    let mut ts = TokenIter::new(b, 3, 0);
    let toks = ts.tokens();
    assert_eq!(toks.len(), 1);
    assert_eq!((toks[0].range.start, toks[0].range.end), (0, 3));
}

#[test]
fn kind_descriptions_and_names() {
    assert_eq!(TokenKind::Plus.describe(), "an operator");
    assert_eq!(TokenKind::Identifier.describe(), "an identifier");
    assert_eq!(TokenKind::Eof.describe(), "the end of file");
    assert_eq!(TokenKind::CloseParen.describe(), "an closing parenthesis");
    assert_eq!(TokenKind::KwMatch.describe(), "the `match` keyword");
    assert_eq!(TokenKind::Equal.describe(), "an assignment operator");
    assert_eq!(TokenKind::PlusPlus.name(), "PlusPlus");
    assert_eq!(TokenKind::KwEnd.name(), "KwEnd");
}

#[test]
fn tokens_come_in_source_order() {
    let src = "object Main\n  def f(x: Int(32)): String := \"a b\" ++ \"c\" end f\n  /* c */ f(1) // d\nend Main";
    let toks = lex(src);
    assert!(!toks.is_empty());
    for w in toks.windows(2) {
        assert!(w[0].range.end <= w[1].range.start);
    }
    for t in toks.iter() {
        assert!(t.range.start < t.range.end && t.range.end <= src.len());
        assert_ne!(t.kind, TokenKind::Eof);
    }
}
