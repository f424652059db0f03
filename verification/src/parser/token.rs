//! Tokens of the Amy language.
use std::ops::Range;
use vstd::prelude::*;
use crate::diagnostics::Span;

verus! {

/// The kinds of tokens.
#[derive(Clone, Copy, Debug, PartialEq, Eq, Structural)]
pub enum TokenKind {
    // Identifiers
    Identifier,
    // Delimiters
    AndAnd,
    Bang,
    CloseBracket,
    CloseCurly,
    CloseParen,
    Colon,
    ColonEqual,
    Comma,
    Dot,
    Equal,
    EqualEqual,
    LessEquals,
    Less,
    Minus,
    OpenBracket,
    OpenCurly,
    OpenParen,
    Percent,
    PipePipe,
    Plus,
    PlusPlus,
    Semicolon,
    Slash,
    Star,
    RightArrow,
    // Primitive types
    TypString,
    TypInt,
    TypBoolean,
    TypUnit,
    // Boolean literals
    LitTrue,
    LitFalse,
    // Integer and string literals
    LitInt,
    LitString,
    // Keywords
    KwAbstract,
    KwCase,
    KwClass,
    KwDef,
    KwExtends,
    KwIf,
    KwThen,
    KwElse,
    KwMatch,
    KwObject,
    KwVal,
    KwError,
    KwEnd,
    // Misc
    Unknown,
    UnclosedComment,
    Eof,
    Underscore,
}

/// The name of a token kind, as its variant is written.
#[verifier::opaque]
pub open spec fn kind_name(k: TokenKind) -> Seq<char> {
    match k {
        TokenKind::Identifier => "Identifier"@,
        TokenKind::AndAnd => "AndAnd"@,
        TokenKind::Bang => "Bang"@,
        TokenKind::CloseBracket => "CloseBracket"@,
        TokenKind::CloseCurly => "CloseCurly"@,
        TokenKind::CloseParen => "CloseParen"@,
        TokenKind::Colon => "Colon"@,
        TokenKind::ColonEqual => "ColonEqual"@,
        TokenKind::Comma => "Comma"@,
        TokenKind::Dot => "Dot"@,
        TokenKind::Equal => "Equal"@,
        TokenKind::EqualEqual => "EqualEqual"@,
        TokenKind::LessEquals => "LessEquals"@,
        TokenKind::Less => "Less"@,
        TokenKind::Minus => "Minus"@,
        TokenKind::OpenBracket => "OpenBracket"@,
        TokenKind::OpenCurly => "OpenCurly"@,
        TokenKind::OpenParen => "OpenParen"@,
        TokenKind::Percent => "Percent"@,
        TokenKind::PipePipe => "PipePipe"@,
        TokenKind::Plus => "Plus"@,
        TokenKind::PlusPlus => "PlusPlus"@,
        TokenKind::Semicolon => "Semicolon"@,
        TokenKind::Slash => "Slash"@,
        TokenKind::Star => "Star"@,
        TokenKind::RightArrow => "RightArrow"@,
        TokenKind::TypString => "TypString"@,
        TokenKind::TypInt => "TypInt"@,
        TokenKind::TypBoolean => "TypBoolean"@,
        TokenKind::TypUnit => "TypUnit"@,
        TokenKind::LitTrue => "LitTrue"@,
        TokenKind::LitFalse => "LitFalse"@,
        TokenKind::LitInt => "LitInt"@,
        TokenKind::LitString => "LitString"@,
        TokenKind::KwAbstract => "KwAbstract"@,
        TokenKind::KwCase => "KwCase"@,
        TokenKind::KwClass => "KwClass"@,
        TokenKind::KwDef => "KwDef"@,
        TokenKind::KwExtends => "KwExtends"@,
        TokenKind::KwIf => "KwIf"@,
        TokenKind::KwThen => "KwThen"@,
        TokenKind::KwElse => "KwElse"@,
        TokenKind::KwMatch => "KwMatch"@,
        TokenKind::KwObject => "KwObject"@,
        TokenKind::KwVal => "KwVal"@,
        TokenKind::KwError => "KwError"@,
        TokenKind::KwEnd => "KwEnd"@,
        TokenKind::Unknown => "Unknown"@,
        TokenKind::UnclosedComment => "UnclosedComment"@,
        TokenKind::Eof => "Eof"@,
        TokenKind::Underscore => "Underscore"@,
    }
}

impl TokenKind {
    /// The name of this kind (see `kind_name`).
    pub fn name(&self) -> (s: String)
        ensures
            s@ == kind_name(*self),
    {
        proof {
            reveal(kind_name);
        }
        match self {
            TokenKind::Identifier => "Identifier".to_owned(),
            TokenKind::AndAnd => "AndAnd".to_owned(),
            TokenKind::Bang => "Bang".to_owned(),
            TokenKind::CloseBracket => "CloseBracket".to_owned(),
            TokenKind::CloseCurly => "CloseCurly".to_owned(),
            TokenKind::CloseParen => "CloseParen".to_owned(),
            TokenKind::Colon => "Colon".to_owned(),
            TokenKind::ColonEqual => "ColonEqual".to_owned(),
            TokenKind::Comma => "Comma".to_owned(),
            TokenKind::Dot => "Dot".to_owned(),
            TokenKind::Equal => "Equal".to_owned(),
            TokenKind::EqualEqual => "EqualEqual".to_owned(),
            TokenKind::LessEquals => "LessEquals".to_owned(),
            TokenKind::Less => "Less".to_owned(),
            TokenKind::Minus => "Minus".to_owned(),
            TokenKind::OpenBracket => "OpenBracket".to_owned(),
            TokenKind::OpenCurly => "OpenCurly".to_owned(),
            TokenKind::OpenParen => "OpenParen".to_owned(),
            TokenKind::Percent => "Percent".to_owned(),
            TokenKind::PipePipe => "PipePipe".to_owned(),
            TokenKind::Plus => "Plus".to_owned(),
            TokenKind::PlusPlus => "PlusPlus".to_owned(),
            TokenKind::Semicolon => "Semicolon".to_owned(),
            TokenKind::Slash => "Slash".to_owned(),
            TokenKind::Star => "Star".to_owned(),
            TokenKind::RightArrow => "RightArrow".to_owned(),
            TokenKind::TypString => "TypString".to_owned(),
            TokenKind::TypInt => "TypInt".to_owned(),
            TokenKind::TypBoolean => "TypBoolean".to_owned(),
            TokenKind::TypUnit => "TypUnit".to_owned(),
            TokenKind::LitTrue => "LitTrue".to_owned(),
            TokenKind::LitFalse => "LitFalse".to_owned(),
            TokenKind::LitInt => "LitInt".to_owned(),
            TokenKind::LitString => "LitString".to_owned(),
            TokenKind::KwAbstract => "KwAbstract".to_owned(),
            TokenKind::KwCase => "KwCase".to_owned(),
            TokenKind::KwClass => "KwClass".to_owned(),
            TokenKind::KwDef => "KwDef".to_owned(),
            TokenKind::KwExtends => "KwExtends".to_owned(),
            TokenKind::KwIf => "KwIf".to_owned(),
            TokenKind::KwThen => "KwThen".to_owned(),
            TokenKind::KwElse => "KwElse".to_owned(),
            TokenKind::KwMatch => "KwMatch".to_owned(),
            TokenKind::KwObject => "KwObject".to_owned(),
            TokenKind::KwVal => "KwVal".to_owned(),
            TokenKind::KwError => "KwError".to_owned(),
            TokenKind::KwEnd => "KwEnd".to_owned(),
            TokenKind::Unknown => "Unknown".to_owned(),
            TokenKind::UnclosedComment => "UnclosedComment".to_owned(),
            TokenKind::Eof => "Eof".to_owned(),
            TokenKind::Underscore => "Underscore".to_owned(),
        }
    }
}

/// How a token kind is described to a reader of a diagnostic.
#[verifier::opaque]
pub open spec fn kind_text(k: TokenKind) -> Seq<char> {
    match k {
        TokenKind::Identifier => "an identifier"@,
        TokenKind::Semicolon => "a sequence delimiter"@,
        TokenKind::RightArrow => "the `=>` operator"@,
        TokenKind::AndAnd | TokenKind::EqualEqual | TokenKind::Slash | TokenKind::Star | TokenKind::LessEquals | TokenKind::Less | TokenKind::Minus | TokenKind::Plus | TokenKind::Percent | TokenKind::PipePipe | TokenKind::PlusPlus | TokenKind::Bang => "an operator"@,
        TokenKind::OpenCurly => "an opening curly brace"@,
        TokenKind::OpenParen => "an opening parenthesis"@,
        TokenKind::OpenBracket => "an opening bracket"@,
        TokenKind::CloseCurly => "an closing curly brace"@,
        TokenKind::CloseParen => "an closing parenthesis"@,
        TokenKind::CloseBracket => "an closing bracket"@,
        TokenKind::Colon | TokenKind::Comma | TokenKind::Dot => "a separator"@,
        TokenKind::ColonEqual | TokenKind::Equal => "an assignment operator"@,
        TokenKind::TypInt | TokenKind::TypUnit | TokenKind::TypString | TokenKind::TypBoolean => "a primitive type"@,
        TokenKind::LitTrue | TokenKind::LitFalse | TokenKind::LitInt | TokenKind::LitString => "a literal value"@,
        TokenKind::KwAbstract => "the `abstract` keyword"@,
        TokenKind::KwCase => "the `case` keyword"@,
        TokenKind::KwClass => "the `class` keyword"@,
        TokenKind::KwDef => "the `def` keyword"@,
        TokenKind::KwExtends => "the `extends` keyword"@,
        TokenKind::KwIf => "the `if` keyword"@,
        TokenKind::KwThen => "the `then` keyword"@,
        TokenKind::KwElse => "the `else` keyword"@,
        TokenKind::KwMatch => "the `match` keyword"@,
        TokenKind::KwObject => "the `object` keyword"@,
        TokenKind::KwVal => "the `val` keyword"@,
        TokenKind::KwError => "the `error` keyword"@,
        TokenKind::KwEnd => "the `end` keyword"@,
        TokenKind::UnclosedComment => "an unclosed multiline comment"@,
        TokenKind::Underscore => "a wildcard"@,
        TokenKind::Unknown => "an unknown comment"@,
        TokenKind::Eof => "the end of file"@,
    }
}

impl TokenKind {
    /// The description of this kind (see `kind_text`).
    pub fn describe(&self) -> (s: &'static str)
        ensures
            s@ == kind_text(*self),
    {
        proof {
            reveal(kind_text);
            reveal_strlit("an identifier");
            reveal_strlit("a sequence delimiter");
            reveal_strlit("the `=>` operator");
            reveal_strlit("an operator");
            reveal_strlit("an opening curly brace");
            reveal_strlit("an opening parenthesis");
            reveal_strlit("an opening bracket");
            reveal_strlit("an closing curly brace");
            reveal_strlit("an closing parenthesis");
            reveal_strlit("an closing bracket");
            reveal_strlit("a separator");
            reveal_strlit("an assignment operator");
            reveal_strlit("a primitive type");
            reveal_strlit("a literal value");
            reveal_strlit("the `abstract` keyword");
            reveal_strlit("the `case` keyword");
            reveal_strlit("the `class` keyword");
            reveal_strlit("the `def` keyword");
            reveal_strlit("the `extends` keyword");
            reveal_strlit("the `if` keyword");
            reveal_strlit("the `then` keyword");
            reveal_strlit("the `else` keyword");
            reveal_strlit("the `match` keyword");
            reveal_strlit("the `object` keyword");
            reveal_strlit("the `val` keyword");
            reveal_strlit("the `error` keyword");
            reveal_strlit("the `end` keyword");
            reveal_strlit("an unclosed multiline comment");
            reveal_strlit("a wildcard");
            reveal_strlit("an unknown comment");
            reveal_strlit("the end of file");
        }
        match self {
            TokenKind::Identifier => "an identifier",
            TokenKind::Semicolon => "a sequence delimiter",
            TokenKind::RightArrow => "the `=>` operator",
            TokenKind::AndAnd | TokenKind::EqualEqual | TokenKind::Slash | TokenKind::Star | TokenKind::LessEquals | TokenKind::Less | TokenKind::Minus | TokenKind::Plus | TokenKind::Percent | TokenKind::PipePipe | TokenKind::PlusPlus | TokenKind::Bang => "an operator",
            TokenKind::OpenCurly => "an opening curly brace",
            TokenKind::OpenParen => "an opening parenthesis",
            TokenKind::OpenBracket => "an opening bracket",
            TokenKind::CloseCurly => "an closing curly brace",
            TokenKind::CloseParen => "an closing parenthesis",
            TokenKind::CloseBracket => "an closing bracket",
            TokenKind::Colon | TokenKind::Comma | TokenKind::Dot => "a separator",
            TokenKind::ColonEqual | TokenKind::Equal => "an assignment operator",
            TokenKind::TypInt | TokenKind::TypUnit | TokenKind::TypString | TokenKind::TypBoolean => "a primitive type",
            TokenKind::LitTrue | TokenKind::LitFalse | TokenKind::LitInt | TokenKind::LitString => "a literal value",
            TokenKind::KwAbstract => "the `abstract` keyword",
            TokenKind::KwCase => "the `case` keyword",
            TokenKind::KwClass => "the `class` keyword",
            TokenKind::KwDef => "the `def` keyword",
            TokenKind::KwExtends => "the `extends` keyword",
            TokenKind::KwIf => "the `if` keyword",
            TokenKind::KwThen => "the `then` keyword",
            TokenKind::KwElse => "the `else` keyword",
            TokenKind::KwMatch => "the `match` keyword",
            TokenKind::KwObject => "the `object` keyword",
            TokenKind::KwVal => "the `val` keyword",
            TokenKind::KwError => "the `error` keyword",
            TokenKind::KwEnd => "the `end` keyword",
            TokenKind::UnclosedComment => "an unclosed multiline comment",
            TokenKind::Underscore => "a wildcard",
            TokenKind::Unknown => "an unknown comment",
            TokenKind::Eof => "the end of file",
        }
    }
}

/// A token: its kind and the bytes it covers.
#[derive(Clone, Copy, Debug, PartialEq, Eq, Structural)]
pub struct Token {
    pub kind: TokenKind,
    pub range: Span,
}

impl Token {
    pub fn new(kind: TokenKind, range: Range<usize>, tag: u8) -> (t: Self)
        ensures
            t == (Token { kind, range: Span { start: range.start, end: range.end, tag } }),
    {
        Self { kind, range: Span { start: range.start, end: range.end, tag } }
    }
}

} // verus!
