//! The lexer and the token iterator (one token of look-ahead).
use vstd::prelude::*;
use crate::parser::token::{Token, TokenKind};
use crate::diagnostics::Span;

verus! {

// ---------------------------------------------------------------------------------------------
// Character classes
// ---------------------------------------------------------------------------------------------

/// ASCII whitespace: space, tab, line feed, form feed, carriage return.
pub open spec fn spec_is_ws(c: u8) -> bool {
    c == 32 || c == 9 || c == 10 || c == 12 || c == 13
}

pub open spec fn spec_is_alpha(c: u8) -> bool {
    (65 <= c <= 90) || (97 <= c <= 122)
}

pub open spec fn spec_is_digit(c: u8) -> bool {
    48 <= c <= 57
}

/// A byte that may start an identifier.
pub open spec fn spec_is_id_start(c: u8) -> bool {
    spec_is_alpha(c)
}

/// A byte that may continue an identifier.
pub open spec fn spec_is_id_continue(c: u8) -> bool {
    spec_is_alpha(c) || spec_is_digit(c) || c == 95
}

fn is_ws(c: u8) -> (b: bool)
    ensures
        b == spec_is_ws(c),
{
    c == 32 || c == 9 || c == 10 || c == 12 || c == 13
}

fn is_digit(c: u8) -> (b: bool)
    ensures
        b == spec_is_digit(c),
{
    48 <= c && c <= 57
}

fn is_id_start(c: u8) -> (b: bool)
    ensures
        b == spec_is_id_start(c),
{
    (65 <= c && c <= 90) || (97 <= c && c <= 122)
}

fn is_id_continue(c: u8) -> (b: bool)
    ensures
        b == spec_is_id_continue(c),
{
    (65 <= c && c <= 90) || (97 <= c && c <= 122) || (48 <= c && c <= 57) || c == 95
}

// ---------------------------------------------------------------------------------------------
// Scanning helpers: each gives the first index at or after `i` (and before `limit`)
// where the scanned construct stops, or `limit`.
// ---------------------------------------------------------------------------------------------

/// End of an identifier-like word whose continuation starts at `i`.
pub open spec fn ident_end(src: Seq<u8>, limit: int, i: int) -> int
    decreases limit - i,
{
    if i < limit && spec_is_id_continue(src[i]) {
        ident_end(src, limit, i + 1)
    } else {
        i
    }
}

/// End of a run of decimal digits from `i`.
pub open spec fn digits_end(src: Seq<u8>, limit: int, i: int) -> int
    decreases limit - i,
{
    if i < limit && spec_is_digit(src[i]) {
        digits_end(src, limit, i + 1)
    } else {
        i
    }
}

/// The first line feed at or after `i`, or `limit`.
pub open spec fn line_end(src: Seq<u8>, limit: int, i: int) -> int
    decreases limit - i,
{
    if i < limit && src[i] != 10 {
        line_end(src, limit, i + 1)
    } else {
        i
    }
}

/// The first `i' >= i` with `src[i' - 1] == '*'` and `src[i'] == '/'`, or `limit`.
pub open spec fn block_end(src: Seq<u8>, limit: int, i: int) -> int
    decreases limit - i,
{
    if i < limit && (src[i - 1] != 42 || src[i] != 47) {
        block_end(src, limit, i + 1)
    } else {
        i
    }
}

/// The first double quote at or after `i`, or `limit`.
pub open spec fn quote_end(src: Seq<u8>, limit: int, i: int) -> int
    decreases limit - i,
{
    if i < limit && src[i] != 34 {
        quote_end(src, limit, i + 1)
    } else {
        i
    }
}

pub proof fn lemma_ident_end(src: Seq<u8>, limit: int, i: int)
    ensures
        i <= ident_end(src, limit, i),
        i <= limit ==> ident_end(src, limit, i) <= limit,
    decreases limit - i,
{
    if i < limit && spec_is_id_continue(src[i]) {
        lemma_ident_end(src, limit, i + 1);
    }
}

pub proof fn lemma_digits_end(src: Seq<u8>, limit: int, i: int)
    ensures
        i <= digits_end(src, limit, i),
        i <= limit ==> digits_end(src, limit, i) <= limit,
    decreases limit - i,
{
    if i < limit && spec_is_digit(src[i]) {
        lemma_digits_end(src, limit, i + 1);
    }
}

pub proof fn lemma_line_end(src: Seq<u8>, limit: int, i: int)
    ensures
        i <= line_end(src, limit, i),
        i <= limit ==> line_end(src, limit, i) <= limit,
    decreases limit - i,
{
    if i < limit && src[i] != 10 {
        lemma_line_end(src, limit, i + 1);
    }
}

pub proof fn lemma_block_end(src: Seq<u8>, limit: int, i: int)
    ensures
        i <= block_end(src, limit, i),
        i <= limit ==> block_end(src, limit, i) <= limit,
        i > limit ==> block_end(src, limit, i) == i,
    decreases limit - i,
{
    if i < limit && (src[i - 1] != 42 || src[i] != 47) {
        lemma_block_end(src, limit, i + 1);
    }
}

pub proof fn lemma_quote_end(src: Seq<u8>, limit: int, i: int)
    ensures
        i <= quote_end(src, limit, i),
        i <= limit ==> quote_end(src, limit, i) <= limit,
    decreases limit - i,
{
    if i < limit && src[i] != 34 {
        lemma_quote_end(src, limit, i + 1);
    }
}

/// The kind of a maximal identifier-like word: a keyword, a primitive type, a boolean
/// literal, or else an identifier.
pub open spec fn keyword_kind(w: Seq<u8>) -> TokenKind {
    if w =~= seq![97u8, 98u8, 115u8, 116u8, 114u8, 97u8, 99u8, 116u8] {
        TokenKind::KwAbstract
    } else if w =~= seq![99u8, 97u8, 115u8, 101u8] {
        TokenKind::KwCase
    } else if w =~= seq![99u8, 108u8, 97u8, 115u8, 115u8] {
        TokenKind::KwClass
    } else if w =~= seq![100u8, 101u8, 102u8] {
        TokenKind::KwDef
    } else if w =~= seq![101u8, 108u8, 115u8, 101u8] {
        TokenKind::KwElse
    } else if w =~= seq![101u8, 120u8, 116u8, 101u8, 110u8, 100u8, 115u8] {
        TokenKind::KwExtends
    } else if w =~= seq![105u8, 102u8] {
        TokenKind::KwIf
    } else if w =~= seq![116u8, 104u8, 101u8, 110u8] {
        TokenKind::KwThen
    } else if w =~= seq![109u8, 97u8, 116u8, 99u8, 104u8] {
        TokenKind::KwMatch
    } else if w =~= seq![111u8, 98u8, 106u8, 101u8, 99u8, 116u8] {
        TokenKind::KwObject
    } else if w =~= seq![118u8, 97u8, 108u8] {
        TokenKind::KwVal
    } else if w =~= seq![101u8, 114u8, 114u8, 111u8, 114u8] {
        TokenKind::KwError
    } else if w =~= seq![101u8, 110u8, 100u8] {
        TokenKind::KwEnd
    } else if w =~= seq![95u8] {
        TokenKind::Underscore
    } else if w =~= seq![83u8, 116u8, 114u8, 105u8, 110u8, 103u8] {
        TokenKind::TypString
    } else if w =~= seq![73u8, 110u8, 116u8] {
        TokenKind::TypInt
    } else if w =~= seq![66u8, 111u8, 111u8, 108u8, 101u8, 97u8, 110u8] {
        TokenKind::TypBoolean
    } else if w =~= seq![85u8, 110u8, 105u8, 116u8] {
        TokenKind::TypUnit
    } else if w =~= seq![116u8, 114u8, 117u8, 101u8] {
        TokenKind::LitTrue
    } else if w =~= seq![102u8, 97u8, 108u8, 115u8, 101u8] {
        TokenKind::LitFalse
    } else {
        TokenKind::Identifier
    }
}

/// An ASCII letter.
pub open spec fn ascii_letter(c: u8) -> bool {
    (97u8 <= c && c <= 122u8) || (65u8 <= c && c <= 90u8)
}

/// An ASCII decimal digit.
pub open spec fn ascii_digit(c: u8) -> bool {
    48u8 <= c && c <= 57u8
}

/// A byte that may appear in a word after its first letter: a letter, a digit or `_`.
pub open spec fn word_byte(c: u8) -> bool {
    ascii_letter(c) || ascii_digit(c) || c == 95u8
}

proof fn lemma_ident_run(src: Seq<u8>, limit: int, i: int)
    requires
        0 <= i <= limit <= src.len(),
    ensures
        i <= ident_end(src, limit, i) <= limit,
        forall|j: int| i <= j < ident_end(src, limit, i) ==> word_byte(#[trigger] src[j]),
        ident_end(src, limit, i) == limit || !word_byte(src[ident_end(src, limit, i)]),
    decreases limit - i,
{
    if i < limit && spec_is_id_continue(src[i]) {
        lemma_ident_run(src, limit, i + 1);
    }
}

proof fn lemma_digits_run(src: Seq<u8>, limit: int, i: int)
    requires
        0 <= i <= limit <= src.len(),
    ensures
        i <= digits_end(src, limit, i) <= limit,
        forall|j: int| i <= j < digits_end(src, limit, i) ==> ascii_digit(#[trigger] src[j]),
        digits_end(src, limit, i) == limit || !ascii_digit(src[digits_end(src, limit, i)]),
    decreases limit - i,
{
    if i < limit && spec_is_digit(src[i]) {
        lemma_digits_run(src, limit, i + 1);
    }
}

/// Words are read whole: from a letter, the token is the longest run of letters, digits and
/// `_`; from a digit,
/// it is the longest run of digits, an integer literal; whitespace before a token is skipped.
pub proof fn law_lex_words(src: Seq<u8>, limit: int, start: int, tag: u8)
    requires
        0 <= start < limit <= src.len(),
        limit + 3 <= usize::MAX,
    ensures
        ascii_letter(src[start]) ==> {
            let t = spec_lex(src, limit, start, tag);
            &&& t.range.start == start
            &&& start < t.range.end <= limit
            &&& forall|j: int| start <= j < t.range.end ==> word_byte(#[trigger] src[j])
            &&& (t.range.end == limit || !word_byte(src[t.range.end as int]))
        },
        ascii_digit(src[start]) ==> {
            let t = spec_lex(src, limit, start, tag);
            &&& t.kind == TokenKind::LitInt
            &&& t.range.start == start
            &&& start < t.range.end <= limit
            &&& forall|j: int| start <= j < t.range.end ==> ascii_digit(#[trigger] src[j])
            &&& (t.range.end == limit || !ascii_digit(src[t.range.end as int]))
        },
        (src[start] == 32u8 || src[start] == 9u8 || src[start] == 10u8 || src[start] == 13u8)
            ==> spec_lex(src, limit, start, tag) == spec_lex(src, limit, start + 1, tag),
{
    if ascii_letter(src[start]) {
        lemma_ident_run(src, limit, start + 1);
        assert(word_byte(src[start]));
        let e = ident_end(src, limit, start + 1);
        assert(spec_is_id_start(src[start]));
        assert(spec_lex(src, limit, start, tag) == tok(keyword_kind(src.subrange(start, e)), start, e, tag));
        assert forall|j: int| start <= j < e implies word_byte(#[trigger] src[j]) by {
            if j > start {
                assert(start + 1 <= j < e);
            }
        }
    }
    if ascii_digit(src[start]) {
        lemma_digits_run(src, limit, start + 1);
        let e = digits_end(src, limit, start + 1);
        assert(!spec_is_ws(src[start]) && !spec_is_id_start(src[start]) && spec_is_digit(src[start]));
        assert(spec_lex(src, limit, start, tag) == tok(TokenKind::LitInt, start, e, tag));
        assert forall|j: int| start <= j < e implies ascii_digit(#[trigger] src[j]) by {
            if j > start {
                assert(start + 1 <= j < e);
            }
        }
    }
}

/// The characters of ASCII bytes.
pub open spec fn word_text(w: Seq<u8>) -> Seq<char> {
    w.map_values(|b: u8| b as char)
}

proof fn lemma_word_text_injective(a: Seq<u8>, b: Seq<u8>)
    requires
        word_text(a) == word_text(b),
    ensures
        a == b,
{
    assert(word_text(a).len() == a.len() && word_text(b).len() == b.len());
    assert forall|i: int| 0 <= i < a.len() implies a[i] == b[i] by {
        assert(word_text(a)[i] == a[i] as char);
        assert(word_text(b)[i] == b[i] as char);
    }
    assert(a =~= b);
}

/// A word is a keyword, a primitive type or a boolean literal exactly when it is spelled as
/// one (`abstract`, `case`, `class`, `def`, `else`, `extends`, `if`, `then`, `match`,
/// `object`, `val`, `error`, `end`, `String`, `Int`, `Boolean`, `Unit`, `true`, `false`), and
/// any other word is an identifier.
pub proof fn law_lex_keywords(src: Seq<u8>, limit: int, start: int, tag: u8)
    requires
        0 <= start < limit <= src.len(),
        limit + 3 <= usize::MAX,
        ascii_letter(src[start]),
    ensures
        ({
            let t = spec_lex(src, limit, start, tag);
            let w = word_text(src.subrange(start, t.range.end as int));
            &&& w == "abstract"@ ==> t.kind == TokenKind::KwAbstract
            &&& w == "case"@ ==> t.kind == TokenKind::KwCase
            &&& w == "class"@ ==> t.kind == TokenKind::KwClass
            &&& w == "def"@ ==> t.kind == TokenKind::KwDef
            &&& w == "else"@ ==> t.kind == TokenKind::KwElse
            &&& w == "extends"@ ==> t.kind == TokenKind::KwExtends
            &&& w == "if"@ ==> t.kind == TokenKind::KwIf
            &&& w == "then"@ ==> t.kind == TokenKind::KwThen
            &&& w == "match"@ ==> t.kind == TokenKind::KwMatch
            &&& w == "object"@ ==> t.kind == TokenKind::KwObject
            &&& w == "val"@ ==> t.kind == TokenKind::KwVal
            &&& w == "error"@ ==> t.kind == TokenKind::KwError
            &&& w == "end"@ ==> t.kind == TokenKind::KwEnd
            &&& w == "String"@ ==> t.kind == TokenKind::TypString
            &&& w == "Int"@ ==> t.kind == TokenKind::TypInt
            &&& w == "Boolean"@ ==> t.kind == TokenKind::TypBoolean
            &&& w == "Unit"@ ==> t.kind == TokenKind::TypUnit
            &&& w == "true"@ ==> t.kind == TokenKind::LitTrue
            &&& w == "false"@ ==> t.kind == TokenKind::LitFalse
            &&& !(w == "abstract"@ || w == "case"@ || w == "class"@ || w == "def"@ || w == "else"@ ||
                w == "extends"@ || w == "if"@ || w == "then"@ || w == "match"@ || w == "object"@ ||
                w == "val"@ || w == "error"@ || w == "end"@ || w == "String"@ || w == "Int"@ ||
                w == "Boolean"@ || w == "Unit"@ || w == "true"@ || w == "false"@)
                ==> t.kind == TokenKind::Identifier
        }),
{
    reveal_strlit("abstract");
    reveal_strlit("case");
    reveal_strlit("class");
    reveal_strlit("def");
    reveal_strlit("else");
    reveal_strlit("extends");
    reveal_strlit("if");
    reveal_strlit("then");
    reveal_strlit("match");
    reveal_strlit("object");
    reveal_strlit("val");
    reveal_strlit("error");
    reveal_strlit("end");
    reveal_strlit("String");
    reveal_strlit("Int");
    reveal_strlit("Boolean");
    reveal_strlit("Unit");
    reveal_strlit("true");
    reveal_strlit("false");
    assert(word_text(seq![97u8, 98u8, 115u8, 116u8, 114u8, 97u8, 99u8, 116u8]) =~= "abstract"@);
    assert(word_text(seq![99u8, 97u8, 115u8, 101u8]) =~= "case"@);
    assert(word_text(seq![99u8, 108u8, 97u8, 115u8, 115u8]) =~= "class"@);
    assert(word_text(seq![100u8, 101u8, 102u8]) =~= "def"@);
    assert(word_text(seq![101u8, 108u8, 115u8, 101u8]) =~= "else"@);
    assert(word_text(seq![101u8, 120u8, 116u8, 101u8, 110u8, 100u8, 115u8]) =~= "extends"@);
    assert(word_text(seq![105u8, 102u8]) =~= "if"@);
    assert(word_text(seq![116u8, 104u8, 101u8, 110u8]) =~= "then"@);
    assert(word_text(seq![109u8, 97u8, 116u8, 99u8, 104u8]) =~= "match"@);
    assert(word_text(seq![111u8, 98u8, 106u8, 101u8, 99u8, 116u8]) =~= "object"@);
    assert(word_text(seq![118u8, 97u8, 108u8]) =~= "val"@);
    assert(word_text(seq![101u8, 114u8, 114u8, 111u8, 114u8]) =~= "error"@);
    assert(word_text(seq![101u8, 110u8, 100u8]) =~= "end"@);
    assert(word_text(seq![83u8, 116u8, 114u8, 105u8, 110u8, 103u8]) =~= "String"@);
    assert(word_text(seq![73u8, 110u8, 116u8]) =~= "Int"@);
    assert(word_text(seq![66u8, 111u8, 111u8, 108u8, 101u8, 97u8, 110u8]) =~= "Boolean"@);
    assert(word_text(seq![85u8, 110u8, 105u8, 116u8]) =~= "Unit"@);
    assert(word_text(seq![116u8, 114u8, 117u8, 101u8]) =~= "true"@);
    assert(word_text(seq![102u8, 97u8, 108u8, 115u8, 101u8]) =~= "false"@);
    let e = ident_end(src, limit, start + 1);
    assert(spec_lex(src, limit, start, tag) == tok(keyword_kind(src.subrange(start, e)), start, e, tag));
    lemma_ident_end(src, limit, start + 1);
    let word = src.subrange(start, e);
    let t = spec_lex(src, limit, start, tag);
    assert(t.range.end as int == e);
    assert(word_text(src.subrange(start, t.range.end as int)) == word_text(word));
    assert(word[0] == src[start]);
    assert(!(word =~= seq![95u8]));
    if word_text(word) == "abstract"@ { lemma_word_text_injective(word, seq![97u8, 98u8, 115u8, 116u8, 114u8, 97u8, 99u8, 116u8]); }
    if word_text(word) == "case"@ { lemma_word_text_injective(word, seq![99u8, 97u8, 115u8, 101u8]); }
    if word_text(word) == "class"@ { lemma_word_text_injective(word, seq![99u8, 108u8, 97u8, 115u8, 115u8]); }
    if word_text(word) == "def"@ { lemma_word_text_injective(word, seq![100u8, 101u8, 102u8]); }
    if word_text(word) == "else"@ { lemma_word_text_injective(word, seq![101u8, 108u8, 115u8, 101u8]); }
    if word_text(word) == "extends"@ { lemma_word_text_injective(word, seq![101u8, 120u8, 116u8, 101u8, 110u8, 100u8, 115u8]); }
    if word_text(word) == "if"@ { lemma_word_text_injective(word, seq![105u8, 102u8]); }
    if word_text(word) == "then"@ { lemma_word_text_injective(word, seq![116u8, 104u8, 101u8, 110u8]); }
    if word_text(word) == "match"@ { lemma_word_text_injective(word, seq![109u8, 97u8, 116u8, 99u8, 104u8]); }
    if word_text(word) == "object"@ { lemma_word_text_injective(word, seq![111u8, 98u8, 106u8, 101u8, 99u8, 116u8]); }
    if word_text(word) == "val"@ { lemma_word_text_injective(word, seq![118u8, 97u8, 108u8]); }
    if word_text(word) == "error"@ { lemma_word_text_injective(word, seq![101u8, 114u8, 114u8, 111u8, 114u8]); }
    if word_text(word) == "end"@ { lemma_word_text_injective(word, seq![101u8, 110u8, 100u8]); }
    if word_text(word) == "String"@ { lemma_word_text_injective(word, seq![83u8, 116u8, 114u8, 105u8, 110u8, 103u8]); }
    if word_text(word) == "Int"@ { lemma_word_text_injective(word, seq![73u8, 110u8, 116u8]); }
    if word_text(word) == "Boolean"@ { lemma_word_text_injective(word, seq![66u8, 111u8, 111u8, 108u8, 101u8, 97u8, 110u8]); }
    if word_text(word) == "Unit"@ { lemma_word_text_injective(word, seq![85u8, 110u8, 105u8, 116u8]); }
    if word_text(word) == "true"@ { lemma_word_text_injective(word, seq![116u8, 114u8, 117u8, 101u8]); }
    if word_text(word) == "false"@ { lemma_word_text_injective(word, seq![102u8, 97u8, 108u8, 115u8, 101u8]); }
    if word =~= seq![97u8, 98u8, 115u8, 116u8, 114u8, 97u8, 99u8, 116u8] { assert(word_text(word) == "abstract"@); }
    if word =~= seq![99u8, 97u8, 115u8, 101u8] { assert(word_text(word) == "case"@); }
    if word =~= seq![99u8, 108u8, 97u8, 115u8, 115u8] { assert(word_text(word) == "class"@); }
    if word =~= seq![100u8, 101u8, 102u8] { assert(word_text(word) == "def"@); }
    if word =~= seq![101u8, 108u8, 115u8, 101u8] { assert(word_text(word) == "else"@); }
    if word =~= seq![101u8, 120u8, 116u8, 101u8, 110u8, 100u8, 115u8] { assert(word_text(word) == "extends"@); }
    if word =~= seq![105u8, 102u8] { assert(word_text(word) == "if"@); }
    if word =~= seq![116u8, 104u8, 101u8, 110u8] { assert(word_text(word) == "then"@); }
    if word =~= seq![109u8, 97u8, 116u8, 99u8, 104u8] { assert(word_text(word) == "match"@); }
    if word =~= seq![111u8, 98u8, 106u8, 101u8, 99u8, 116u8] { assert(word_text(word) == "object"@); }
    if word =~= seq![118u8, 97u8, 108u8] { assert(word_text(word) == "val"@); }
    if word =~= seq![101u8, 114u8, 114u8, 111u8, 114u8] { assert(word_text(word) == "error"@); }
    if word =~= seq![101u8, 110u8, 100u8] { assert(word_text(word) == "end"@); }
    if word =~= seq![83u8, 116u8, 114u8, 105u8, 110u8, 103u8] { assert(word_text(word) == "String"@); }
    if word =~= seq![73u8, 110u8, 116u8] { assert(word_text(word) == "Int"@); }
    if word =~= seq![66u8, 111u8, 111u8, 108u8, 101u8, 97u8, 110u8] { assert(word_text(word) == "Boolean"@); }
    if word =~= seq![85u8, 110u8, 105u8, 116u8] { assert(word_text(word) == "Unit"@); }
    if word =~= seq![116u8, 114u8, 117u8, 101u8] { assert(word_text(word) == "true"@); }
    if word =~= seq![102u8, 97u8, 108u8, 115u8, 101u8] { assert(word_text(word) == "false"@); }
}

/// The token of kind `k` over the `n` bytes from `start`.
pub open spec fn lexed_as(src: Seq<u8>, limit: int, start: int, tag: u8, k: TokenKind, n: int) -> bool {
    let t = spec_lex(src, limit, start, tag);
    t.kind == k && t.range.start == start && t.range.end == start + n && t.range.tag == tag
}

/// Operators and delimiters: each symbol is read as its own token, the two-byte ones (`&&`,
/// `||`, `==`, `=>`, `<=`, `:=`, `++`) taking precedence over their one-byte prefixes.
pub proof fn law_lex_symbols(src: Seq<u8>, limit: int, start: int, tag: u8)
    requires
        0 <= start < limit <= src.len(),
        limit + 3 <= usize::MAX,
    ensures
        ({
            let c = src[start];
            let two = start + 1 < limit;
            let d = src[start + 1];
            &&& c == 38 && two && d == 38 ==> lexed_as(src, limit, start, tag, TokenKind::AndAnd, 2)
            &&& c == 124 && two && d == 124 ==> lexed_as(src, limit, start, tag, TokenKind::PipePipe, 2)
            &&& c == 61 && two && d == 61 ==> lexed_as(src, limit, start, tag, TokenKind::EqualEqual, 2)
            &&& c == 61 && two && d == 62 ==> lexed_as(src, limit, start, tag, TokenKind::RightArrow, 2)
            &&& c == 61 && !(two && (d == 61 || d == 62)) ==> lexed_as(src, limit, start, tag, TokenKind::Equal, 1)
            &&& c == 60 && two && d == 61 ==> lexed_as(src, limit, start, tag, TokenKind::LessEquals, 2)
            &&& c == 60 && !(two && d == 61) ==> lexed_as(src, limit, start, tag, TokenKind::Less, 1)
            &&& c == 58 && two && d == 61 ==> lexed_as(src, limit, start, tag, TokenKind::ColonEqual, 2)
            &&& c == 58 && !(two && d == 61) ==> lexed_as(src, limit, start, tag, TokenKind::Colon, 1)
            &&& c == 43 && two && d == 43 ==> lexed_as(src, limit, start, tag, TokenKind::PlusPlus, 2)
            &&& c == 43 && !(two && d == 43) ==> lexed_as(src, limit, start, tag, TokenKind::Plus, 1)
            &&& c == 33 ==> lexed_as(src, limit, start, tag, TokenKind::Bang, 1)
            &&& c == 44 ==> lexed_as(src, limit, start, tag, TokenKind::Comma, 1)
            &&& c == 46 ==> lexed_as(src, limit, start, tag, TokenKind::Dot, 1)
            &&& c == 45 ==> lexed_as(src, limit, start, tag, TokenKind::Minus, 1)
            &&& c == 42 ==> lexed_as(src, limit, start, tag, TokenKind::Star, 1)
            &&& c == 47 && !(two && (d == 47 || d == 42)) ==> lexed_as(src, limit, start, tag, TokenKind::Slash, 1)
            &&& c == 37 ==> lexed_as(src, limit, start, tag, TokenKind::Percent, 1)
            &&& c == 59 ==> lexed_as(src, limit, start, tag, TokenKind::Semicolon, 1)
            &&& c == 40 ==> lexed_as(src, limit, start, tag, TokenKind::OpenParen, 1)
            &&& c == 41 ==> lexed_as(src, limit, start, tag, TokenKind::CloseParen, 1)
            &&& c == 123 ==> lexed_as(src, limit, start, tag, TokenKind::OpenCurly, 1)
            &&& c == 125 ==> lexed_as(src, limit, start, tag, TokenKind::CloseCurly, 1)
            &&& c == 91 ==> lexed_as(src, limit, start, tag, TokenKind::OpenBracket, 1)
            &&& c == 93 ==> lexed_as(src, limit, start, tag, TokenKind::CloseBracket, 1)
            &&& c == 95 ==> lexed_as(src, limit, start, tag, TokenKind::Underscore, 1)
        }),
{
}

proof fn lemma_line_end_at(src: Seq<u8>, limit: int, i: int, j: int)
    requires
        i <= j <= limit,
        j < limit ==> src[j] == 10u8,
        forall|k: int| i <= k < j ==> src[k] != 10u8,
    ensures
        line_end(src, limit, i) == j,
    decreases j - i,
{
    if i < j {
        lemma_line_end_at(src, limit, i + 1, j);
    }
}

proof fn lemma_quote_end_at(src: Seq<u8>, limit: int, i: int, j: int)
    requires
        i <= j <= limit,
        j < limit ==> src[j] == 34u8,
        forall|k: int| i <= k < j ==> src[k] != 34u8,
    ensures
        quote_end(src, limit, i) == j,
    decreases j - i,
{
    if i < j {
        lemma_quote_end_at(src, limit, i + 1, j);
    }
}

proof fn lemma_block_end_at(src: Seq<u8>, limit: int, i: int, j: int)
    requires
        1 <= i <= j <= limit,
        j < limit ==> src[j - 1] == 42u8 && src[j] == 47u8,
        forall|k: int| i <= k < j ==> !(src[k - 1] == 42u8 && #[trigger] src[k] == 47u8),
    ensures
        block_end(src, limit, i) == j,
    decreases j - i,
{
    if i < j {
        lemma_block_end_at(src, limit, i + 1, j);
    }
}

/// Comments are skipped and string literals run to the next quote: after `//` lexing goes on
/// after the next line feed (or ends); after `/*` it goes on after the first `*/` that
/// follows, and an unclosed block comment (with at least one byte after `/*`) is one
/// `UnclosedComment` token up to the limit; a
/// `"` starts a string literal that ends with the next `"`.
pub proof fn law_lex_comments_and_strings(src: Seq<u8>, limit: int, start: int, tag: u8, j: int)
    requires
        0 <= start < limit <= src.len(),
        limit + 3 <= usize::MAX,
    ensures
        start + 1 < limit && src[start] == 47u8 && src[start + 1] == 47u8 && start + 2 <= j <= limit
            && (j < limit ==> src[j] == 10u8) && (forall|k: int| start + 2 <= k < j ==> src[k] != 10u8)
            ==> spec_lex(src, limit, start, tag) == spec_lex(src, limit, j + 1, tag),
        start + 1 < limit && src[start] == 47u8 && src[start + 1] == 42u8 && start + 3 <= j < limit
            && src[j - 1] == 42u8 && src[j] == 47u8
            && (forall|k: int| start + 3 <= k < j ==> !(src[k - 1] == 42u8 && #[trigger] src[k] == 47u8))
            ==> spec_lex(src, limit, start, tag) == spec_lex(src, limit, j + 1, tag),
        start + 3 <= limit && src[start] == 47u8 && src[start + 1] == 42u8
            && (forall|k: int| start + 3 <= k < limit ==> !(src[k - 1] == 42u8 && #[trigger] src[k] == 47u8))
            ==> lexed_as(src, limit, start, tag, TokenKind::UnclosedComment, limit - start),
        src[start] == 34u8 && start + 1 <= j <= limit && (j < limit ==> src[j] == 34u8)
            && (forall|k: int| start + 1 <= k < j ==> src[k] != 34u8)
            ==> lexed_as(src, limit, start, tag, TokenKind::LitString, j + 1 - start),
{
    let c = src[start];
    if start + 1 < limit && c == 47u8 && src[start + 1] == 47u8 && start + 2 <= j <= limit
        && (j < limit ==> src[j] == 10u8) && (forall|k: int| start + 2 <= k < j ==> src[k] != 10u8) {
        lemma_line_end_at(src, limit, start + 2, j);
    }
    if start + 1 < limit && c == 47u8 && src[start + 1] == 42u8 && start + 3 <= j < limit
        && src[j - 1] == 42u8 && src[j] == 47u8
        && (forall|k: int| start + 3 <= k < j ==> !(src[k - 1] == 42u8 && #[trigger] src[k] == 47u8)) {
        lemma_block_end_at(src, limit, start + 3, j);
    }
    if start + 3 <= limit && c == 47u8 && src[start + 1] == 42u8
        && (forall|k: int| start + 3 <= k < limit ==> !(src[k - 1] == 42u8 && #[trigger] src[k] == 47u8)) {
        lemma_block_end_at(src, limit, start + 3, limit);
    }
    if c == 34u8 && start + 1 <= j <= limit && (j < limit ==> src[j] == 34u8)
        && (forall|k: int| start + 1 <= k < j ==> src[k] != 34u8) {
        lemma_quote_end_at(src, limit, start + 1, j);
    }
}

/// The token `kind` covering `[start, end)` in module `tag`.
pub open spec fn tok(kind: TokenKind, start: int, end: int, tag: u8) -> Token {
    Token { kind, range: Span { start: start as usize, end: end as usize, tag } }
}

/// The token that starts at or after `start`: whitespace and comments are skipped, an
/// unterminated block comment gives `UnclosedComment`, and `Eof` is returned at `start`
/// once `start` reaches `limit`.
pub open spec fn spec_lex(src: Seq<u8>, limit: int, start: int, tag: u8) -> Token
    decreases limit + 3 - start,
{
    if start >= limit || start < 0 {
        tok(TokenKind::Eof, start, start, tag)
    } else {
        let c = src[start];
        let has_next = start + 1 < limit;
        let nx = src[start + 1];
        if spec_is_ws(c) {
            spec_lex(src, limit, start + 1, tag)
        } else if spec_is_id_start(c) {
            let e = ident_end(src, limit, start + 1);
            tok(keyword_kind(src.subrange(start, e)), start, e, tag)
        } else if spec_is_digit(c) {
            tok(TokenKind::LitInt, start, digits_end(src, limit, start + 1), tag)
        } else if c == 38 && has_next && nx == 38 {
            tok(TokenKind::AndAnd, start, start + 2, tag)
        } else if c == 33 {
            tok(TokenKind::Bang, start, start + 1, tag)
        } else if c == 58 {
            if has_next && nx == 61 {
                tok(TokenKind::ColonEqual, start, start + 2, tag)
            } else {
                tok(TokenKind::Colon, start, start + 1, tag)
            }
        } else if c == 44 {
            tok(TokenKind::Comma, start, start + 1, tag)
        } else if c == 46 {
            tok(TokenKind::Dot, start, start + 1, tag)
        } else if c == 61 {
            if has_next && nx == 61 {
                tok(TokenKind::EqualEqual, start, start + 2, tag)
            } else if has_next && nx == 62 {
                tok(TokenKind::RightArrow, start, start + 2, tag)
            } else {
                tok(TokenKind::Equal, start, start + 1, tag)
            }
        } else if c == 60 {
            if has_next && nx == 61 {
                tok(TokenKind::LessEquals, start, start + 2, tag)
            } else {
                tok(TokenKind::Less, start, start + 1, tag)
            }
        } else if c == 45 {
            tok(TokenKind::Minus, start, start + 1, tag)
        } else if c == 91 {
            tok(TokenKind::OpenBracket, start, start + 1, tag)
        } else if c == 123 {
            tok(TokenKind::OpenCurly, start, start + 1, tag)
        } else if c == 40 {
            tok(TokenKind::OpenParen, start, start + 1, tag)
        } else if c == 41 {
            tok(TokenKind::CloseParen, start, start + 1, tag)
        } else if c == 125 {
            tok(TokenKind::CloseCurly, start, start + 1, tag)
        } else if c == 93 {
            tok(TokenKind::CloseBracket, start, start + 1, tag)
        } else if c == 37 {
            tok(TokenKind::Percent, start, start + 1, tag)
        } else if c == 124 && has_next && nx == 124 {
            tok(TokenKind::PipePipe, start, start + 2, tag)
        } else if c == 43 {
            if has_next && nx == 43 {
                tok(TokenKind::PlusPlus, start, start + 2, tag)
            } else {
                tok(TokenKind::Plus, start, start + 1, tag)
            }
        } else if c == 59 {
            tok(TokenKind::Semicolon, start, start + 1, tag)
        } else if c == 47 {
            if has_next && nx == 47 {
                let e = line_end(src, limit, start + 2);
                proof {
                    lemma_line_end(src, limit, start + 2);
                }
                spec_lex(src, limit, e + 1, tag)
            } else if has_next && nx == 42 {
                let e = block_end(src, limit, start + 3);
                proof {
                    lemma_block_end(src, limit, start + 3);
                }
                if e == limit {
                    tok(TokenKind::UnclosedComment, start, e, tag)
                } else {
                    spec_lex(src, limit, e + 1, tag)
                }
            } else {
                tok(TokenKind::Slash, start, start + 1, tag)
            }
        } else if c == 42 {
            tok(TokenKind::Star, start, start + 1, tag)
        } else if c == 95 {
            tok(TokenKind::Underscore, start, start + 1, tag)
        } else if c == 34 {
            tok(TokenKind::LitString, start, quote_end(src, limit, start + 1) + 1, tag)
        } else {
            tok(TokenKind::Unknown, start, start + 1, tag)
        }
    }
}

/// What every token produced on `src` up to `limit` satisfies: it covers a range of the
/// source (a string literal also its closing quote, which may lie one past `limit`), and only
/// `Eof` is empty.
pub open spec fn token_ok(limit: int, t: Token) -> bool {
    &&& t.range.start <= t.range.end
    &&& (t.kind == TokenKind::Eof) == (t.range.start == t.range.end)
    &&& t.kind != TokenKind::Eof && t.kind != TokenKind::LitString ==> t.range.end <= limit
    &&& t.kind == TokenKind::LitString ==> t.range.start + 2 <= t.range.end <= limit + 1
    &&& t.range.end <= limit + 2
}

/// Bounds of the token found from `start`.
pub proof fn lemma_lex_bounds(src: Seq<u8>, limit: int, start: int, tag: u8)
    requires
        0 <= start <= limit + 2,
        limit <= src.len(),
        limit + 3 <= usize::MAX,
    ensures
        token_ok(limit, spec_lex(src, limit, start, tag)),
        spec_lex(src, limit, start, tag).range.tag == tag,
        start <= spec_lex(src, limit, start, tag).range.start,
        spec_lex(src, limit, start, tag).kind == TokenKind::Eof ==> spec_lex(
            src,
            limit,
            start,
            tag,
        ).range.start >= limit,
    decreases limit + 3 - start,
{
    if start >= limit {
    } else {
        let c = src[start];
        let has_next = start + 1 < limit;
        let nx = src[start + 1];
        if spec_is_ws(c) {
            lemma_lex_bounds(src, limit, start + 1, tag);
        } else if spec_is_id_start(c) {
            lemma_ident_end(src, limit, start + 1);
        } else if spec_is_digit(c) {
            lemma_digits_end(src, limit, start + 1);
        } else if c == 47 && has_next && nx == 47 {
            lemma_line_end(src, limit, start + 2);
            lemma_lex_bounds(src, limit, line_end(src, limit, start + 2) + 1, tag);
        } else if c == 47 && has_next && nx == 42 {
            lemma_block_end(src, limit, start + 3);
            let e = block_end(src, limit, start + 3);
            if e != limit {
                lemma_lex_bounds(src, limit, e + 1, tag);
            }
        } else if c == 34 {
            lemma_quote_end(src, limit, start + 1);
        }
    }
}

fn word_eq(src: &[u8], start: usize, end: usize, kw: &[u8]) -> (r: bool)
    requires
        start <= end <= src@.len(),
    ensures
        r == (src@.subrange(start as int, end as int) =~= kw@),
{
    if end - start != kw.len() {
        return false;
    }
    let mut i: usize = 0;
    while i < kw.len()
        invariant
            end - start == kw@.len(),
            start <= end <= src@.len(),
            i <= kw@.len(),
            forall|j: int| 0 <= j < i ==> src@[start + j] == kw@[j],
        decreases kw.len() - i,
    {
        if src[start + i] != kw[i] {
            assert(src@.subrange(start as int, end as int)[i as int] != kw@[i as int]);
            return false;
        }
        i += 1;
    }
    true
}

/// Classifies the word `src[start..end]` (see `keyword_kind`).
fn word_kind(src: &[u8], start: usize, end: usize) -> (k: TokenKind)
    requires
        start <= end <= src@.len(),
    ensures
        k == keyword_kind(src@.subrange(start as int, end as int)),
{
    if word_eq(src, start, end, &[97u8, 98u8, 115u8, 116u8, 114u8, 97u8, 99u8, 116u8]) {
        return TokenKind::KwAbstract;
    }
    if word_eq(src, start, end, &[99u8, 97u8, 115u8, 101u8]) {
        return TokenKind::KwCase;
    }
    if word_eq(src, start, end, &[99u8, 108u8, 97u8, 115u8, 115u8]) {
        return TokenKind::KwClass;
    }
    if word_eq(src, start, end, &[100u8, 101u8, 102u8]) {
        return TokenKind::KwDef;
    }
    if word_eq(src, start, end, &[101u8, 108u8, 115u8, 101u8]) {
        return TokenKind::KwElse;
    }
    if word_eq(src, start, end, &[101u8, 120u8, 116u8, 101u8, 110u8, 100u8, 115u8]) {
        return TokenKind::KwExtends;
    }
    if word_eq(src, start, end, &[105u8, 102u8]) {
        return TokenKind::KwIf;
    }
    if word_eq(src, start, end, &[116u8, 104u8, 101u8, 110u8]) {
        return TokenKind::KwThen;
    }
    if word_eq(src, start, end, &[109u8, 97u8, 116u8, 99u8, 104u8]) {
        return TokenKind::KwMatch;
    }
    if word_eq(src, start, end, &[111u8, 98u8, 106u8, 101u8, 99u8, 116u8]) {
        return TokenKind::KwObject;
    }
    if word_eq(src, start, end, &[118u8, 97u8, 108u8]) {
        return TokenKind::KwVal;
    }
    if word_eq(src, start, end, &[101u8, 114u8, 114u8, 111u8, 114u8]) {
        return TokenKind::KwError;
    }
    if word_eq(src, start, end, &[101u8, 110u8, 100u8]) {
        return TokenKind::KwEnd;
    }
    if word_eq(src, start, end, &[95u8]) {
        return TokenKind::Underscore;
    }
    if word_eq(src, start, end, &[83u8, 116u8, 114u8, 105u8, 110u8, 103u8]) {
        return TokenKind::TypString;
    }
    if word_eq(src, start, end, &[73u8, 110u8, 116u8]) {
        return TokenKind::TypInt;
    }
    if word_eq(src, start, end, &[66u8, 111u8, 111u8, 108u8, 101u8, 97u8, 110u8]) {
        return TokenKind::TypBoolean;
    }
    if word_eq(src, start, end, &[85u8, 110u8, 105u8, 116u8]) {
        return TokenKind::TypUnit;
    }
    if word_eq(src, start, end, &[116u8, 114u8, 117u8, 101u8]) {
        return TokenKind::LitTrue;
    }
    if word_eq(src, start, end, &[102u8, 97u8, 108u8, 115u8, 101u8]) {
        return TokenKind::LitFalse;
    }
    TokenKind::Identifier
}

/// Produces the token at or after `start` (see `spec_lex`).
fn lex_token(src: &[u8], limit: usize, start: usize, tag: u8) -> (t: Token)
    requires
        limit <= src@.len(),
        limit + 3 <= usize::MAX,
    ensures
        t == spec_lex(src@, limit as int, start as int, tag),
    decreases limit + 3 - start,
{
    if start >= limit {
        return Token::new(TokenKind::Eof, start..start, tag);
    }
    let has_next: bool = start + 1 < limit;
    let c = src[start];
    let nx: u8 = if has_next { src[start + 1] } else { 0 };
    assert(has_next ==> nx == src@[start + 1]);
    if is_ws(c) {
        lex_token(src, limit, start + 1, tag)
    } else if is_id_start(c) {
        let mut end: usize = start + 1;
        while end < limit && is_id_continue(src[end])
            invariant
                start + 1 <= end <= limit,
                limit <= src@.len(),
                ident_end(src@, limit as int, start + 1) == ident_end(src@, limit as int, end as int),
            decreases limit - end,
        {
            end += 1;
        }
        let k = word_kind(src, start, end);
        Token::new(k, start..end, tag)
    } else if is_digit(c) {
        let mut end: usize = start + 1;
        while end < limit && is_digit(src[end])
            invariant
                start + 1 <= end <= limit,
                limit <= src@.len(),
                digits_end(src@, limit as int, start + 1) == digits_end(src@, limit as int, end as int),
            decreases limit - end,
        {
            end += 1;
        }
        Token::new(TokenKind::LitInt, start..end, tag)
    } else if c == 38 && has_next && nx == 38 {
        Token::new(TokenKind::AndAnd, start..start + 2, tag)
    } else if c == 33 {
        Token::new(TokenKind::Bang, start..start + 1, tag)
    } else if c == 58 {
        if has_next && nx == 61 {
            Token::new(TokenKind::ColonEqual, start..start + 2, tag)
        } else {
            Token::new(TokenKind::Colon, start..start + 1, tag)
        }
    } else if c == 44 {
        Token::new(TokenKind::Comma, start..start + 1, tag)
    } else if c == 46 {
        Token::new(TokenKind::Dot, start..start + 1, tag)
    } else if c == 61 {
        if has_next && nx == 61 {
            Token::new(TokenKind::EqualEqual, start..start + 2, tag)
        } else if has_next && nx == 62 {
            Token::new(TokenKind::RightArrow, start..start + 2, tag)
        } else {
            Token::new(TokenKind::Equal, start..start + 1, tag)
        }
    } else if c == 60 {
        if has_next && nx == 61 {
            Token::new(TokenKind::LessEquals, start..start + 2, tag)
        } else {
            Token::new(TokenKind::Less, start..start + 1, tag)
        }
    } else if c == 45 {
        Token::new(TokenKind::Minus, start..start + 1, tag)
    } else if c == 91 {
        Token::new(TokenKind::OpenBracket, start..start + 1, tag)
    } else if c == 123 {
        Token::new(TokenKind::OpenCurly, start..start + 1, tag)
    } else if c == 40 {
        Token::new(TokenKind::OpenParen, start..start + 1, tag)
    } else if c == 41 {
        Token::new(TokenKind::CloseParen, start..start + 1, tag)
    } else if c == 125 {
        Token::new(TokenKind::CloseCurly, start..start + 1, tag)
    } else if c == 93 {
        Token::new(TokenKind::CloseBracket, start..start + 1, tag)
    } else if c == 37 {
        Token::new(TokenKind::Percent, start..start + 1, tag)
    } else if c == 124 && has_next && nx == 124 {
        Token::new(TokenKind::PipePipe, start..start + 2, tag)
    } else if c == 43 {
        if has_next && nx == 43 {
            Token::new(TokenKind::PlusPlus, start..start + 2, tag)
        } else {
            Token::new(TokenKind::Plus, start..start + 1, tag)
        }
    } else if c == 59 {
        Token::new(TokenKind::Semicolon, start..start + 1, tag)
    } else if c == 47 {
        if has_next && nx == 47 {
            let mut end: usize = start + 2;
            while end < limit && src[end] != 10
                invariant
                    start + 2 <= end <= limit,
                    limit <= src@.len(),
                    line_end(src@, limit as int, start + 2) == line_end(src@, limit as int, end as int),
                decreases limit - end,
            {
                end += 1;
            }
            lex_token(src, limit, end + 1, tag)
        } else if has_next && nx == 42 {
            let mut end: usize = start + 3;
            while end < limit && (src[end - 1] != 42 || src[end] != 47)
                invariant
                    start + 3 <= end,
                    start + 3 <= limit ==> end <= limit,
                    limit <= src@.len(),
                    block_end(src@, limit as int, start + 3) == block_end(src@, limit as int, end as int),
                decreases limit - end,
            {
                end += 1;
            }
            if end == limit {
                Token::new(TokenKind::UnclosedComment, start..end, tag)
            } else {
                lex_token(src, limit, end + 1, tag)
            }
        } else {
            Token::new(TokenKind::Slash, start..start + 1, tag)
        }
    } else if c == 42 {
        Token::new(TokenKind::Star, start..start + 1, tag)
    } else if c == 95 {
        Token::new(TokenKind::Underscore, start..start + 1, tag)
    } else if c == 34 {
        let mut end: usize = start + 1;
        while end < limit && src[end] != 34
            invariant
                start + 1 <= end <= limit,
                limit <= src@.len(),
                quote_end(src@, limit as int, start + 1) == quote_end(src@, limit as int, end as int),
            decreases limit - end,
        {
            end += 1;
        }
        Token::new(TokenKind::LitString, start..end + 1, tag)
    } else {
        Token::new(TokenKind::Unknown, start..start + 1, tag)
    }
}


/// A stream of tokens over `src[..limit]` with one token of look-ahead.
#[derive(Clone, Debug)]
pub struct TokenIter<'a> {
    src: &'a [u8],
    limit: usize,
    position: usize,
    cache: Option<Token>,
    tag: u8,
}

impl<'a> TokenIter<'a> {
    /// The source bytes.
    pub closed spec fn spec_src(&self) -> Seq<u8> {
        self.src@
    }

    /// The end of the lexed part of the source.
    pub closed spec fn spec_limit(&self) -> int {
        self.limit as int
    }

    /// The position from which the next token is lexed when nothing is cached.
    pub closed spec fn spec_position(&self) -> int {
        self.position as int
    }

    /// The token peeked but not yet popped, if any.
    pub closed spec fn spec_cache(&self) -> Option<Token> {
        self.cache
    }

    /// The module tag put on every token.
    pub closed spec fn spec_tag(&self) -> u8 {
        self.tag
    }

    /// The iterator's invariant.
    pub closed spec fn wf(&self) -> bool {
        &&& self.limit <= self.src@.len()
        &&& self.limit + 3 <= usize::MAX
        &&& self.position <= self.limit + 2
        &&& self.cache matches Some(t) ==> token_ok(self.limit as int, t) && t.range.tag == self.tag
            && t.range.end == self.position
    }

    /// A measure that no operation increases and that consuming a token other than `Eof`
    /// decreases.
    pub closed spec fn measure(&self) -> nat {
        (2 * (self.limit + 3 - self.position) + if self.cache matches Some(t) && t.kind
            != TokenKind::Eof {
            1int
        } else {
            0int
        }) as nat
    }

    /// The next token and the iterator after popping it.
    pub closed spec fn spec_pop(self) -> (Token, Self) {
        match self.cache {
            Some(t) => (t, TokenIter { cache: None, ..self }),
            None => {
                let t = spec_lex(self.src@, self.limit as int, self.position as int, self.tag);
                (t, TokenIter { position: t.range.end, cache: None, ..self })
            },
        }
    }

    /// The next token and the iterator after peeking at it.
    pub closed spec fn spec_peek(self) -> (Token, Self) {
        match self.cache {
            Some(t) => (t, self),
            None => {
                let t = spec_lex(self.src@, self.limit as int, self.position as int, self.tag);
                (t, TokenIter { position: t.range.end, cache: Some(t), ..self })
            },
        }
    }

    /// The next token, lexed from the current position if nothing is cached.
    pub closed spec fn next_token(self) -> Token {
        self.spec_pop().0
    }

    /// The tokens that popping yields from here on, up to the end of file, which is left out.
    pub closed spec fn remaining(self) -> Seq<Token>
        decreases self.measure(),
        when self.wf()
    {
        let (t, rest) = self.spec_pop();
        if t.kind == TokenKind::Eof {
            Seq::empty()
        } else {
            proof {
                self.lemma_pop();
            }
            seq![t] + rest.remaining()
        }
    }

    /// What popping and peeking do: with a token cached, popping hands it out and clears the
    /// cache, and peeking hands it out and leaves the iterator as it is; with nothing cached,
    /// both lex the token from the position with `spec_lex` and move the position to its end,
    /// popping leaving nothing cached and peeking caching the token. Neither changes the
    /// source, the limit or the tag, and the next token is the one popping hands out.
    pub proof fn lemma_pop_lexes(self)
        ensures
            self.next_token() == self.spec_pop().0,
            self.spec_peek().0 == self.next_token(),
            self.spec_peek().1.next_token() == self.spec_peek().0,
            self.spec_pop().1.spec_src() == self.spec_src(),
            self.spec_pop().1.spec_limit() == self.spec_limit(),
            self.spec_pop().1.spec_tag() == self.spec_tag(),
            self.spec_pop().1.spec_cache() is None,
            self.spec_peek().1.spec_src() == self.spec_src(),
            self.spec_peek().1.spec_limit() == self.spec_limit(),
            self.spec_peek().1.spec_tag() == self.spec_tag(),
            self.spec_cache() matches Some(t) ==> {
                &&& self.spec_pop().0 == t
                &&& self.spec_pop().1.spec_position() == self.spec_position()
                &&& self.spec_peek() == (t, self)
            },
            self.spec_cache() is None ==> {
                let t = spec_lex(self.spec_src(), self.spec_limit(), self.spec_position(), self.spec_tag());
                &&& self.spec_pop().0 == t
                &&& self.spec_pop().1.spec_position() == t.range.end
                &&& self.spec_peek().0 == t
                &&& self.spec_peek().1.spec_position() == t.range.end
                &&& self.spec_peek().1.spec_cache() == Some(t)
            },
    {
    }

    /// The tokens still to come: none once popping gives the end of file, else the popped
    /// token followed by those still to come after it.
    pub proof fn lemma_remaining_unfold(self)
        requires
            self.wf(),
        ensures
            self.spec_pop().0.kind == TokenKind::Eof ==> self.remaining() == Seq::<Token>::empty(),
            self.spec_pop().0.kind != TokenKind::Eof ==> self.remaining() == seq![self.spec_pop().0]
                + self.spec_pop().1.remaining(),
    {
        self.lemma_pop();
    }

    /// Where the next token starts at the earliest.
    pub closed spec fn next_start(&self) -> int {
        match self.cache {
            Some(t) => t.range.start as int,
            None => self.position as int,
        }
    }

    /// Every token still to come starts at or after `next_start`, and they come in order
    /// without overlapping, each a token of the source other than the end of file.
    pub proof fn lemma_remaining_in_order(self)
        requires
            self.wf(),
        ensures
            forall|i: int| 0 <= i < self.remaining().len() ==> {
                &&& token_ok(self.spec_limit(), #[trigger] self.remaining()[i])
                &&& self.remaining()[i].kind != TokenKind::Eof
                &&& self.next_start() <= self.remaining()[i].range.start
            },
            forall|i: int, j: int| 0 <= i < j < self.remaining().len() ==>
                #[trigger] self.remaining()[i].range.end <= #[trigger] self.remaining()[j].range.start,
        decreases self.measure(),
    {
        self.lemma_pop();
        let (t, rest) = self.spec_pop();
        if self.cache is None {
            lemma_lex_bounds(self.src@, self.limit as int, self.position as int, self.tag);
        }
        if t.kind != TokenKind::Eof {
            rest.lemma_remaining_in_order();
            let r = self.remaining();
            assert(r == seq![t] + rest.remaining());
            assert(rest.next_start() == t.range.end);
            assert forall|i: int, j: int| 0 <= i < j < r.len() implies #[trigger] r[i].range.end <= #[trigger] r[j].range.start by {
                if i > 0 {
                    assert(r[i] == rest.remaining()[i - 1]);
                    assert(r[j] == rest.remaining()[j - 1]);
                } else {
                    assert(r[j] == rest.remaining()[j - 1]);
                }
            }
            assert forall|i: int| 0 <= i < r.len() implies {
                &&& token_ok(self.spec_limit(), #[trigger] r[i])
                &&& r[i].kind != TokenKind::Eof
                &&& self.next_start() <= r[i].range.start
            } by {
                if i > 0 {
                    assert(r[i] == rest.remaining()[i - 1]);
                }
            }
        }
    }

    /// Popping and peeking keep the invariant, hand out a well-formed token, and never
    /// increase the measure.
    pub proof fn lemma_pop(self)
        requires
            self.wf(),
        ensures
            self.spec_limit() <= self.spec_src().len(),
            self.spec_pop().1.wf(),
            self.spec_peek().1.wf(),
            self.spec_pop().1.spec_src() == self.spec_src(),
            self.spec_pop().1.spec_limit() == self.spec_limit(),
            self.spec_pop().1.spec_tag() == self.spec_tag(),
            self.spec_peek().1.spec_src() == self.spec_src(),
            self.spec_peek().1.spec_limit() == self.spec_limit(),
            self.spec_peek().1.spec_tag() == self.spec_tag(),
            token_ok(self.spec_limit() as int, self.spec_pop().0),
            self.spec_pop().0.range.tag == self.spec_tag(),
            self.spec_pop().1.measure() <= self.measure(),
            self.spec_pop().0.kind != TokenKind::Eof ==> self.spec_pop().1.measure()
                < self.measure(),
            self.spec_peek().1.measure() <= self.measure(),
            self.spec_peek().0 == self.spec_pop().0,
            self.spec_peek().1.spec_pop() == self.spec_pop(),
    {
        if self.cache is None {
            lemma_lex_bounds(self.src@, self.limit as int, self.position as int, self.tag);
        }
    }

    pub fn new(src: &'a [u8], limit: usize, tag: u8) -> (it: Self)
        requires
            limit <= src@.len(),
            limit + 3 <= usize::MAX,
        ensures
            it.wf(),
            it.spec_src() == src@,
            it.spec_limit() == limit,
            it.spec_position() == 0,
            it.spec_cache() is None,
            it.spec_tag() == tag,
    {
        Self { src, limit, position: 0, cache: None, tag }
    }

    /// The module tag put on every token.
    pub fn tag(&self) -> (t: u8)
        ensures
            t == self.spec_tag(),
    {
        self.tag
    }

    /// Removes and returns the next token.
    pub fn pop(&mut self) -> (t: Token)
        requires
            old(self).wf(),
        ensures
            (t, *final(self)) == old(self).spec_pop(),
            final(self).wf(),
            final(self).spec_src() == old(self).spec_src(),
            final(self).spec_limit() == old(self).spec_limit(),
            final(self).spec_tag() == old(self).spec_tag(),
            token_ok(old(self).spec_limit(), t),
            t.range.tag == old(self).spec_tag(),
            final(self).measure() <= old(self).measure(),
            t.kind != TokenKind::Eof ==> final(self).measure() < old(self).measure(),
    {
        proof {
            self.lemma_pop();
        }
        match self.cache {
            Some(tok) => {
                self.cache = None;
                tok
            },
            None => {
                let tok = lex_token(self.src, self.limit, self.position, self.tag);
                self.position = tok.range.end;
                tok
            },
        }
    }

    /// Returns the next token without removing it.
    pub fn peek(&mut self) -> (t: Token)
        requires
            old(self).wf(),
        ensures
            (t, *final(self)) == old(self).spec_peek(),
            t == old(self).next_token(),
            t == final(self).next_token(),
            final(self).spec_pop() == old(self).spec_pop(),
            final(self).wf(),
            final(self).spec_src() == old(self).spec_src(),
            final(self).spec_limit() == old(self).spec_limit(),
            final(self).spec_tag() == old(self).spec_tag(),
            final(self).spec_cache() == Some(t),
            token_ok(old(self).spec_limit(), t),
            t.range.tag == old(self).spec_tag(),
            final(self).measure() <= old(self).measure(),
    {
        proof {
            self.lemma_pop();
        }
        match self.cache {
            Some(tok) => tok,
            None => {
                let tok = lex_token(self.src, self.limit, self.position, self.tag);
                self.cache = Some(tok);
                self.position = tok.range.end;
                tok
            },
        }
    }

    /// Pops every token up to the end of file and returns them, the end of file left out.
    pub fn tokens(&mut self) -> (ts: Vec<Token>)
        requires
            old(self).wf(),
        ensures
            ts@ == old(self).remaining(),
            final(self).wf(),
            final(self).spec_src() == old(self).spec_src(),
            final(self).spec_limit() == old(self).spec_limit(),
            final(self).spec_tag() == old(self).spec_tag(),
    {
        let mut ts: Vec<Token> = Vec::new();
        loop
            invariant_except_break
                ts@ + self.remaining() == old(self).remaining(),
            invariant
                self.wf(),
                self.spec_src() == old(self).spec_src(),
                self.spec_limit() == old(self).spec_limit(),
                self.spec_tag() == old(self).spec_tag(),
            ensures
                self.wf(),
                self.spec_src() == old(self).spec_src(),
                self.spec_limit() == old(self).spec_limit(),
                self.spec_tag() == old(self).spec_tag(),
                ts@ == old(self).remaining(),
            decreases self.measure(),
        {
            let ghost before = *self;
            let ghost ts0 = ts@;
            proof {
                before.lemma_pop();
            }
            let t = self.pop();
            if t.kind == TokenKind::Eof {
                assert(before.remaining() == Seq::<Token>::empty());
                assert(ts@ + Seq::<Token>::empty() =~= ts@);
                break;
            }
            ts.push(t);
            assert(ts@ + self.remaining() =~= ts0 + before.remaining()) by {
                assert(before.remaining() == seq![t] + self.remaining());
            }
        }
        ts
    }

    /// Removes the next token.
    pub fn consume(&mut self)
        requires
            old(self).wf(),
        ensures
            *final(self) == old(self).spec_pop().1,
            final(self).wf(),
            final(self).spec_src() == old(self).spec_src(),
            final(self).spec_limit() == old(self).spec_limit(),
            final(self).spec_tag() == old(self).spec_tag(),
            final(self).measure() <= old(self).measure(),
            old(self).next_token().kind != TokenKind::Eof ==> final(self).measure() < old(
                self,
            ).measure(),
    {
        proof {
            self.lemma_pop();
        }
        match self.cache {
            Some(_) => {
                self.cache = None;
            },
            None => {
                let tok = lex_token(self.src, self.limit, self.position, self.tag);
                self.position = tok.range.end;
            },
        }
    }
}

/// Peeking and then popping pops the same token, leaving the same iterator, as popping alone.
pub proof fn law_peek_then_pop(it: TokenIter)
    requires
        it.wf(),
    ensures
        it.spec_peek().0 == it.spec_pop().0,
        it.spec_peek().1.spec_pop() == it.spec_pop(),
{
    it.lemma_pop();
}

/// The tokens of a stream come in source order without overlapping, none is the end of file,
/// and each lies within the lexed part of the source (a string literal's closing quote may lie
/// one byte past it).
pub proof fn law_tokens_in_order(it: TokenIter)
    requires
        it.wf(),
    ensures
        forall|i: int| 0 <= i < it.remaining().len() ==> {
            &&& token_ok(it.spec_limit(), #[trigger] it.remaining()[i])
            &&& it.remaining()[i].kind != TokenKind::Eof
        },
        forall|i: int, j: int| 0 <= i < j < it.remaining().len() ==>
            #[trigger] it.remaining()[i].range.end <= #[trigger] it.remaining()[j].range.start,
{
    it.lemma_remaining_in_order();
}

/// Peeking twice gives the same token and leaves the iterator as peeking once.
pub proof fn law_peek_idempotent(it: TokenIter)
    requires
        it.wf(),
    ensures
        it.spec_peek().1.spec_peek() == it.spec_peek(),
{
}

} // verus!
