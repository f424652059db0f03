//! The grammar as the parser reads it: for every parsing function, the value (or the error
//! report) that it gives from a token iterator, and the iterator it leaves behind.
//!
//! Lists are built the way the parser builds them: each element is appended after the rest
//! of the list has been read, so they come out last-first.
use vstd::prelude::*;
use vstd::utf8::{valid_utf8, decode_utf8};
use crate::ast::{NameV, NTypeV, ExprV, PatV, AbstDefV, ClassDefV, FunDefV, ModuleV};
use crate::diagnostics::{ReportV, Span, Stage, spec_join};
use crate::interpreter::builtin::parse_i32;
use crate::parser::token::{Token, TokenKind, kind_name};
use crate::parser::tokeniter::TokenIter;

verus! {

/// The model of a parsed expression.
pub type EV = ExprV<NameV, NTypeV>;

/// The model of a parsed pattern.
pub type PV = PatV<NameV>;

/// The model of one parsed argument: its name and its type.
pub type ArgV = (Seq<char>, NTypeV);

/// What a parsing function gives: a value with the iterator after it, or a report.
pub type Parsed<'a, V> = Result<(V, TokenIter<'a>), ReportV>;

/// A parse error at `range`.
pub open spec fn perr<'a, V>(range: Span, msg: Seq<char>) -> Parsed<'a, V> {
    Err(ReportV { stage: Stage::Parsing, range, msg })
}

/// The value of a branch in which the iterator would not have advanced; the parsing
/// functions never reach it (each of them states that it leaves the measure no higher).
pub open spec fn stuck<'a, V>(ts: TokenIter<'a>) -> Parsed<'a, V> {
    perr(ts.next_token().range, Seq::empty())
}

/// `after` is an iterator over the same source, with the same limit and tag, that has not
/// moved back from `before`.
pub open spec fn follows<'a>(after: TokenIter<'a>, before: TokenIter<'a>) -> bool {
    &&& after.wf()
    &&& after.spec_src() == before.spec_src()
    &&& after.spec_limit() == before.spec_limit()
    &&& after.spec_tag() == before.spec_tag()
    &&& after.measure() <= before.measure()
}

/// A parsing function's result `r`, with the iterator `after` it left, is what the grammar
/// gives (`after` is only compared on success).
pub open spec fn agrees<'a, V>(r: Result<V, ReportV>, after: TokenIter<'a>, s: Parsed<'a, V>) -> bool {
    match (r, s) {
        (Ok(v), Ok((w, t))) => v == w && after == t,
        (Err(e), Err(f)) => e == f,
        _ => false,
    }
}

/// Pops a token of kind `kind`, or reports `msg` at the token found instead.
pub open spec fn expect<'a>(ts: TokenIter<'a>, kind: TokenKind, msg: Seq<char>) -> Parsed<'a, Token> {
    let (t, rest) = ts.spec_pop();
    if t.kind == kind {
        Ok((t, rest))
    } else {
        perr(t.range, msg)
    }
}

/// The text of the bytes under `s`, when they are valid UTF-8.
#[verifier::opaque]
pub open spec fn text(src: Seq<u8>, s: Span) -> Result<Seq<char>, ReportV> {
    let b = src.subrange(s.start as int, s.end as int);
    if valid_utf8(b) {
        Ok(decode_utf8(b))
    } else {
        Err(ReportV { stage: Stage::Parsing, range: s, msg: "This string does not contain valid ASCII."@ })
    }
}

/// The integer written under `s`.
#[verifier::opaque]
pub open spec fn int_lit(src: Seq<u8>, s: Span) -> Result<i32, ReportV> {
    match text(src, s) {
        Err(r) => Err(r),
        Ok(t) => match parse_i32(t) {
            Some(v) => Ok(v),
            None => Err(ReportV { stage: Stage::Parsing, range: s, msg: "Could not parse this as an integer"@ }),
        },
    }
}

/// The span inside the quotes of a string literal token.
pub open spec fn inner(s: Span) -> Span {
    Span { start: (s.start + 1) as usize, end: (s.end - 1) as usize, tag: s.tag }
}

/// The bytes under two spans are the same.
pub open spec fn same_text(src: Seq<u8>, a: Span, b: Span) -> bool {
    src.subrange(a.start as int, a.end as int) == src.subrange(b.start as int, b.end as int)
}

// ---------------------------------------------------------------------------------------------
// Names and types
// ---------------------------------------------------------------------------------------------

/// A name whose first identifier (under `span`) was just popped: `owner.name` when a dot
/// follows, else `name`; with the span of the whole name.
#[verifier::opaque]
pub open spec fn p_name<'a>(src: Seq<u8>, ts: TokenIter<'a>, span: Span) -> Parsed<'a, (NameV, Span)> {
    let (t, ts1) = ts.spec_peek();
    if t.kind == TokenKind::Dot {
        let ts2 = ts1.spec_pop().1;
        match expect(ts2, TokenKind::Identifier, "Expected a valid identifier as part of a qualified name."@) {
            Err(r) => Err(r),
            Ok((tk2, ts3)) => match text(src, span) {
                Err(r) => Err(r),
                Ok(owner) => match text(src, tk2.range) {
                    Err(r) => Err(r),
                    Ok(name) => Ok(((NameV { owner: Some(owner), name }, spec_join(span, tk2.range)), ts3)),
                },
            },
        }
    } else {
        match text(src, span) {
            Err(r) => Err(r),
            Ok(name) => Ok(((NameV { owner: None, name }, span), ts1)),
        }
    }
}

/// `Int(32)`, `Boolean`, `String`, `Unit`, `C` or `M.C`.
#[verifier::opaque]
pub open spec fn p_type<'a>(src: Seq<u8>, ts: TokenIter<'a>) -> Parsed<'a, NTypeV> {
    let (t1, ts1) = ts.spec_pop();
    match t1.kind {
        TokenKind::TypInt => match expect(ts1, TokenKind::OpenParen, "The `Int` type must be applied to an integer size value."@) {
            Err(r) => Err(r),
            Ok((_, ts2)) => match expect(ts2, TokenKind::LitInt, "Expected an integer literal for the `Int` type."@) {
                Err(r) => Err(r),
                Ok((size, ts3)) => if src.subrange(size.range.start as int, size.range.end as int) == seq![51u8, 50u8] {
                    match expect(ts3, TokenKind::CloseParen, "Expected a closing parenthesis."@) {
                        Err(r) => Err(r),
                        Ok((cp, ts4)) => Ok((NTypeV::Int(spec_join(t1.range, cp.range)), ts4)),
                    }
                } else {
                    perr(size.range, "Only size `32` is supported for integer literals."@)
                },
            },
        },
        TokenKind::TypBoolean => Ok((NTypeV::Bool(t1.range), ts1)),
        TokenKind::TypString => Ok((NTypeV::Str(t1.range), ts1)),
        TokenKind::TypUnit => Ok((NTypeV::Unit(t1.range), ts1)),
        TokenKind::Identifier => {
            let (t2, ts2) = ts1.spec_peek();
            if t2.kind == TokenKind::Dot {
                match text(src, t1.range) {
                    Err(r) => Err(r),
                    Ok(owner) => match expect(ts2.spec_pop().1, TokenKind::Identifier, "Expected a valid identifier as part of a qualified name."@) {
                        Err(r) => Err(r),
                        Ok((typ2, ts3)) => match text(src, typ2.range) {
                            Err(r) => Err(r),
                            Ok(name) => Ok((NTypeV::Id(NameV { owner: Some(owner), name }, Seq::empty(), spec_join(t1.range, typ2.range)), ts3)),
                        },
                    },
                }
            } else {
                match text(src, t1.range) {
                    Err(r) => Err(r),
                    Ok(name) => Ok((NTypeV::Id(NameV { owner: None, name }, Seq::empty(), t1.range), ts2)),
                }
            }
        },
        _ => perr(t1.range, "Expected either a primitive type (`Int`, `Boolean`, `String`, or `Unit`), or an identifier."@),
    }
}

// ---------------------------------------------------------------------------------------------
// Patterns
// ---------------------------------------------------------------------------------------------

/// `_`, a literal, `()`, a variable, or `C(p, ..)` / `M.C(p, ..)`.
pub open spec fn p_pattern<'a>(src: Seq<u8>, ts: TokenIter<'a>) -> Parsed<'a, PV>
    decreases ts.measure(), 2nat,
{
    let (tk, ts1) = ts.spec_pop();
    match tk.kind {
        TokenKind::Underscore => Ok((PatV::Wildcard(tk.range), ts1)),
        TokenKind::LitTrue => Ok((PatV::BoolPattern(true, tk.range), ts1)),
        TokenKind::LitFalse => Ok((PatV::BoolPattern(false, tk.range), ts1)),
        TokenKind::LitInt => match int_lit(src, tk.range) {
            Err(r) => Err(r),
            Ok(v) => Ok((PatV::IntPattern(v, tk.range), ts1)),
        },
        TokenKind::LitString => match text(src, inner(tk.range)) {
            Err(r) => Err(r),
            Ok(val) => Ok((PatV::StringPattern(val, tk.range), ts1)),
        },
        TokenKind::OpenParen => {
            let (cp, ts2) = ts1.spec_peek();
            if cp.kind == TokenKind::CloseParen {
                Ok((PatV::UnitPattern(spec_join(tk.range, cp.range)), ts2.spec_pop().1))
            } else {
                perr(cp.range, "Expected a closing parenthesis to finish the unit literal pattern."@)
            }
        },
        TokenKind::Identifier => match p_name(src, ts1, tk.range) {
            Err(r) => Err(r),
            Ok(((qname, idrange), ts2)) => {
                let (next, ts3) = ts2.spec_peek();
                if next.kind == TokenKind::OpenParen {
                    let ts4 = ts3.spec_pop().1;
                    if ts4.measure() < ts.measure() {
                        match p_pattern_list(src, ts4) {
                            Err(r) => Err(r),
                            Ok((argpats, ts5)) => match expect(ts5, TokenKind::CloseParen, "Expected a closing parenthesis at the end of a pattern list"@) {
                                Err(r) => Err(r),
                                Ok((cp, ts6)) => Ok((PatV::ClassPattern(qname, argpats, spec_join(idrange, cp.range)), ts6)),
                            },
                        }
                    } else {
                        stuck(ts)
                    }
                } else if qname.owner is None {
                    Ok((PatV::IdPattern(qname, idrange), ts3))
                } else {
                    perr(idrange, "Variable names cannot be quantified."@)
                }
            },
        },
        _ => perr(tk.range, "Undexpected token of kind "@ + kind_name(tk.kind)),
    }
}

/// A possibly empty list of patterns, up to (not including) the closing parenthesis.
pub open spec fn p_pattern_list<'a>(src: Seq<u8>, ts: TokenIter<'a>) -> Parsed<'a, Seq<PV>>
    decreases ts.measure(), 4nat,
{
    let (t, ts1) = ts.spec_peek();
    if t.kind == TokenKind::CloseParen {
        Ok((Seq::empty(), ts1))
    } else if ts1.measure() <= ts.measure() {
        p_many_patterns(src, ts1)
    } else {
        stuck(ts)
    }
}

/// A non-empty comma-separated list of patterns, up to the closing parenthesis.
pub open spec fn p_many_patterns<'a>(src: Seq<u8>, ts: TokenIter<'a>) -> Parsed<'a, Seq<PV>>
    decreases ts.measure(), 3nat,
{
    match p_pattern(src, ts) {
        Err(r) => Err(r),
        Ok((pat, ts1)) => {
            let (delim, ts2) = ts1.spec_peek();
            if delim.kind == TokenKind::Comma {
                let ts3 = ts2.spec_pop().1;
                if ts3.measure() < ts.measure() {
                    match p_many_patterns(src, ts3) {
                        Err(r) => Err(r),
                        Ok((rest, ts4)) => Ok((rest.push(pat), ts4)),
                    }
                } else {
                    stuck(ts)
                }
            } else if delim.kind == TokenKind::CloseParen {
                Ok((seq![pat], ts2))
            } else {
                perr(delim.range, "Expected either a comma separator of a closing parenthesis"@)
            }
        },
    }
}

// ---------------------------------------------------------------------------------------------
// Expressions
// ---------------------------------------------------------------------------------------------

/// The binary operators.
pub enum BinOp {
    Or,
    And,
    Equals,
    LessThan,
    LessEquals,
    Plus,
    Minus,
    Concat,
    Times,
    Div,
    Mod,
}

/// The expression `l op r`.
pub open spec fn binop_v(op: BinOp, l: EV, r: EV) -> EV {
    let (bl, br) = (Box::new(l), Box::new(r));
    match op {
        BinOp::Or => ExprV::Or(bl, br),
        BinOp::And => ExprV::And(bl, br),
        BinOp::Equals => ExprV::Equals(bl, br),
        BinOp::LessThan => ExprV::LessThan(bl, br),
        BinOp::LessEquals => ExprV::LessEquals(bl, br),
        BinOp::Plus => ExprV::Plus(bl, br),
        BinOp::Minus => ExprV::Minus(bl, br),
        BinOp::Concat => ExprV::Concat(bl, br),
        BinOp::Times => ExprV::Times(bl, br),
        BinOp::Div => ExprV::Div(bl, br),
        BinOp::Mod => ExprV::Mod(bl, br),
    }
}

/// The operator that `k` denotes at precedence `level` (`||` 6, `&&` 5, `==` 4, `<` and `<=`
/// 3, `+`, `-` and `++` 2, `*`, `/` and `%` 1).
pub open spec fn infix_op(level: u8, k: TokenKind) -> Option<BinOp> {
    match k {
        TokenKind::PipePipe if level == 6 => Some(BinOp::Or),
        TokenKind::AndAnd if level == 5 => Some(BinOp::And),
        TokenKind::EqualEqual if level == 4 => Some(BinOp::Equals),
        TokenKind::Less if level == 3 => Some(BinOp::LessThan),
        TokenKind::LessEquals if level == 3 => Some(BinOp::LessEquals),
        TokenKind::Plus if level == 2 => Some(BinOp::Plus),
        TokenKind::Minus if level == 2 => Some(BinOp::Minus),
        TokenKind::PlusPlus if level == 2 => Some(BinOp::Concat),
        TokenKind::Star if level == 1 => Some(BinOp::Times),
        TokenKind::Slash if level == 1 => Some(BinOp::Div),
        TokenKind::Percent if level == 1 => Some(BinOp::Mod),
        _ => None,
    }
}

/// After a `match` expression (or at its start), an operator and the level at which its
/// right operand is read.
pub open spec fn tail_op(k: TokenKind) -> Option<(u8, BinOp)> {
    match k {
        TokenKind::PipePipe => Some((5u8, BinOp::Or)),
        TokenKind::AndAnd => Some((4u8, BinOp::And)),
        TokenKind::EqualEqual => Some((3u8, BinOp::Equals)),
        TokenKind::Less => Some((2u8, BinOp::LessThan)),
        TokenKind::LessEquals => Some((2u8, BinOp::LessEquals)),
        TokenKind::Plus => Some((1u8, BinOp::Plus)),
        TokenKind::Minus => Some((1u8, BinOp::Minus)),
        TokenKind::PlusPlus => Some((1u8, BinOp::Concat)),
        TokenKind::Star => Some((0u8, BinOp::Times)),
        TokenKind::Slash => Some((0u8, BinOp::Div)),
        TokenKind::Percent => Some((0u8, BinOp::Mod)),
        _ => None,
    }
}

/// One or more atomic expressions separated by `;`.
pub open spec fn p_expr<'a>(src: Seq<u8>, ts: TokenIter<'a>) -> Parsed<'a, EV>
    decreases ts.measure(), 1000nat,
{
    match p_atomic(src, ts) {
        Err(r) => Err(r),
        Ok((cur, ts1)) => {
            let (t, ts2) = ts1.spec_peek();
            if t.kind == TokenKind::Semicolon {
                let ts3 = ts2.spec_pop().1;
                if ts3.measure() < ts.measure() {
                    match p_expr(src, ts3) {
                        Err(r) => Err(r),
                        Ok((rest, ts4)) => Ok((ExprV::Sequence(Box::new(cur), Box::new(rest)), ts4)),
                    }
                } else {
                    stuck(ts)
                }
            } else {
                Ok((cur, ts2))
            }
        },
    }
}

/// `val x: T = e; body`, `if (c) then a else b end if`, or an expression with operators and
/// `match`.
pub open spec fn p_atomic<'a>(src: Seq<u8>, ts: TokenIter<'a>) -> Parsed<'a, EV>
    decreases ts.measure(), 999nat,
{
    let (t1, ts1) = ts.spec_peek();
    let ts2 = ts1.spec_pop().1;
    if t1.kind == TokenKind::KwVal {
        if ts2.measure() < ts.measure() {
            p_val(src, t1, ts2)
        } else {
            stuck(ts)
        }
    } else if t1.kind == TokenKind::KwIf {
        if ts2.measure() < ts.measure() {
            p_if(src, t1, ts2)
        } else {
            stuck(ts)
        }
    } else if ts1.measure() <= ts.measure() {
        p_with_match(src, ts1)
    } else {
        stuck(ts)
    }
}

/// `x: T = e; body` after the keyword `val` (the token `t1`).
pub open spec fn p_val<'a>(src: Seq<u8>, t1: Token, ts: TokenIter<'a>) -> Parsed<'a, EV>
    decreases ts.measure(), 990nat,
{
    match expect(ts, TokenKind::Identifier, "Expected a variable identifier after `val`."@) {
        Err(r) => Err(r),
        Ok((var_token, ts3)) => match text(src, var_token.range) {
            Err(r) => Err(r),
            Ok(var_name) => match expect(ts3, TokenKind::Colon, "Expected a colon after the variable name."@) {
                Err(r) => Err(r),
                Ok((_, ts4)) => match p_type(src, ts4) {
                    Err(r) => Err(r),
                    Ok((var_type, ts5)) => match expect(ts5, TokenKind::Equal, "Expected an equal sign after the variable type"@) {
                        Err(r) => Err(r),
                        Ok((_, ts6)) => if ts6.measure() < ts.measure() {
                            match p_expr(src, ts6) {
                                Err(r) => Err(r),
                                Ok((var_expr, ts7)) => match expect(ts7, TokenKind::Semicolon, "Expected a semicolon after a `val` declaration."@) {
                                    Err(r) => Err(r),
                                    Ok((sc, ts8)) => if ts8.measure() < ts.measure() {
                                        match p_expr(src, ts8) {
                                            Err(r) => Err(r),
                                            Ok((body, ts9)) => Ok((ExprV::Let(NameV { owner: None, name: var_name }, var_type, Box::new(var_expr), Box::new(body), spec_join(t1.range, sc.range)), ts9)),
                                        }
                                    } else {
                                        stuck(ts)
                                    },
                                },
                            }
                        } else {
                            stuck(ts)
                        },
                    },
                },
            },
        },
    }
}

/// `(c) then a else b end if` after the keyword `if` (the token `t1`).
pub open spec fn p_if<'a>(src: Seq<u8>, t1: Token, ts: TokenIter<'a>) -> Parsed<'a, EV>
    decreases ts.measure(), 990nat,
{
    match expect(ts, TokenKind::OpenParen, "Expected an opening parenthesis after the `if` keyword"@) {
        Err(r) => Err(r),
        Ok((_, ts3)) => if ts3.measure() < ts.measure() {
            match p_expr(src, ts3) {
                Err(r) => Err(r),
                Ok((cond, ts4)) => match expect(ts4, TokenKind::CloseParen, "Expected a closing parenthesis after the `if` condition"@) {
                    Err(r) => Err(r),
                    Ok((_, ts5)) => match expect(ts5, TokenKind::KwThen, "Expected the keyword `then`."@) {
                        Err(r) => Err(r),
                        Ok((_, ts6)) => if ts6.measure() < ts.measure() {
                            match p_expr(src, ts6) {
                                Err(r) => Err(r),
                                Ok((then_branch, ts7)) => match expect(ts7, TokenKind::KwElse, "Expected the keyword `else`."@) {
                                    Err(r) => Err(r),
                                    Ok((_, ts8)) => if ts8.measure() < ts.measure() {
                                        match p_expr(src, ts8) {
                                            Err(r) => Err(r),
                                            Ok((else_branch, ts9)) => match expect(ts9, TokenKind::KwEnd, "An `if` statement must terminate with `end if`"@) {
                                                Err(r) => Err(r),
                                                Ok((_, ts10)) => match expect(ts10, TokenKind::KwIf, "An `if` statement must terminate with `end if`"@) {
                                                    Err(r) => Err(r),
                                                    Ok((eif, ts11)) => Ok((ExprV::Ite(Box::new(cond), Box::new(then_branch), Box::new(else_branch), spec_join(t1.range, eif.range)), ts11)),
                                                },
                                            },
                                        }
                                    } else {
                                        stuck(ts)
                                    },
                                },
                            }
                        } else {
                            stuck(ts)
                        },
                    },
                },
            }
        } else {
            stuck(ts)
        },
    }
}

/// An expression with operators, possibly followed by `match { cases }` and more operators.
pub open spec fn p_with_match<'a>(src: Seq<u8>, ts: TokenIter<'a>) -> Parsed<'a, EV>
    decreases ts.measure(), 998nat,
{
    match p_infix(src, ts, 6) {
        Err(r) => Err(r),
        Ok((res, ts1)) => if ts1.measure() <= ts.measure() {
            p_match_tail(src, res, ts1)
        } else {
            stuck(ts)
        },
    }
}

/// What follows `res` in `p_with_match`: `match { cases }` or an operator with its right
/// operand, any number of times.
pub open spec fn p_match_tail<'a>(src: Seq<u8>, res: EV, ts: TokenIter<'a>) -> Parsed<'a, EV>
    decreases ts.measure(), 997nat,
{
    let (t, ts1) = ts.spec_peek();
    let ts2 = ts1.spec_pop().1;
    if t.kind == TokenKind::KwMatch {
        match expect(ts2, TokenKind::OpenCurly, "The `match` keyword must be followes by a curly bracket."@) {
            Err(r) => Err(r),
            Ok((_, ts3)) => if ts3.measure() < ts.measure() {
                p_cases(src, res, Seq::empty(), ts3)
            } else {
                stuck(ts)
            },
        }
    } else {
        match tail_op(t.kind) {
            Some((level, op)) => if ts2.measure() < ts.measure() {
                match p_infix(src, ts2, level) {
                    Err(r) => Err(r),
                    Ok((rhs, ts3)) => if ts3.measure() < ts.measure() {
                        p_match_tail(src, binop_v(op, res, rhs), ts3)
                    } else {
                        stuck(ts)
                    },
                }
            } else {
                stuck(ts)
            },
            None => Ok((res, ts1)),
        }
    }
}

/// The cases of `res match { .. }` after those in `cases`, up to the closing bracket, and
/// then the rest of `p_match_tail`.
pub open spec fn p_cases<'a>(src: Seq<u8>, res: EV, cases: Seq<(PV, EV)>, ts: TokenIter<'a>) -> Parsed<'a, EV>
    decreases ts.measure(), 996nat,
{
    let (tk, ts1) = ts.spec_pop();
    if tk.kind == TokenKind::CloseCurly {
        if ts1.measure() < ts.measure() {
            p_match_tail(src, ExprV::Match(Box::new(res), cases, tk.range), ts1)
        } else {
            stuck(ts)
        }
    } else if tk.kind == TokenKind::KwCase {
        if ts1.measure() < ts.measure() {
            match p_match_case(src, ts1) {
                Err(r) => Err(r),
                Ok((case, ts2)) => if ts2.measure() < ts.measure() {
                    p_cases(src, res, cases.push(case), ts2)
                } else {
                    stuck(ts)
                },
            }
        } else {
            stuck(ts)
        }
    } else {
        perr(tk.range, "Expected either a `case` keyword or a closing curly bracket"@)
    }
}

/// `pattern => expr` (the `case` keyword already read).
pub open spec fn p_match_case<'a>(src: Seq<u8>, ts: TokenIter<'a>) -> Parsed<'a, (PV, EV)>
    decreases ts.measure(), 995nat,
{
    match p_pattern(src, ts) {
        Err(r) => Err(r),
        Ok((pat, ts1)) => match expect(ts1, TokenKind::RightArrow, "A match pattern must be followed by a right arrow."@) {
            Err(r) => Err(r),
            Ok((_, ts2)) => if ts2.measure() < ts.measure() {
                match p_expr(src, ts2) {
                    Err(r) => Err(r),
                    Ok((e, ts3)) => Ok(((pat, e), ts3)),
                }
            } else {
                stuck(ts)
            },
        },
    }
}

/// An expression whose operators have precedence at most `level` (left-associative).
pub open spec fn p_infix<'a>(src: Seq<u8>, ts: TokenIter<'a>, level: u8) -> Parsed<'a, EV>
    decreases ts.measure(), 21 + 2 * level,
{
    if level == 0 {
        p_unary(src, ts)
    } else {
        match p_infix(src, ts, (level - 1) as u8) {
            Err(r) => Err(r),
            Ok((res, ts1)) => if ts1.measure() <= ts.measure() {
                p_infix_tail(src, level, res, ts1)
            } else {
                stuck(ts)
            },
        }
    }
}

/// What follows `res` in `p_infix` at `level`: operators of that level with their right
/// operands.
pub open spec fn p_infix_tail<'a>(src: Seq<u8>, level: u8, res: EV, ts: TokenIter<'a>) -> Parsed<'a, EV>
    decreases ts.measure(), 20 + 2 * level,
{
    let (t, ts1) = ts.spec_peek();
    match infix_op(level, t.kind) {
        Some(op) => {
            let ts2 = ts1.spec_pop().1;
            if ts2.measure() < ts.measure() {
                match p_infix(src, ts2, (level - 1) as u8) {
                    Err(r) => Err(r),
                    Ok((rhs, ts3)) => if ts3.measure() < ts.measure() {
                        p_infix_tail(src, level, binop_v(op, res, rhs), ts3)
                    } else {
                        stuck(ts)
                    },
                }
            } else {
                stuck(ts)
            }
        },
        None => Ok((res, ts1)),
    }
}

/// No operator of a level from 1 to `level` is of kind `k`.
pub open spec fn no_op_up_to(k: TokenKind, level: u8) -> bool {
    forall|l: u8| 1 <= l <= level ==> infix_op(l, k) is None
}

proof fn lemma_infix_stops(src: Seq<u8>, ts: TokenIter, level: u8)
    requires
        level <= 6,
    ensures
        p_infix(src, ts, level) matches Ok((_, after)) ==> no_op_up_to(after.next_token().kind, level),
    decreases ts.measure(), 21 + 2 * level,
{
    if level > 0 {
        let lower = (level - 1) as u8;
        lemma_infix_stops(src, ts, lower);
        match p_infix(src, ts, lower) {
            Ok((res, ts1)) => {
                if ts1.measure() <= ts.measure() {
                    lemma_tail_stops(src, level, res, ts1);
                }
            },
            Err(_) => {},
        }
    }
}

proof fn lemma_tail_stops(src: Seq<u8>, level: u8, res: EV, ts: TokenIter)
    requires
        1 <= level <= 6,
        no_op_up_to(ts.next_token().kind, (level - 1) as u8),
    ensures
        p_infix_tail(src, level, res, ts) matches Ok((_, after)) ==> no_op_up_to(after.next_token().kind, level),
    decreases ts.measure(), 20 + 2 * level,
{
    ts.lemma_pop_lexes();
    let (t, ts1) = ts.spec_peek();
    ts1.lemma_pop_lexes();
    match infix_op(level, t.kind) {
        Some(op) => {
            let ts2 = ts1.spec_pop().1;
            if ts2.measure() < ts.measure() {
                let lower = (level - 1) as u8;
                lemma_infix_stops(src, ts2, lower);
                match p_infix(src, ts2, lower) {
                    Ok((rhs, ts3)) => {
                        if ts3.measure() < ts.measure() {
                            lemma_tail_stops(src, level, binop_v(op, res, rhs), ts3);
                        }
                    },
                    Err(_) => {},
                }
            }
        },
        None => {
            assert forall|l: u8| 1 <= l <= level implies infix_op(l, ts1.next_token().kind) is None by {
                if l < level {
                    assert(infix_op(l, ts.next_token().kind) is None);
                }
            }
        },
    }
}

/// Operators of lower levels bind tighter: an expression read at `level` (`||` 6, `&&` 5,
/// `==` 4, `<` and `<=` 3, `+`, `-` and `++` 2, `*`, `/` and `%` 1) stops only before a token
/// that is no operator of `level` or of any lower level, so every such operator met on the
/// way was taken into the expression.
pub proof fn law_infix_precedence(src: Seq<u8>, ts: TokenIter, level: u8)
    requires
        level <= 6,
    ensures
        p_infix(src, ts, level) matches Ok((_, after)) ==> forall|l: u8|
            1 <= l <= level ==> (#[trigger] infix_op(l, after.next_token().kind)) is None,
{
    lemma_infix_stops(src, ts, level);
}

/// Operators of one level associate to the left: when an operator of `level` follows what
/// was read so far (`res`), the two are combined with the next operand, read at the level
/// below, before anything after it is read.
pub proof fn law_infix_left_assoc(src: Seq<u8>, level: u8, res: EV, ts: TokenIter)
    requires
        1 <= level <= 6,
        infix_op(level, ts.next_token().kind) is Some,
    ensures
        p_infix_tail(src, level, res, ts) is Ok ==> {
            let op = infix_op(level, ts.next_token().kind)->0;
            let operand = ts.spec_peek().1.spec_pop().1;
            &&& p_infix(src, operand, (level - 1) as u8) is Ok
            &&& p_infix_tail(src, level, res, ts) == p_infix_tail(
                src,
                level,
                binop_v(op, res, p_infix(src, operand, (level - 1) as u8)->Ok_0.0),
                p_infix(src, operand, (level - 1) as u8)->Ok_0.1,
            )
        },
{
    ts.lemma_pop_lexes();
}

/// The level of an operator token (`||` 6, `&&` 5, `==` 4, `<` and `<=` 3, `+`, `-` and `++`
/// 2, `*`, `/` and `%` 1), or 0 for any other token.
pub open spec fn token_level(k: TokenKind) -> u8 {
    match k {
        TokenKind::PipePipe => 6,
        TokenKind::AndAnd => 5,
        TokenKind::EqualEqual => 4,
        TokenKind::Less | TokenKind::LessEquals => 3,
        TokenKind::Plus | TokenKind::Minus | TokenKind::PlusPlus => 2,
        TokenKind::Star | TokenKind::Slash | TokenKind::Percent => 1,
        _ => 0,
    }
}

/// The expression that the operator token `k` builds from its operands `a` and `b`.
pub open spec fn operator_expr(k: TokenKind, a: EV, b: EV) -> EV {
    let (ba, bb) = (Box::new(a), Box::new(b));
    match k {
        TokenKind::PipePipe => ExprV::Or(ba, bb),
        TokenKind::AndAnd => ExprV::And(ba, bb),
        TokenKind::EqualEqual => ExprV::Equals(ba, bb),
        TokenKind::Less => ExprV::LessThan(ba, bb),
        TokenKind::LessEquals => ExprV::LessEquals(ba, bb),
        TokenKind::Plus => ExprV::Plus(ba, bb),
        TokenKind::Minus => ExprV::Minus(ba, bb),
        TokenKind::PlusPlus => ExprV::Concat(ba, bb),
        TokenKind::Star => ExprV::Times(ba, bb),
        TokenKind::Slash => ExprV::Div(ba, bb),
        _ => ExprV::Mod(ba, bb),
    }
}

/// Each operator token builds its own operator at its own level: while reading operators of
/// `level` after `res`, an operator token of that level is combined with `res` and the next
/// operand (read at the level below) into the expression that the token names, and any other
/// token ends the expression, unread.
pub proof fn law_infix_operators(src: Seq<u8>, level: u8, res: EV, ts: TokenIter)
    requires
        1 <= level <= 6,
    ensures
        ({
            let k = ts.next_token().kind;
            let operand = ts.spec_peek().1.spec_pop().1;
            let rhs = p_infix(src, operand, (level - 1) as u8);
            &&& token_level(k) == level && p_infix_tail(src, level, res, ts) is Ok ==> {
                &&& rhs is Ok
                &&& p_infix_tail(src, level, res, ts) == p_infix_tail(src, level, operator_expr(k, res, rhs->Ok_0.0), rhs->Ok_0.1)
            }
            &&& token_level(k) != level ==> p_infix_tail(src, level, res, ts) == Ok::<(EV, TokenIter), ReportV>((res, ts.spec_peek().1))
        }),
{
    ts.lemma_pop_lexes();
}

/// After a `match` expression, or at the start of one, an operator token is combined with
/// what was read so far and the next operand, read below the token's level, into the
/// expression that the token names.
pub proof fn law_match_tail_operators(src: Seq<u8>, res: EV, ts: TokenIter)
    ensures
        ({
            let k = ts.next_token().kind;
            let operand = ts.spec_peek().1.spec_pop().1;
            let rhs = p_infix(src, operand, (token_level(k) - 1) as u8);
            token_level(k) > 0 && p_match_tail(src, res, ts) is Ok ==> {
                &&& rhs is Ok
                &&& p_match_tail(src, res, ts) == p_match_tail(src, operator_expr(k, res, rhs->Ok_0.0), rhs->Ok_0.1)
            }
        }),
{
    ts.lemma_pop_lexes();
}

/// Each token that starts a pattern on its own gives its own pattern, over its own span:
/// `_` the wildcard, `true` and `false` the boolean patterns, an integer literal the integer
/// pattern of its value, and a string literal the string pattern of the text between its
/// quotes.
pub proof fn law_pattern_tokens(src: Seq<u8>, ts: TokenIter)
    ensures
        ({
            let (tk, rest) = ts.spec_pop();
            &&& tk.kind == TokenKind::Underscore ==> p_pattern(src, ts) == Ok::<(PV, TokenIter), ReportV>((PatV::Wildcard(tk.range), rest))
            &&& tk.kind == TokenKind::LitTrue ==> p_pattern(src, ts) == Ok::<(PV, TokenIter), ReportV>((PatV::BoolPattern(true, tk.range), rest))
            &&& tk.kind == TokenKind::LitFalse ==> p_pattern(src, ts) == Ok::<(PV, TokenIter), ReportV>((PatV::BoolPattern(false, tk.range), rest))
            &&& tk.kind == TokenKind::LitInt && int_lit(src, tk.range) is Ok ==> p_pattern(src, ts)
                == Ok::<(PV, TokenIter), ReportV>((PatV::IntPattern(int_lit(src, tk.range)->Ok_0, tk.range), rest))
            &&& tk.kind == TokenKind::LitString && text(src, inner(tk.range)) is Ok ==> p_pattern(src, ts)
                == Ok::<(PV, TokenIter), ReportV>((PatV::StringPattern(text(src, inner(tk.range))->Ok_0, tk.range), rest))
        }),
{
}

/// Each literal token gives its own literal over its own span, and a leading `-` or `!`
/// applies negation or logical not to the simple expression that follows it.
pub proof fn law_prefix_and_literals(src: Seq<u8>, ts: TokenIter)
    requires
        ts.wf(),
    ensures
        ({
            let (tk, rest) = ts.spec_pop();
            &&& tk.kind == TokenKind::LitTrue ==> p_simple(src, ts) == Ok::<(EV, TokenIter), ReportV>((ExprV::BoolLiteral(true, tk.range), rest))
            &&& tk.kind == TokenKind::LitFalse ==> p_simple(src, ts) == Ok::<(EV, TokenIter), ReportV>((ExprV::BoolLiteral(false, tk.range), rest))
            &&& tk.kind == TokenKind::LitInt && int_lit(src, tk.range) is Ok ==> p_simple(src, ts)
                == Ok::<(EV, TokenIter), ReportV>((ExprV::IntLiteral(int_lit(src, tk.range)->Ok_0, tk.range), rest))
            &&& tk.kind == TokenKind::LitString && text(src, inner(tk.range)) is Ok ==> p_simple(src, ts)
                == Ok::<(EV, TokenIter), ReportV>((ExprV::StringLiteral(text(src, inner(tk.range))->Ok_0, tk.range), rest))
            &&& tk.kind == TokenKind::Minus && p_simple(src, rest) is Ok ==> p_unary(src, ts)
                == Ok::<(EV, TokenIter), ReportV>((ExprV::Neg(Box::new(p_simple(src, rest)->Ok_0.0), tk.range), p_simple(src, rest)->Ok_0.1))
            &&& tk.kind == TokenKind::Bang && p_simple(src, rest) is Ok ==> p_unary(src, ts)
                == Ok::<(EV, TokenIter), ReportV>((ExprV::Not(Box::new(p_simple(src, rest)->Ok_0.0), tk.range), p_simple(src, rest)->Ok_0.1))
        }),
{
    ts.lemma_pop();
    let (tk, rest) = ts.spec_pop();
    if tk.kind == TokenKind::Minus || tk.kind == TokenKind::Bang {
        assert(ts.spec_peek().1.spec_pop().1 == rest);
        assert(rest.measure() < ts.measure());
    } else if tk.kind == TokenKind::LitTrue || tk.kind == TokenKind::LitFalse || tk.kind == TokenKind::LitInt
        || tk.kind == TokenKind::LitString {
        assert(p_simple(src, ts) == p_literal(src, tk, rest));
    }
}

/// `-e`, `!e` or a simple expression.
pub open spec fn p_unary<'a>(src: Seq<u8>, ts: TokenIter<'a>) -> Parsed<'a, EV>
    decreases ts.measure(), 10nat,
{
    let (op, ts1) = ts.spec_peek();
    let ts2 = ts1.spec_pop().1;
    if op.kind == TokenKind::Minus || op.kind == TokenKind::Bang {
        if ts2.measure() < ts.measure() {
            match p_simple(src, ts2) {
                Err(r) => Err(r),
                Ok((operand, ts3)) => if op.kind == TokenKind::Minus {
                    Ok((ExprV::Neg(Box::new(operand), op.range), ts3))
                } else {
                    Ok((ExprV::Not(Box::new(operand), op.range), ts3))
                },
            }
        } else {
            stuck(ts)
        }
    } else if ts1.measure() <= ts.measure() {
        p_simple(src, ts1)
    } else {
        stuck(ts)
    }
}

/// A literal, `error(e)`, a variable, a call `f(a, ..)` / `M.f(a, ..)`, or `(e)`.
pub open spec fn p_simple<'a>(src: Seq<u8>, ts: TokenIter<'a>) -> Parsed<'a, EV>
    decreases ts.measure(), 9nat,
{
    let (tk, ts1) = ts.spec_pop();
    if tk.kind == TokenKind::KwError || tk.kind == TokenKind::Identifier || tk.kind == TokenKind::OpenParen {
        if ts1.measure() < ts.measure() {
            if tk.kind == TokenKind::KwError {
                p_error_call(src, tk, ts1)
            } else if tk.kind == TokenKind::Identifier {
                p_ident(src, tk, ts1)
            } else {
                p_paren(src, ts1)
            }
        } else {
            stuck(ts)
        }
    } else {
        p_literal(src, tk, ts1)
    }
}

/// A literal (the token `tk`, already popped), or the report for a token that cannot start
/// a simple expression.
pub open spec fn p_literal<'a>(src: Seq<u8>, tk: Token, ts: TokenIter<'a>) -> Parsed<'a, EV> {
    match tk.kind {
        TokenKind::LitInt => match int_lit(src, tk.range) {
            Err(r) => Err(r),
            Ok(v) => Ok((ExprV::IntLiteral(v, tk.range), ts)),
        },
        TokenKind::LitTrue => Ok((ExprV::BoolLiteral(true, tk.range), ts)),
        TokenKind::LitFalse => Ok((ExprV::BoolLiteral(false, tk.range), ts)),
        TokenKind::LitString => match text(src, inner(tk.range)) {
            Err(r) => Err(r),
            Ok(s) => Ok((ExprV::StringLiteral(s, tk.range), ts)),
        },
        _ => perr(tk.range, "Unexpected token kind for a simple expression: "@ + kind_name(tk.kind)),
    }
}

/// `(e)` after the keyword `error` (the token `tk`).
pub open spec fn p_error_call<'a>(src: Seq<u8>, tk: Token, ts: TokenIter<'a>) -> Parsed<'a, EV>
    decreases ts.measure(), 990nat,
{
    match expect(ts, TokenKind::OpenParen, "The `error` keyword must be followed by an open parenthesis"@) {
        Err(r) => Err(r),
        Ok((_, ts2)) => if ts2.measure() < ts.measure() {
            match p_expr(src, ts2) {
                Err(r) => Err(r),
                Ok((arg, ts3)) => match expect(ts3, TokenKind::CloseParen, "Expected a closed parenthesis here."@) {
                    Err(r) => Err(r),
                    Ok((cp, ts4)) => Ok((ExprV::Error(Box::new(arg), spec_join(tk.range, cp.range)), ts4)),
                },
            }
        } else {
            stuck(ts)
        },
    }
}

/// A variable or a call, whose first identifier (the token `tk`) was just popped.
pub open spec fn p_ident<'a>(src: Seq<u8>, tk: Token, ts: TokenIter<'a>) -> Parsed<'a, EV>
    decreases ts.measure(), 990nat,
{
    match p_name(src, ts, tk.range) {
        Err(r) => Err(r),
        Ok(((qname, idrange), ts2)) => {
            let (next, ts3) = ts2.spec_peek();
            if next.kind == TokenKind::OpenParen {
                let ts4 = ts3.spec_pop().1;
                if ts4.measure() < ts.measure() {
                    match p_expr_list(src, ts4) {
                        Err(r) => Err(r),
                        Ok((args, ts5)) => match expect(ts5, TokenKind::CloseParen, "Expected a closing parenthesis at the end of a pattern list"@) {
                            Err(r) => Err(r),
                            Ok((cp, ts6)) => Ok((ExprV::Call(qname, args, spec_join(tk.range, cp.range)), ts6)),
                        },
                    }
                } else {
                    stuck(ts)
                }
            } else if qname.owner is None {
                Ok((ExprV::Variable(qname, idrange), ts3))
            } else {
                perr(idrange, "Variable names cannot be quantified."@)
            }
        },
    }
}

/// `e)` after an opening parenthesis.
pub open spec fn p_paren<'a>(src: Seq<u8>, ts: TokenIter<'a>) -> Parsed<'a, EV>
    decreases ts.measure(), 1005nat,
{
    match p_expr(src, ts) {
        Err(r) => Err(r),
        Ok((e, ts2)) => match expect(ts2, TokenKind::CloseParen, "Expected a closing parenthesis here."@) {
            Err(r) => Err(r),
            Ok((_, ts3)) => Ok((e, ts3)),
        },
    }
}

/// A possibly empty comma-separated list of expressions, up to the closing parenthesis.
pub open spec fn p_expr_list<'a>(src: Seq<u8>, ts: TokenIter<'a>) -> Parsed<'a, Seq<EV>>
    decreases ts.measure(), 1002nat,
{
    let (t, ts1) = ts.spec_peek();
    if t.kind == TokenKind::CloseParen {
        Ok((Seq::empty(), ts1))
    } else if ts1.measure() <= ts.measure() {
        p_many_exprs(src, ts1)
    } else {
        stuck(ts)
    }
}

/// A non-empty comma-separated list of expressions, up to the closing parenthesis.
pub open spec fn p_many_exprs<'a>(src: Seq<u8>, ts: TokenIter<'a>) -> Parsed<'a, Seq<EV>>
    decreases ts.measure(), 1001nat,
{
    match p_expr(src, ts) {
        Err(r) => Err(r),
        Ok((cur, ts1)) => {
            let (delim, ts2) = ts1.spec_peek();
            if delim.kind == TokenKind::Comma {
                let ts3 = ts2.spec_pop().1;
                if ts3.measure() < ts.measure() {
                    match p_many_exprs(src, ts3) {
                        Err(r) => Err(r),
                        Ok((rest, ts4)) => Ok((rest.push(cur), ts4)),
                    }
                } else {
                    stuck(ts)
                }
            } else if delim.kind == TokenKind::CloseParen {
                Ok((seq![cur], ts2))
            } else {
                perr(delim.range, "Expected either a comma separator of a closing parenthesis"@)
            }
        },
    }
}

// ---------------------------------------------------------------------------------------------
// Definitions and modules
// ---------------------------------------------------------------------------------------------

/// `name: T`.
#[verifier::opaque]
pub open spec fn p_argument<'a>(src: Seq<u8>, ts: TokenIter<'a>) -> Parsed<'a, ArgV> {
    match expect(ts, TokenKind::Identifier, "An argument must have a valid name identifier."@) {
        Err(r) => Err(r),
        Ok((id, ts1)) => match text(src, id.range) {
            Err(r) => Err(r),
            Ok(name) => match expect(ts1, TokenKind::Colon, "Expected a colon after the argument name."@) {
                Err(r) => Err(r),
                Ok((_, ts2)) => match p_type(src, ts2) {
                    Err(r) => Err(r),
                    Ok((typ, ts3)) => Ok(((name, typ), ts3)),
                },
            },
        },
    }
}

/// A non-empty comma-separated list of arguments, with the closing parenthesis.
pub open spec fn p_many_arguments<'a>(src: Seq<u8>, ts: TokenIter<'a>) -> Parsed<'a, Seq<ArgV>>
    decreases ts.measure(),
{
    match p_argument(src, ts) {
        Err(r) => Err(r),
        Ok((arg, ts1)) => {
            let (delim, ts2) = ts1.spec_pop();
            if delim.kind == TokenKind::Comma {
                if ts2.measure() < ts.measure() {
                    match p_many_arguments(src, ts2) {
                        Err(r) => Err(r),
                        Ok((lst, ts3)) => Ok((lst.push(arg), ts3)),
                    }
                } else {
                    stuck(ts)
                }
            } else if delim.kind == TokenKind::CloseParen {
                Ok((seq![arg], ts2))
            } else {
                perr(delim.range, "Expected either a comma separator of a closing parenthesis"@)
            }
        },
    }
}

/// `(args)` or `()`.
#[verifier::opaque]
pub open spec fn p_arglist<'a>(src: Seq<u8>, ts: TokenIter<'a>) -> Parsed<'a, Seq<ArgV>> {
    match expect(ts, TokenKind::OpenParen, "Expected an opening parenthesis to start the argument list."@) {
        Err(r) => Err(r),
        Ok((_, ts1)) => {
            let (t, ts2) = ts1.spec_peek();
            if t.kind == TokenKind::CloseParen {
                Ok((Seq::empty(), ts2.spec_pop().1))
            } else {
                p_many_arguments(src, ts2)
            }
        },
    }
}

/// The model of a definition of a module.
pub enum DefV {
    Abst(AbstDefV),
    Class(ClassDefV),
    Fun(FunDefV),
}

/// `abstract class C`, `case class C(args) extends P`, or `def f(args): T := body end f`.
pub open spec fn p_definition<'a>(src: Seq<u8>, ts: TokenIter<'a>) -> Parsed<'a, DefV> {
    let (kw, ts1) = ts.spec_pop();
    if kw.kind == TokenKind::KwDef {
        p_fun_def(src, ts1)
    } else if kw.kind == TokenKind::KwAbstract {
        p_abstract_def(src, ts1)
    } else if kw.kind == TokenKind::KwCase {
        p_case_def(src, ts1)
    } else {
        perr(kw.range, "A module definition must start with either `def`, `abstract`, or `case`."@)
    }
}

/// `f(args): T := body end f` after the keyword `def`.
#[verifier::opaque]
pub open spec fn p_fun_def<'a>(src: Seq<u8>, ts: TokenIter<'a>) -> Parsed<'a, DefV> {
    match expect(ts, TokenKind::Identifier, "A function must have a valid name identifier."@) {
        Err(r) => Err(r),
        Ok((id1, ts2)) => match text(src, id1.range) {
            Err(r) => Err(r),
            Ok(name) => match p_arglist(src, ts2) {
                Err(r) => Err(r),
                Ok((args, ts3)) => match expect(ts3, TokenKind::Colon, "Expected a colon after the function argument list."@) {
                    Err(r) => Err(r),
                    Ok((_, ts4)) => match p_type(src, ts4) {
                        Err(r) => Err(r),
                        Ok((rt, ts5)) => match expect(ts5, TokenKind::ColonEqual, "Expected `:=` after the function return type."@) {
                            Err(r) => Err(r),
                            Ok((_, ts6)) => match p_expr(src, ts6) {
                                Err(r) => Err(r),
                                Ok((body, ts7)) => match expect(ts7, TokenKind::KwEnd, "A function body must be followed by the `end` keyword."@) {
                                    Err(r) => Err(r),
                                    Ok((_, ts8)) => match expect(ts8, TokenKind::Identifier, "A function definition must have its name after the `end` keyword."@) {
                                        Err(r) => Err(r),
                                        Ok((id2, ts9)) => if !same_text(src, id2.range, id1.range) {
                                            perr(id2.range, "The names at the start and end of a function definition must match."@)
                                        } else {
                                            Ok((DefV::Fun(FunDefV { name, type_vars: Seq::empty(), args, rt, body, range: id1.range }), ts9))
                                        },
                                    },
                                },
                            },
                        },
                    },
                },
            },
        },
    }
}

/// `class C` after the keyword `abstract`.
#[verifier::opaque]
pub open spec fn p_abstract_def<'a>(src: Seq<u8>, ts: TokenIter<'a>) -> Parsed<'a, DefV> {
    match expect(ts, TokenKind::KwClass, "Expected the keyword `class` after `abstract`."@) {
        Err(r) => Err(r),
        Ok((_, ts2)) => match expect(ts2, TokenKind::Identifier, "An abstract class must have a valid name identifier."@) {
            Err(r) => Err(r),
            Ok((id, ts3)) => match text(src, id.range) {
                Err(r) => Err(r),
                Ok(name) => Ok((DefV::Abst(AbstDefV { name, type_vars: Seq::empty(), range: id.range }), ts3)),
            },
        },
    }
}

/// `class C(args) extends P` after the keyword `case`.
#[verifier::opaque]
pub open spec fn p_case_def<'a>(src: Seq<u8>, ts: TokenIter<'a>) -> Parsed<'a, DefV> {
    match expect(ts, TokenKind::KwClass, "Expected the keyword `class` after `case` in a definition."@) {
        Err(r) => Err(r),
        Ok((_, ts2)) => match expect(ts2, TokenKind::Identifier, "A function must have a valid name identifier."@) {
            Err(r) => Err(r),
            Ok((id, ts3)) => match text(src, id.range) {
                Err(r) => Err(r),
                Ok(name) => match p_arglist(src, ts3) {
                    Err(r) => Err(r),
                    Ok((args, ts4)) => match expect(ts4, TokenKind::KwExtends, "A case class definition must end with an `extends` clause."@) {
                        Err(r) => Err(r),
                        Ok((_, ts5)) => match expect(ts5, TokenKind::Identifier, "Expected a valid name of an abstract class."@) {
                            Err(r) => Err(r),
                            Ok((parent, ts6)) => match text(src, parent.range) {
                                Err(r) => Err(r),
                                Ok(pname) => Ok((DefV::Class(ClassDefV { name, args, parent: pname, range: id.range }), ts6)),
                            },
                        },
                    },
                },
            },
        },
    }
}

/// The definitions at the start of a module, while the next token starts one.
pub open spec fn p_many_definitions<'a>(src: Seq<u8>, ts: TokenIter<'a>) -> Parsed<'a, Seq<DefV>>
    decreases ts.measure(),
{
    let (t, ts1) = ts.spec_peek();
    if t.kind == TokenKind::KwDef || t.kind == TokenKind::KwAbstract || t.kind == TokenKind::KwCase {
        match p_definition(src, ts1) {
            Err(r) => Err(r),
            Ok((def, ts2)) => if ts2.measure() < ts.measure() {
                match p_many_definitions(src, ts2) {
                    Err(r) => Err(r),
                    Ok((rest, ts3)) => Ok((rest.push(def), ts3)),
                }
            } else {
                stuck(ts)
            },
        }
    } else {
        Ok((Seq::empty(), ts1))
    }
}

/// The abstract classes among `ds`, in order.
pub open spec fn abstract_defs(ds: Seq<DefV>) -> Seq<AbstDefV>
    decreases ds.len(),
{
    if ds.len() == 0 {
        Seq::empty()
    } else {
        let rest = abstract_defs(ds.drop_last());
        match ds.last() {
            DefV::Abst(d) => rest.push(d),
            _ => rest,
        }
    }
}

/// The case classes among `ds`, in order.
pub open spec fn class_defs(ds: Seq<DefV>) -> Seq<ClassDefV>
    decreases ds.len(),
{
    if ds.len() == 0 {
        Seq::empty()
    } else {
        let rest = class_defs(ds.drop_last());
        match ds.last() {
            DefV::Class(d) => rest.push(d),
            _ => rest,
        }
    }
}

/// The functions among `ds`, in order.
pub open spec fn fun_defs(ds: Seq<DefV>) -> Seq<FunDefV>
    decreases ds.len(),
{
    if ds.len() == 0 {
        Seq::empty()
    } else {
        let rest = fun_defs(ds.drop_last());
        match ds.last() {
            DefV::Fun(d) => rest.push(d),
            _ => rest,
        }
    }
}

/// A report of the parsing stage.
pub open spec fn parse_report(range: Span, msg: Seq<char>) -> ReportV {
    ReportV { stage: Stage::Parsing, range, msg }
}

/// `object M defs [expr] end M`, followed by the end of the input; the module gets the
/// iterator's tag as its identifier and the span of its first name.
#[verifier::opaque]
pub open spec fn p_module<'a>(src: Seq<u8>, ts: TokenIter<'a>) -> Result<ModuleV, ReportV> {
    match expect(ts, TokenKind::KwObject, "A module must start with the keyword `object`."@) {
        Err(r) => Err(r),
        Ok((_, ts1)) => match expect(ts1, TokenKind::Identifier, "A module must be given a valid identifier name."@) {
            Err(r) => Err(r),
            Ok((id1, ts2)) => match text(src, id1.range) {
                Err(r) => Err(r),
                Ok(name) => match p_many_definitions(src, ts2) {
                    Err(r) => Err(r),
                    Ok((defs, ts3)) => {
                        let (t, ts4) = ts3.spec_peek();
                        let mexpr: Result<(Option<EV>, TokenIter<'a>), ReportV> = if t.kind == TokenKind::KwEnd {
                            Ok((None, ts4))
                        } else {
                            match p_expr(src, ts4) {
                                Err(r) => Err(r),
                                Ok((e, ts5)) => Ok((Some(e), ts5)),
                            }
                        };
                        match mexpr {
                            Err(r) => Err(r),
                            Ok((me, ts6)) => match expect(ts6, TokenKind::KwEnd, "A module must end with the keyword `end`."@) {
                                Err(r) => Err(r),
                                Ok((_, ts7)) => match expect(ts7, TokenKind::Identifier, "A module must end with its name."@) {
                                    Err(r) => Err(r),
                                    Ok((id2, ts8)) => if !same_text(src, id2.range, id1.range) {
                                        Err(parse_report(id2.range, "The names at the start and end of a module must match."@))
                                    } else {
                                        let next = ts8.spec_pop().0;
                                        if next.kind == TokenKind::Eof {
                                            Ok(ModuleV {
                                                name,
                                                id: ts.spec_tag(),
                                                range: id1.range,
                                                abstract_defs: abstract_defs(defs),
                                                class_defs: class_defs(defs),
                                                fun_defs: fun_defs(defs),
                                                expr: me,
                                            })
                                        } else {
                                            Err(parse_report(next.range, "Unexpected token after the module definition."@))
                                        }
                                    },
                                },
                            },
                        }
                    },
                },
            },
        },
    }
}

} // verus!
