//! The hand-written recursive-descent parser for Amy. Each parsing function agrees with its
//! counterpart in `grammar`.
pub mod expr;
pub mod definition;
pub mod grammar;
pub mod pattern;
pub mod token;
pub mod tokeniter;

use std::collections::VecDeque;
use vstd::prelude::*;
use crate::ast::{Name, NominalType, NameV};
use crate::diagnostics::{Report, ReportV, Span, Stage, join};
use crate::interpreter::builtin::parse_int;
use crate::parser::grammar::{
    Parsed, agrees, expect as g_expect, follows, int_lit, p_name, p_type, parse_report, text,
};
use crate::parser::token::{Token, TokenKind};
use crate::parser::tokeniter::{TokenIter, token_ok};
use crate::text::utf8_text;

verus! {

broadcast use vstd::std_specs::vecdeque::group_vec_dequeue_axioms;

/// A result with the value and the report taken by their models.
pub open spec fn res_v<T: View>(r: Result<T, Report>) -> Result<T::V, ReportV> {
    match r {
        Ok(v) => Ok(v@),
        Err(e) => Err(e@),
    }
}

/// A result with the report taken by its model.
pub open spec fn res_plain<T>(r: Result<T, Report>) -> Result<T, ReportV> {
    match r {
        Ok(v) => Ok(v),
        Err(e) => Err(e@),
    }
}

/// A report of the parsing stage.
pub(crate) fn error<T>(range: Span, msg: &str) -> (r: Result<T, Report>)
    ensures
        r matches Err(e) && e@ == parse_report(range, msg@),
{
    Err(Report { stage: Stage::Parsing, range, msg: msg.to_owned() })
}

/// A report of the parsing stage whose message is `msg` followed by the name of `kind`.
pub(crate) fn error_kind<T>(range: Span, msg: &str, kind: TokenKind) -> (r: Result<T, Report>)
    ensures
        r matches Err(e) && e@ == parse_report(range, msg@ + crate::parser::token::kind_name(kind)),
{
    let mut m = msg.to_owned();
    m.append(kind.name().as_str());
    Err(Report { stage: Stage::Parsing, range, msg: m })
}

/// Pops the next token, which must have kind `kind`.
pub(crate) fn expect(ts: &mut TokenIter, kind: TokenKind, msg: &str) -> (r: Result<Token, Report>)
    requires
        old(ts).wf(),
    ensures
        follows(*final(ts), *old(ts)),
        *final(ts) == old(ts).spec_pop().1,
        agrees(res_plain(r), *final(ts), g_expect(*old(ts), kind, msg@)),
        r matches Ok(t) ==> token_ok(old(ts).spec_limit(), t) && t.kind == kind
            && old(ts).spec_limit() <= old(ts).spec_src().len(),
        r is Ok && kind != TokenKind::Eof ==> final(ts).measure() < old(ts).measure(),
{
    proof {
        (*ts).lemma_pop();
    }
    let t = ts.pop();
    if t.kind == kind {
        Ok(t)
    } else {
        error(t.range, msg)
    }
}

/// The text of the bytes under `span`.
pub(crate) fn get_string(src: &[u8], span: Span) -> (r: Result<String, Report>)
    requires
        span.start <= span.end <= src@.len(),
    ensures
        match (r, text(src@, span)) {
            (Ok(s), Ok(t)) => s@ == t,
            (Err(e), Err(f)) => e@ == f,
            _ => false,
        },
{
    proof {
        reveal(text);
    }
    let bytes = vstd::slice::slice_subrange(src, span.start, span.end);
    match utf8_text(bytes) {
        Some(s) => {
            proof {
                vstd::utf8::encode_utf8_decode_utf8(s@);
            }
            Ok(s.to_owned())
        },
        None => error(span, "This string does not contain valid ASCII."),
    }
}

/// The integer written under `span`.
pub(crate) fn get_int(src: &[u8], span: Span) -> (r: Result<i32, Report>)
    requires
        span.start <= span.end <= src@.len(),
    ensures
        res_plain(r) == int_lit(src@, span),
{
    proof {
        reveal(int_lit);
        reveal(text);
    }
    let bytes = vstd::slice::slice_subrange(src, span.start, span.end);
    match utf8_text(bytes) {
        Some(s) => {
            proof {
                vstd::utf8::encode_utf8_decode_utf8(s@);
            }
            match parse_int(s) {
                Some(v) => Ok(v),
                None => error(span, "Could not parse this as an integer"),
            }
        },
        None => error(span, "This string does not contain valid ASCII."),
    }
}

/// The bytes under `a` and under `b` are the same.
pub(crate) fn same_bytes(src: &[u8], a: Span, b: Span) -> (r: bool)
    requires
        a.start <= a.end <= src@.len(),
        b.start <= b.end <= src@.len(),
    ensures
        r == (src@.subrange(a.start as int, a.end as int) == src@.subrange(b.start as int, b.end as int)),
{
    if a.end - a.start != b.end - b.start {
        proof {
            assert(src@.subrange(a.start as int, a.end as int).len() != src@.subrange(b.start as int, b.end as int).len());
        }
        return false;
    }
    let n = a.end - a.start;
    let mut i: usize = 0;
    while i < n
        invariant
            n == a.end - a.start,
            n == b.end - b.start,
            a.start <= a.end <= src@.len(),
            b.start <= b.end <= src@.len(),
            i <= n,
            src@.subrange(a.start as int, a.start + i) == src@.subrange(b.start as int, b.start + i),
        decreases n - i,
    {
        if src[a.start + i] != src[b.start + i] {
            proof {
                assert(src@.subrange(a.start as int, a.end as int)[i as int] != src@.subrange(b.start as int, b.end as int)[i as int]);
            }
            return false;
        }
        proof {
            assert(src@.subrange(a.start as int, a.start + i + 1) =~= src@.subrange(a.start as int, a.start + i).push(src@[a.start + i]));
            assert(src@.subrange(b.start as int, b.start + i + 1) =~= src@.subrange(b.start as int, b.start + i).push(src@[b.start + i]));
        }
        i += 1;
    }
    true
}

/// The rest of a name whose first identifier, under `span`, was just popped.
pub(crate) fn get_name(src: &[u8], ts: &mut TokenIter, span: Span) -> (r: Result<(Name, Span), Report>)
    requires
        old(ts).wf(),
        old(ts).spec_src() == src@,
        span.start <= span.end <= src@.len(),
    ensures
        follows(*final(ts), *old(ts)),
        agrees(
            match r {
                Ok((n, s)) => Ok((n@, s)),
                Err(e) => Err(e@),
            },
            *final(ts),
            p_name(src@, *old(ts), span),
        ),
{
    proof {
        reveal(p_name);
    }
    let t = ts.peek();
    if t.kind == TokenKind::Dot {
        ts.consume();
        let tk2 = match expect(ts, TokenKind::Identifier, "Expected a valid identifier as part of a qualified name.") {
            Ok(t) => t,
            Err(e) => return Err(e),
        };
        let owner = match get_string(src, span) {
            Ok(s) => s,
            Err(e) => return Err(e),
        };
        let name = match get_string(src, tk2.range) {
            Ok(s) => s,
            Err(e) => return Err(e),
        };
        Ok((Name::new(Some(owner), name), join(span, tk2.range)))
    } else {
        let name = match get_string(src, span) {
            Ok(s) => s,
            Err(e) => return Err(e),
        };
        Ok((Name::new(None, name), span))
    }
}

/// Parses a type: `Int(32)`, `Boolean`, `String`, `Unit`, `C` or `M.C`.
pub fn parse_type(src: &[u8], ts: &mut TokenIter) -> (r: Result<NominalType, Report>)
    requires
        old(ts).wf(),
        old(ts).spec_src() == src@,
    ensures
        follows(*final(ts), *old(ts)),
        agrees(res_v(r), *final(ts), p_type(src@, *old(ts))),
        r is Ok ==> final(ts).measure() < old(ts).measure(),
{
    proof {
        reveal(p_type);
        (*ts).lemma_pop();
    }
    let typ1 = ts.pop();
    match typ1.kind {
        TokenKind::TypInt => {
            match expect(ts, TokenKind::OpenParen, "The `Int` type must be applied to an integer size value.") {
                Ok(_) => {},
                Err(e) => return Err(e),
            }
            let size = match expect(ts, TokenKind::LitInt, "Expected an integer literal for the `Int` type.") {
                Ok(t) => t,
                Err(e) => return Err(e),
            };
            let s = size.range;
            let is32 = s.end - s.start == 2 && src[s.start] == 51 && src[s.start + 1] == 50;
            proof {
                if is32 {
                    assert(src@.subrange(s.start as int, s.end as int) =~= seq![51u8, 50u8]);
                } else {
                    let w = src@.subrange(s.start as int, s.end as int);
                    let k = seq![51u8, 50u8];
                    if w.len() == 2 {
                        assert(w[0] != k[0] || w[1] != k[1]);
                    }
                    assert(w != k);
                }
            }
            if is32 {
                let cp = match expect(ts, TokenKind::CloseParen, "Expected a closing parenthesis.") {
                    Ok(t) => t,
                    Err(e) => return Err(e),
                };
                Ok(NominalType::IntType(join(typ1.range, cp.range)))
            } else {
                error(size.range, "Only size `32` is supported for integer literals.")
            }
        },
        TokenKind::TypBoolean => Ok(NominalType::BoolType(typ1.range)),
        TokenKind::TypString => Ok(NominalType::StringType(typ1.range)),
        TokenKind::TypUnit => Ok(NominalType::UnitType(typ1.range)),
        TokenKind::Identifier => {
            let t2 = ts.peek();
            if t2.kind == TokenKind::Dot {
                let owner = match get_string(src, typ1.range) {
                    Ok(s) => s,
                    Err(e) => return Err(e),
                };
                ts.consume();
                let typ2 = match expect(ts, TokenKind::Identifier, "Expected a valid identifier as part of a qualified name.") {
                    Ok(t) => t,
                    Err(e) => return Err(e),
                };
                let name = match get_string(src, typ2.range) {
                    Ok(s) => s,
                    Err(e) => return Err(e),
                };
                Ok(NominalType::IdType(Name::new(Some(owner), name), VecDeque::new(), join(typ1.range, typ2.range)))
            } else {
                let name = match get_string(src, typ1.range) {
                    Ok(s) => s,
                    Err(e) => return Err(e),
                };
                Ok(NominalType::IdType(Name::new(None, name), VecDeque::new(), typ1.range))
            }
        },
        _ => error(typ1.range, "Expected either a primitive type (`Int`, `Boolean`, `String`, or `Unit`), or an identifier."),
    }
}

} // verus!
