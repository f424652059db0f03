//! Parsing match patterns.
use std::collections::VecDeque;
use vstd::prelude::*;
use crate::ast::{Name, Pattern, lemma_pats_view, pat_view, pats_view};
use crate::diagnostics::{Report, Span, join};
use crate::parser::grammar::{agrees, follows, p_many_patterns, p_pattern, p_pattern_list};
use crate::parser::token::TokenKind;
use crate::parser::tokeniter::TokenIter;
use crate::parser::{error, error_kind, expect, get_int, get_name, get_string, res_v};

verus! {

broadcast use vstd::std_specs::vecdeque::group_vec_dequeue_axioms;

proof fn lemma_pats_push(before: VecDeque<Pattern<Name>>, after: VecDeque<Pattern<Name>>, p: Pattern<Name>)
    requires
        after@ == before@.push(p),
    ensures
        pats_view(after, 0) == pats_view(before, 0).push(pat_view(p)),
{
    lemma_pats_view(before, 0);
    lemma_pats_view(after, 0);
    assert(pats_view(after, 0) =~= pats_view(before, 0).push(pat_view(p)));
}

// ---------------------------------------------------------------------------------------------
// Patterns
// ---------------------------------------------------------------------------------------------

/// Parses a match pattern: `_`, a literal, `()`, a variable, or `C(p, ..)` / `M.C(p, ..)`.
pub fn parse_pattern(src: &[u8], ts: &mut TokenIter) -> (r: Result<Pattern<Name>, Report>)
    requires
        old(ts).wf(),
        old(ts).spec_src() == src@,
    ensures
        follows(*final(ts), *old(ts)),
        agrees(res_v(r), *final(ts), p_pattern(src@, *old(ts))),
        r is Ok ==> final(ts).measure() < old(ts).measure(),
    decreases old(ts).measure(), 2nat,
{
    proof {
        (*ts).lemma_pop();
    }
    let tk = ts.pop();
    match tk.kind {
        TokenKind::Underscore => Ok(Pattern::Wildcard(tk.range)),
        TokenKind::LitTrue => Ok(Pattern::BoolPattern(true, tk.range)),
        TokenKind::LitFalse => Ok(Pattern::BoolPattern(false, tk.range)),
        TokenKind::LitInt => match get_int(src, tk.range) {
            Ok(v) => Ok(Pattern::IntPattern(v, tk.range)),
            Err(e) => Err(e),
        },
        TokenKind::LitString => {
            match get_string(src, Span::new(tk.range.start + 1, tk.range.end - 1, tk.range.tag)) {
                Ok(val) => Ok(Pattern::StringPattern(val, tk.range)),
                Err(e) => Err(e),
            }
        },
        TokenKind::OpenParen => {
            let cp = ts.peek();
            if cp.kind == TokenKind::CloseParen {
                ts.consume();
                Ok(Pattern::UnitPattern(join(tk.range, cp.range)))
            } else {
                error(cp.range, "Expected a closing parenthesis to finish the unit literal pattern.")
            }
        },
        TokenKind::Identifier => {
            let (qname, idrange) = match get_name(src, ts, tk.range) {
                Ok(n) => n,
                Err(e) => return Err(e),
            };
            let next = ts.peek();
            if next.kind == TokenKind::OpenParen {
                ts.consume();
                let argpats = match parse_pattern_list(src, ts) {
                    Ok(ps) => ps,
                    Err(e) => return Err(e),
                };
                let cp = match expect(ts, TokenKind::CloseParen, "Expected a closing parenthesis at the end of a pattern list") {
                    Ok(t) => t,
                    Err(e) => return Err(e),
                };
                Ok(Pattern::ClassPattern(qname, argpats, join(idrange, cp.range)))
            } else if qname.owner.is_none() {
                Ok(Pattern::IdPattern(qname, idrange))
            } else {
                error(idrange, "Variable names cannot be quantified.")
            }
        },
        _ => error_kind(tk.range, "Undexpected token of kind ", tk.kind),
    }
}

/// Parses a possibly empty list of patterns, up to (not including) the closing parenthesis.
pub fn parse_pattern_list(src: &[u8], ts: &mut TokenIter) -> (r: Result<VecDeque<Pattern<Name>>, Report>)
    requires
        old(ts).wf(),
        old(ts).spec_src() == src@,
    ensures
        follows(*final(ts), *old(ts)),
        agrees(
            match r {
                Ok(ps) => Ok(pats_view(ps, 0)),
                Err(e) => Err(e@),
            },
            *final(ts),
            p_pattern_list(src@, *old(ts)),
        ),
    decreases old(ts).measure(), 4nat,
{
    proof {
    }
    let t = ts.peek();
    if t.kind == TokenKind::CloseParen {
        Ok(VecDeque::new())
    } else {
        parse_many_patterns(src, ts)
    }
}

/// Parses a non-empty comma-separated list of patterns, up to the closing parenthesis.
pub fn parse_many_patterns(src: &[u8], ts: &mut TokenIter) -> (r: Result<VecDeque<Pattern<Name>>, Report>)
    requires
        old(ts).wf(),
        old(ts).spec_src() == src@,
    ensures
        follows(*final(ts), *old(ts)),
        agrees(
            match r {
                Ok(ps) => Ok(pats_view(ps, 0)),
                Err(e) => Err(e@),
            },
            *final(ts),
            p_many_patterns(src@, *old(ts)),
        ),
    decreases old(ts).measure(), 3nat,
{
    let pat = match parse_pattern(src, ts) {
        Ok(p) => p,
        Err(e) => return Err(e),
    };
    let delim = ts.peek();
    if delim.kind == TokenKind::Comma {
        ts.consume();
        let mut rest = match parse_many_patterns(src, ts) {
            Ok(ps) => ps,
            Err(e) => return Err(e),
        };
        let ghost before = rest;
        rest.push_back(pat);
        proof {
            lemma_pats_push(before, rest, pat);
        }
        Ok(rest)
    } else if delim.kind == TokenKind::CloseParen {
        let mut rest = VecDeque::new();
        let ghost before = rest;
        rest.push_back(pat);
        proof {
            lemma_pats_push(before, rest, pat);
        }
        Ok(rest)
    } else {
        error(delim.range, "Expected either a comma separator of a closing parenthesis")
    }
}

} // verus!
