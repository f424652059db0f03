//! Parsing expressions and patterns.
use std::collections::VecDeque;
use vstd::prelude::*;
use crate::ast::{
    Expr, Name, NominalType, Pattern, cases_view, expr_view, exprs_view, lemma_cases_view,
    lemma_exprs_view, pat_view,
};
use crate::diagnostics::{Report, Span, join};
use crate::parser::grammar::{
    BinOp, EV, PV, agrees, binop_v, follows, infix_op, p_atomic, p_error_call, p_ident, p_if,
    p_literal, p_paren, p_val, p_cases, p_expr, p_expr_list,
    p_infix, p_infix_tail, p_many_exprs, p_match_case, p_match_tail, p_simple, p_unary, p_with_match, tail_op,
};
use crate::parser::token::{Token, TokenKind};
use crate::parser::tokeniter::{TokenIter, token_ok};
use crate::parser::pattern::parse_pattern;
use crate::parser::{error, error_kind, expect, get_int, get_name, get_string, parse_type, res_v};

verus! {

broadcast use vstd::std_specs::vecdeque::group_vec_dequeue_axioms;

/// A parsed expression.
pub type NExpr = Expr<Name, NominalType>;

proof fn lemma_exprs_push(before: VecDeque<NExpr>, after: VecDeque<NExpr>, e: NExpr)
    requires
        after@ == before@.push(e),
    ensures
        exprs_view(after, 0) == exprs_view(before, 0).push(expr_view(e)),
{
    lemma_exprs_view(before, 0);
    lemma_exprs_view(after, 0);
    assert(exprs_view(after, 0) =~= exprs_view(before, 0).push(expr_view(e)));
}

proof fn lemma_cases_push(
    before: VecDeque<(Pattern<Name>, NExpr)>,
    after: VecDeque<(Pattern<Name>, NExpr)>,
    c: (Pattern<Name>, NExpr),
)
    requires
        after@ == before@.push(c),
    ensures
        cases_view(after, 0) == cases_view(before, 0).push((pat_view(c.0), expr_view(c.1))),
{
    lemma_cases_view(before, 0);
    lemma_cases_view(after, 0);
    assert(cases_view(after, 0) =~= cases_view(before, 0).push((pat_view(c.0), expr_view(c.1))));
}

/// The operator that `k` denotes at precedence `level` (see `infix_op`).
fn infix_op_exec(level: u8, k: TokenKind) -> (r: Option<BinOp>)
    ensures
        r == infix_op(level, k),
{
    match k {
        TokenKind::PipePipe if level == 6 => Some(BinOp::Or),
        TokenKind::AndAnd if level == 5 => Some(BinOp::And),
        TokenKind::EqualEqual if level == 4 => Some(BinOp::Equals),
        TokenKind::Less if level == 3 => Some(BinOp::LessThan),
        TokenKind::LessEquals if level == 3 => Some(BinOp::LessEquals),
        TokenKind::Plus if level == 2 => Some(BinOp::Plus),
        TokenKind::Minus if level == 2 => Some(BinOp::Minus),
        TokenKind::PlusPlus if level == 2 => Some(BinOp::Concat),
        TokenKind::Star if level == 1 => Some(BinOp::Times),
        TokenKind::Slash if level == 1 => Some(BinOp::Div),
        TokenKind::Percent if level == 1 => Some(BinOp::Mod),
        _ => None,
    }
}

/// An operator after a `match` expression, with the level of its right operand (see
/// `tail_op`).
fn tail_op_exec(k: TokenKind) -> (r: Option<(u8, BinOp)>)
    ensures
        r == tail_op(k),
{
    match k {
        TokenKind::PipePipe => Some((5, BinOp::Or)),
        TokenKind::AndAnd => Some((4, BinOp::And)),
        TokenKind::EqualEqual => Some((3, BinOp::Equals)),
        TokenKind::Less => Some((2, BinOp::LessThan)),
        TokenKind::LessEquals => Some((2, BinOp::LessEquals)),
        TokenKind::Plus => Some((1, BinOp::Plus)),
        TokenKind::Minus => Some((1, BinOp::Minus)),
        TokenKind::PlusPlus => Some((1, BinOp::Concat)),
        TokenKind::Star => Some((0, BinOp::Times)),
        TokenKind::Slash => Some((0, BinOp::Div)),
        TokenKind::Percent => Some((0, BinOp::Mod)),
        _ => None,
    }
}

/// The expression `l op r`.
fn make_binop(op: BinOp, l: NExpr, r: NExpr) -> (e: NExpr)
    ensures
        e@ == binop_v(op, l@, r@),
{
    let (bl, br) = (Box::new(l), Box::new(r));
    match op {
        BinOp::Or => Expr::Or(bl, br),
        BinOp::And => Expr::And(bl, br),
        BinOp::Equals => Expr::Equals(bl, br),
        BinOp::LessThan => Expr::LessThan(bl, br),
        BinOp::LessEquals => Expr::LessEquals(bl, br),
        BinOp::Plus => Expr::Plus(bl, br),
        BinOp::Minus => Expr::Minus(bl, br),
        BinOp::Concat => Expr::Concat(bl, br),
        BinOp::Times => Expr::Times(bl, br),
        BinOp::Div => Expr::Div(bl, br),
        BinOp::Mod => Expr::Mod(bl, br),
    }
}

// ---------------------------------------------------------------------------------------------
// Expressions
// ---------------------------------------------------------------------------------------------

/// Parses an expression: one or more atomic expressions separated by `;`.
#[verifier::spinoff_prover]
pub fn parse_expr(src: &[u8], ts: &mut TokenIter) -> (r: Result<NExpr, Report>)
    requires
        old(ts).wf(),
        old(ts).spec_src() == src@,
    ensures
        follows(*final(ts), *old(ts)),
        agrees(res_v(r), *final(ts), p_expr(src@, *old(ts))),
    decreases old(ts).measure(), 1000nat,
{
    let cur = match parse_atomic_expr(src, ts) {
        Ok(e) => e,
        Err(e) => return Err(e),
    };
    let t = ts.peek();
    if t.kind == TokenKind::Semicolon {
        ts.consume();
        let rest = match parse_expr(src, ts) {
            Ok(e) => e,
            Err(e) => return Err(e),
        };
        Ok(Expr::Sequence(Box::new(cur), Box::new(rest)))
    } else {
        Ok(cur)
    }
}

/// Parses an atomic expression: `val x: T = e; body`, `if (c) then a else b end if`, or an
/// expression with operators and `match`.
#[verifier::spinoff_prover]
pub fn parse_atomic_expr(src: &[u8], ts: &mut TokenIter) -> (r: Result<NExpr, Report>)
    requires
        old(ts).wf(),
        old(ts).spec_src() == src@,
    ensures
        follows(*final(ts), *old(ts)),
        agrees(res_v(r), *final(ts), p_atomic(src@, *old(ts))),
    decreases old(ts).measure(), 999nat,
{
    let t1 = ts.peek();
    if t1.kind == TokenKind::KwVal {
        ts.consume();
        parse_val(src, ts, t1)
    } else if t1.kind == TokenKind::KwIf {
        ts.consume();
        parse_if(src, ts, t1)
    } else {
        parse_with_match(src, ts)
    }
}

/// Parses `x: T = e; body` after the keyword `val` (the token `t1`).
#[verifier::spinoff_prover]
fn parse_val(src: &[u8], ts: &mut TokenIter, t1: Token) -> (r: Result<NExpr, Report>)
    requires
        old(ts).wf(),
        old(ts).spec_src() == src@,
    ensures
        follows(*final(ts), *old(ts)),
        agrees(res_v(r), *final(ts), p_val(src@, t1, *old(ts))),
    decreases old(ts).measure(), 990nat,
{
    let var_token = match expect(ts, TokenKind::Identifier, "Expected a variable identifier after `val`.") {
        Ok(t) => t,
        Err(e) => return Err(e),
    };
    let var_name = match get_string(src, var_token.range) {
        Ok(s) => s,
        Err(e) => return Err(e),
    };
    match expect(ts, TokenKind::Colon, "Expected a colon after the variable name.") {
        Ok(_) => {},
        Err(e) => return Err(e),
    }
    let var_type = match parse_type(src, ts) {
        Ok(t) => t,
        Err(e) => return Err(e),
    };
    match expect(ts, TokenKind::Equal, "Expected an equal sign after the variable type") {
        Ok(_) => {},
        Err(e) => return Err(e),
    }
    let var_expr = match parse_expr(src, ts) {
        Ok(e) => e,
        Err(e) => return Err(e),
    };
    let sc = match expect(ts, TokenKind::Semicolon, "Expected a semicolon after a `val` declaration.") {
        Ok(t) => t,
        Err(e) => return Err(e),
    };
    let body = match parse_expr(src, ts) {
        Ok(e) => e,
        Err(e) => return Err(e),
    };
    Ok(Expr::Let(Name::new(None, var_name), var_type, Box::new(var_expr), Box::new(body), join(t1.range, sc.range)))
}

/// Parses `(c) then a else b end if` after the keyword `if` (the token `t1`).
#[verifier::spinoff_prover]
fn parse_if(src: &[u8], ts: &mut TokenIter, t1: Token) -> (r: Result<NExpr, Report>)
    requires
        old(ts).wf(),
        old(ts).spec_src() == src@,
    ensures
        follows(*final(ts), *old(ts)),
        agrees(res_v(r), *final(ts), p_if(src@, t1, *old(ts))),
    decreases old(ts).measure(), 990nat,
{
    match expect(ts, TokenKind::OpenParen, "Expected an opening parenthesis after the `if` keyword") {
        Ok(_) => {},
        Err(e) => return Err(e),
    }
    let cond = match parse_expr(src, ts) {
        Ok(e) => e,
        Err(e) => return Err(e),
    };
    match expect(ts, TokenKind::CloseParen, "Expected a closing parenthesis after the `if` condition") {
        Ok(_) => {},
        Err(e) => return Err(e),
    }
    match expect(ts, TokenKind::KwThen, "Expected the keyword `then`.") {
        Ok(_) => {},
        Err(e) => return Err(e),
    }
    let then_branch = match parse_expr(src, ts) {
        Ok(e) => e,
        Err(e) => return Err(e),
    };
    match expect(ts, TokenKind::KwElse, "Expected the keyword `else`.") {
        Ok(_) => {},
        Err(e) => return Err(e),
    }
    let else_branch = match parse_expr(src, ts) {
        Ok(e) => e,
        Err(e) => return Err(e),
    };
    match expect(ts, TokenKind::KwEnd, "An `if` statement must terminate with `end if`") {
        Ok(_) => {},
        Err(e) => return Err(e),
    }
    let eif = match expect(ts, TokenKind::KwIf, "An `if` statement must terminate with `end if`") {
        Ok(t) => t,
        Err(e) => return Err(e),
    };
    Ok(Expr::Ite(Box::new(cond), Box::new(then_branch), Box::new(else_branch), join(t1.range, eif.range)))
}

/// Parses an expression with operators, possibly followed by `match { cases }` and more
/// operators.
#[verifier::spinoff_prover]
pub fn parse_with_match(src: &[u8], ts: &mut TokenIter) -> (r: Result<NExpr, Report>)
    requires
        old(ts).wf(),
        old(ts).spec_src() == src@,
    ensures
        follows(*final(ts), *old(ts)),
        agrees(res_v(r), *final(ts), p_with_match(src@, *old(ts))),
    decreases old(ts).measure(), 998nat,
{
    let ghost ts0 = *ts;
    let mut res = match parse_infix_expr(src, ts, 6) {
        Ok(e) => e,
        Err(e) => return Err(e),
    };
    loop
        invariant
            ts0.wf(),
            ts0.spec_src() == src@,
            ts0 == *old(ts),
            follows(*ts, ts0),
            p_with_match(src@, ts0) == p_match_tail(src@, res@, *ts),
        decreases ts.measure(),
    {
        let ghost tsl = *ts;
        let t = ts.peek();
        if t.kind == TokenKind::KwMatch {
            ts.consume();
            match expect(ts, TokenKind::OpenCurly, "The `match` keyword must be followes by a curly bracket.") {
                Ok(_) => {},
                Err(e) => return Err(e),
            }
            let mut cases: VecDeque<(Pattern<Name>, NExpr)> = VecDeque::new();
            let ghost mut prev = *ts;
            let mut tk = ts.pop();
            while tk.kind == TokenKind::KwCase
                invariant
                    ts0.wf(),
                    ts0.spec_src() == src@,
                    ts0 == *old(ts),
                    follows(prev, ts0),
                    prev.measure() < tsl.measure(),
                    tsl.measure() <= ts0.measure(),
                    (tk, *ts) == prev.spec_pop(),
                    follows(*ts, prev),
                    tk.kind != TokenKind::Eof ==> ts.measure() < prev.measure(),
                    p_with_match(src@, ts0) == p_cases(src@, res@, cases_view(cases, 0), prev),
                decreases ts.measure(),
            {
                let case = match parse_match_case(src, ts) {
                    Ok(c) => c,
                    Err(e) => return Err(e),
                };
                let ghost before = cases;
                cases.push_back(case);
                proof {
                    lemma_cases_push(before, cases, case);
                    prev = *ts;
                }
                tk = ts.pop();
            }
            if tk.kind == TokenKind::CloseCurly {
                res = Expr::Match(Box::new(res), cases, tk.range);
            } else {
                return error(tk.range, "Expected either a `case` keyword or a closing curly bracket");
            }
        } else {
            match tail_op_exec(t.kind) {
                Some((level, op)) => {
                    ts.consume();
                    let rhs = match parse_infix_expr(src, ts, level) {
                        Ok(e) => e,
                        Err(e) => return Err(e),
                    };
                    res = make_binop(op, res, rhs);
                },
                None => return Ok(res),
            }
        }
    }
}

/// Parses a match case `pattern => expr` (the `case` keyword already read).
#[verifier::spinoff_prover]
pub fn parse_match_case(src: &[u8], ts: &mut TokenIter) -> (r: Result<(Pattern<Name>, NExpr), Report>)
    requires
        old(ts).wf(),
        old(ts).spec_src() == src@,
    ensures
        follows(*final(ts), *old(ts)),
        agrees(
            match r {
                Ok((p, e)) => Ok((pat_view(p), expr_view(e))),
                Err(e) => Err(e@),
            },
            *final(ts),
            p_match_case(src@, *old(ts)),
        ),
        r is Ok ==> final(ts).measure() < old(ts).measure(),
    decreases old(ts).measure(), 995nat,
{
    let pat = match parse_pattern(src, ts) {
        Ok(p) => p,
        Err(e) => return Err(e),
    };
    match expect(ts, TokenKind::RightArrow, "A match pattern must be followed by a right arrow.") {
        Ok(_) => {},
        Err(e) => return Err(e),
    }
    let e = match parse_expr(src, ts) {
        Ok(e) => e,
        Err(e) => return Err(e),
    };
    Ok((pat, e))
}

/// Parses an expression whose operators have precedence at most `level` (`||` 6, `&&` 5,
/// `==` 4, `<` and `<=` 3, `+`, `-` and `++` 2, `*`, `/` and `%` 1); level 0 is a unary
/// expression.
#[verifier::spinoff_prover]
pub fn parse_infix_expr(src: &[u8], ts: &mut TokenIter, level: u8) -> (r: Result<NExpr, Report>)
    requires
        old(ts).wf(),
        old(ts).spec_src() == src@,
    ensures
        follows(*final(ts), *old(ts)),
        agrees(res_v(r), *final(ts), p_infix(src@, *old(ts), level)),
    decreases old(ts).measure(), 21 + 2 * level,
{
    if level == 0 {
        return parse_unary_expr(src, ts);
    }
    let ghost ts0 = *ts;
    let mut res = match parse_infix_expr(src, ts, level - 1) {
        Ok(e) => e,
        Err(e) => return Err(e),
    };
    loop
        invariant
            ts0.wf(),
            ts0.spec_src() == src@,
            ts0 == *old(ts),
            1 <= level,
            follows(*ts, ts0),
            p_infix(src@, ts0, level) == p_infix_tail(src@, level, res@, *ts),
        decreases ts.measure(),
    {
        let t = ts.peek();
        match infix_op_exec(level, t.kind) {
            Some(op) => {
                ts.consume();
                let rhs = match parse_infix_expr(src, ts, level - 1) {
                    Ok(e) => e,
                    Err(e) => return Err(e),
                };
                res = make_binop(op, res, rhs);
            },
            None => return Ok(res),
        }
    }
}

/// Parses `-e`, `!e` or a simple expression.
#[verifier::spinoff_prover]
pub fn parse_unary_expr(src: &[u8], ts: &mut TokenIter) -> (r: Result<NExpr, Report>)
    requires
        old(ts).wf(),
        old(ts).spec_src() == src@,
    ensures
        follows(*final(ts), *old(ts)),
        agrees(res_v(r), *final(ts), p_unary(src@, *old(ts))),
    decreases old(ts).measure(), 10nat,
{
    let op = ts.peek();
    if op.kind == TokenKind::Minus {
        ts.consume();
        let operand = match parse_simple_expr(src, ts) {
            Ok(e) => e,
            Err(e) => return Err(e),
        };
        Ok(Expr::Neg(Box::new(operand), op.range))
    } else if op.kind == TokenKind::Bang {
        ts.consume();
        let operand = match parse_simple_expr(src, ts) {
            Ok(e) => e,
            Err(e) => return Err(e),
        };
        Ok(Expr::Not(Box::new(operand), op.range))
    } else {
        parse_simple_expr(src, ts)
    }
}

/// Parses a simple expression: a literal, `error(e)`, a variable, a call `f(a, ..)` /
/// `M.f(a, ..)`, or `(e)`.
#[verifier::spinoff_prover]
pub fn parse_simple_expr(src: &[u8], ts: &mut TokenIter) -> (r: Result<NExpr, Report>)
    requires
        old(ts).wf(),
        old(ts).spec_src() == src@,
    ensures
        follows(*final(ts), *old(ts)),
        agrees(res_v(r), *final(ts), p_simple(src@, *old(ts))),
    decreases old(ts).measure(), 9nat,
{
    proof {
        (*ts).lemma_pop();
    }
    let tk = ts.pop();
    if tk.kind == TokenKind::KwError {
        parse_error_call(src, ts, tk)
    } else if tk.kind == TokenKind::Identifier {
        parse_ident(src, ts, tk)
    } else if tk.kind == TokenKind::OpenParen {
        parse_paren(src, ts)
    } else {
        parse_literal(src, tk, ts)
    }
}

/// A literal expression for the token `tk`, or the report for a token that cannot start a
/// simple expression.
#[verifier::spinoff_prover]
fn parse_literal(src: &[u8], tk: Token, ts: &TokenIter) -> (r: Result<NExpr, Report>)
    requires
        ts.spec_src() == src@,
        token_ok(ts.spec_limit(), tk),
        ts.spec_limit() <= src@.len(),
    ensures
        agrees(res_v(r), *ts, p_literal(src@, tk, *ts)),
{
    match tk.kind {
        TokenKind::LitInt => match get_int(src, tk.range) {
            Ok(v) => Ok(Expr::IntLiteral(v, tk.range)),
            Err(e) => Err(e),
        },
        TokenKind::LitTrue => Ok(Expr::BoolLiteral(true, tk.range)),
        TokenKind::LitFalse => Ok(Expr::BoolLiteral(false, tk.range)),
        TokenKind::LitString => {
            match get_string(src, Span::new(tk.range.start + 1, tk.range.end - 1, tk.range.tag)) {
                Ok(s) => Ok(Expr::StringLiteral(s, tk.range)),
                Err(e) => Err(e),
            }
        },
        _ => error_kind(tk.range, "Unexpected token kind for a simple expression: ", tk.kind),
    }
}

/// Parses `(e)` after the keyword `error` (the token `tk`).
#[verifier::spinoff_prover]
fn parse_error_call(src: &[u8], ts: &mut TokenIter, tk: Token) -> (r: Result<NExpr, Report>)
    requires
        old(ts).wf(),
        old(ts).spec_src() == src@,
    ensures
        follows(*final(ts), *old(ts)),
        agrees(res_v(r), *final(ts), p_error_call(src@, tk, *old(ts))),
    decreases old(ts).measure(), 990nat,
{
    match expect(ts, TokenKind::OpenParen, "The `error` keyword must be followed by an open parenthesis") {
        Ok(_) => {},
        Err(e) => return Err(e),
    }
    let arg = match parse_expr(src, ts) {
        Ok(e) => e,
        Err(e) => return Err(e),
    };
    let cp = match expect(ts, TokenKind::CloseParen, "Expected a closed parenthesis here.") {
        Ok(t) => t,
        Err(e) => return Err(e),
    };
    Ok(Expr::Error(Box::new(arg), join(tk.range, cp.range)))
}

/// Parses a variable or a call whose first identifier (the token `tk`) was just popped.
#[verifier::spinoff_prover]
fn parse_ident(src: &[u8], ts: &mut TokenIter, tk: Token) -> (r: Result<NExpr, Report>)
    requires
        old(ts).wf(),
        old(ts).spec_src() == src@,
        tk.range.start <= tk.range.end <= src@.len(),
    ensures
        follows(*final(ts), *old(ts)),
        agrees(res_v(r), *final(ts), p_ident(src@, tk, *old(ts))),
    decreases old(ts).measure(), 990nat,
{
    let (qname, idrange) = match get_name(src, ts, tk.range) {
        Ok(n) => n,
        Err(e) => return Err(e),
    };
    let next = ts.peek();
    if next.kind == TokenKind::OpenParen {
        ts.consume();
        let args = match parse_expr_list(src, ts) {
            Ok(a) => a,
            Err(e) => return Err(e),
        };
        let cp = match expect(ts, TokenKind::CloseParen, "Expected a closing parenthesis at the end of a pattern list") {
            Ok(t) => t,
            Err(e) => return Err(e),
        };
        Ok(Expr::Call(qname, args, join(tk.range, cp.range)))
    } else if qname.owner.is_none() {
        Ok(Expr::Variable(qname, idrange))
    } else {
        error(idrange, "Variable names cannot be quantified.")
    }
}

/// Parses `e)` after an opening parenthesis.
#[verifier::spinoff_prover]
fn parse_paren(src: &[u8], ts: &mut TokenIter) -> (r: Result<NExpr, Report>)
    requires
        old(ts).wf(),
        old(ts).spec_src() == src@,
    ensures
        follows(*final(ts), *old(ts)),
        agrees(res_v(r), *final(ts), p_paren(src@, *old(ts))),
    decreases old(ts).measure(), 1005nat,
{
    let e = match parse_expr(src, ts) {
        Ok(e) => e,
        Err(e) => return Err(e),
    };
    match expect(ts, TokenKind::CloseParen, "Expected a closing parenthesis here.") {
        Ok(_) => {},
        Err(e) => return Err(e),
    }
    Ok(e)
}

/// Parses a possibly empty comma-separated list of expressions, up to the closing
/// parenthesis.
#[verifier::spinoff_prover]
pub fn parse_expr_list(src: &[u8], ts: &mut TokenIter) -> (r: Result<VecDeque<NExpr>, Report>)
    requires
        old(ts).wf(),
        old(ts).spec_src() == src@,
    ensures
        follows(*final(ts), *old(ts)),
        agrees(
            match r {
                Ok(es) => Ok(exprs_view(es, 0)),
                Err(e) => Err(e@),
            },
            *final(ts),
            p_expr_list(src@, *old(ts)),
        ),
    decreases old(ts).measure(), 1002nat,
{
    let t = ts.peek();
    if t.kind == TokenKind::CloseParen {
        Ok(VecDeque::new())
    } else {
        parse_many_exprs(src, ts)
    }
}

/// Parses a non-empty comma-separated list of expressions, up to the closing parenthesis.
#[verifier::spinoff_prover]
pub fn parse_many_exprs(src: &[u8], ts: &mut TokenIter) -> (r: Result<VecDeque<NExpr>, Report>)
    requires
        old(ts).wf(),
        old(ts).spec_src() == src@,
    ensures
        follows(*final(ts), *old(ts)),
        agrees(
            match r {
                Ok(es) => Ok(exprs_view(es, 0)),
                Err(e) => Err(e@),
            },
            *final(ts),
            p_many_exprs(src@, *old(ts)),
        ),
    decreases old(ts).measure(), 1001nat,
{
    let cur = match parse_expr(src, ts) {
        Ok(e) => e,
        Err(e) => return Err(e),
    };
    let delim = ts.peek();
    if delim.kind == TokenKind::Comma {
        ts.consume();
        let mut rest = match parse_many_exprs(src, ts) {
            Ok(es) => es,
            Err(e) => return Err(e),
        };
        let ghost before = rest;
        rest.push_back(cur);
        proof {
            lemma_exprs_push(before, rest, cur);
        }
        Ok(rest)
    } else if delim.kind == TokenKind::CloseParen {
        let mut rest = VecDeque::new();
        let ghost before = rest;
        rest.push_back(cur);
        proof {
            lemma_exprs_push(before, rest, cur);
        }
        Ok(rest)
    } else {
        error(delim.range, "Expected either a comma separator of a closing parenthesis")
    }
}

} // verus!
