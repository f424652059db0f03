//! Resolution keeps the tree as it was written: every node of a resolved expression or
//! pattern is the node it was resolved from, with the same operator, literal, span and name,
//! and its children are the resolutions of that node's children, in the same order.
use std::collections::VecDeque;
use vstd::prelude::*;
use crate::ast::{Expr, ExprV, Name, NominalType, PatV, Pattern, SID, SymbolV, next_id};
use crate::diagnostics::Span;
use crate::diagnostics::ReportV;
use crate::name_analyzer::rules::{
    SEV, SPV, SymTableV, bin_v, res_args, res_type, res_cases, res_expr, res_pat, res_pats, res_two,
};

verus! {

broadcast use vstd::std_specs::vecdeque::group_vec_dequeue_axioms;

/// `v` is the pattern `p` with its names resolved.
pub open spec fn pat_shape(p: Pattern<Name>, v: SPV) -> bool
    decreases p, 0nat,
{
    match (p, v) {
        (Pattern::Wildcard(s), PatV::Wildcard(s2)) => s == s2,
        (Pattern::IdPattern(n, s), PatV::IdPattern(sym, s2)) => sym.name == n.name@ && s == s2,
        (Pattern::BoolPattern(b, s), PatV::BoolPattern(b2, s2)) => b == b2 && s == s2,
        (Pattern::StringPattern(x, s), PatV::StringPattern(y, s2)) => x@ == y && s == s2,
        (Pattern::IntPattern(i, s), PatV::IntPattern(j, s2)) => i == j && s == s2,
        (Pattern::UnitPattern(s), PatV::UnitPattern(s2)) => s == s2,
        (Pattern::ClassPattern(n, ps, s), PatV::ClassPattern(sym, vs, s2)) => sym.name == n.name@ && s == s2
            && vs.len() == ps@.len() && pats_shape(ps, vs, 0),
        _ => false,
    }
}

/// `vs[i..]` are the patterns `ps[i..]` with their names resolved.
pub open spec fn pats_shape(ps: VecDeque<Pattern<Name>>, vs: Seq<SPV>, i: int) -> bool
    decreases ps, ps@.len() - i,
{
    if 0 <= i < ps@.len() {
        proof {
            assert(decreases_to!(ps => ps@[i]));
        }
        pat_shape(ps@[i], vs[i]) && pats_shape(ps, vs, i + 1)
    } else {
        true
    }
}

/// `v` is the expression `e` with its names resolved: the same node, operator, literal and
/// span, and children that are those of `e` resolved, in the same order.
pub open spec fn expr_shape(e: Expr<Name, NominalType>, v: SEV) -> bool
    decreases e, 0nat,
{
    match (e, v) {
        (Expr::Variable(n, s), ExprV::Variable(sym, s2)) => sym.name == n.name@ && s == s2,
        (Expr::IntLiteral(i, s), ExprV::IntLiteral(j, s2)) => i == j && s == s2,
        (Expr::BoolLiteral(b, s), ExprV::BoolLiteral(c, s2)) => b == c && s == s2,
        (Expr::StringLiteral(x, s), ExprV::StringLiteral(y, s2)) => x@ == y && s == s2,
        (Expr::UnitLiteral(s), ExprV::UnitLiteral(s2)) => s == s2,
        (Expr::Plus(l, r), ExprV::Plus(a, b)) => expr_shape(*l, *a) && expr_shape(*r, *b),
        (Expr::Minus(l, r), ExprV::Minus(a, b)) => expr_shape(*l, *a) && expr_shape(*r, *b),
        (Expr::Times(l, r), ExprV::Times(a, b)) => expr_shape(*l, *a) && expr_shape(*r, *b),
        (Expr::Div(l, r), ExprV::Div(a, b)) => expr_shape(*l, *a) && expr_shape(*r, *b),
        (Expr::Mod(l, r), ExprV::Mod(a, b)) => expr_shape(*l, *a) && expr_shape(*r, *b),
        (Expr::LessThan(l, r), ExprV::LessThan(a, b)) => expr_shape(*l, *a) && expr_shape(*r, *b),
        (Expr::LessEquals(l, r), ExprV::LessEquals(a, b)) => expr_shape(*l, *a) && expr_shape(*r, *b),
        (Expr::And(l, r), ExprV::And(a, b)) => expr_shape(*l, *a) && expr_shape(*r, *b),
        (Expr::Or(l, r), ExprV::Or(a, b)) => expr_shape(*l, *a) && expr_shape(*r, *b),
        (Expr::Equals(l, r), ExprV::Equals(a, b)) => expr_shape(*l, *a) && expr_shape(*r, *b),
        (Expr::Concat(l, r), ExprV::Concat(a, b)) => expr_shape(*l, *a) && expr_shape(*r, *b),
        (Expr::Sequence(l, r), ExprV::Sequence(a, b)) => expr_shape(*l, *a) && expr_shape(*r, *b),
        (Expr::Not(x, s), ExprV::Not(a, s2)) => s == s2 && expr_shape(*x, *a),
        (Expr::Neg(x, s), ExprV::Neg(a, s2)) => s == s2 && expr_shape(*x, *a),
        (Expr::Error(x, s), ExprV::Error(a, s2)) => s == s2 && expr_shape(*x, *a),
        (Expr::Call(n, args, s), ExprV::Call(sym, vs, s2)) => sym.name == n.name@ && s == s2
            && vs.len() == args@.len() && args_shape(args, vs, 0),
        (Expr::Let(n, _, x, y, s), ExprV::Let(sym, _, a, b, s2)) => sym.name == n.name@ && s == s2
            && expr_shape(*x, *a) && expr_shape(*y, *b),
        (Expr::Ite(c, x, y, s), ExprV::Ite(c2, a, b, s2)) => s == s2 && expr_shape(*c, *c2)
            && expr_shape(*x, *a) && expr_shape(*y, *b),
        (Expr::Match(x, cs, s), ExprV::Match(a, vs, s2)) => s == s2 && expr_shape(*x, *a)
            && vs.len() == cs@.len() && cases_shape(cs, vs, 0),
        _ => false,
    }
}

/// `vs[i..]` are the expressions `args[i..]` resolved.
pub open spec fn args_shape(args: VecDeque<Expr<Name, NominalType>>, vs: Seq<SEV>, i: int) -> bool
    decreases args, args@.len() - i,
{
    if 0 <= i < args@.len() {
        proof {
            assert(decreases_to!(args => args@[i]));
        }
        expr_shape(args@[i], vs[i]) && args_shape(args, vs, i + 1)
    } else {
        true
    }
}

/// `vs[i..]` are the cases `cs[i..]` resolved, pattern and body.
pub open spec fn cases_shape(cs: VecDeque<(Pattern<Name>, Expr<Name, NominalType>)>, vs: Seq<(SPV, SEV)>, i: int) -> bool
    decreases cs, cs@.len() - i,
{
    if 0 <= i < cs@.len() {
        proof {
            assert(decreases_to!(cs => cs@[i]));
            assert(decreases_to!(cs@[i] => cs@[i].0));
            assert(decreases_to!(cs@[i] => cs@[i].1));
        }
        pat_shape(cs@[i].0, vs[i].0) && expr_shape(cs@[i].1, vs[i].1) && cases_shape(cs, vs, i + 1)
    } else {
        true
    }
}

proof fn lemma_pats_shape_all(ps: VecDeque<Pattern<Name>>, vs: Seq<SPV>, i: int)
    requires
        0 <= i,
    ensures
        pats_shape(ps, vs, i) <==> forall|j: int| i <= j < ps@.len() ==> #[trigger] pat_shape(ps@[j], vs[j]),
    decreases ps@.len() - i,
{
    if i < ps@.len() {
        lemma_pats_shape_all(ps, vs, i + 1);
        if forall|j: int| i <= j < ps@.len() ==> #[trigger] pat_shape(ps@[j], vs[j]) {
            assert(pat_shape(ps@[i], vs[i]));
            assert forall|j: int| i + 1 <= j < ps@.len() implies #[trigger] pat_shape(ps@[j], vs[j]) by {}
        }
    }
}

proof fn lemma_args_shape_all(args: VecDeque<Expr<Name, NominalType>>, vs: Seq<SEV>, i: int)
    requires
        0 <= i,
    ensures
        args_shape(args, vs, i) <==> forall|j: int| i <= j < args@.len() ==> #[trigger] expr_shape(args@[j], vs[j]),
    decreases args@.len() - i,
{
    if i < args@.len() {
        lemma_args_shape_all(args, vs, i + 1);
        if forall|j: int| i <= j < args@.len() ==> #[trigger] expr_shape(args@[j], vs[j]) {
            assert(expr_shape(args@[i], vs[i]));
            assert forall|j: int| i + 1 <= j < args@.len() implies #[trigger] expr_shape(args@[j], vs[j]) by {}
        }
    }
}

proof fn lemma_cases_shape_all(cs: VecDeque<(Pattern<Name>, Expr<Name, NominalType>)>, vs: Seq<(SPV, SEV)>, i: int)
    requires
        0 <= i,
    ensures
        cases_shape(cs, vs, i) <==> forall|j: int| i <= j < cs@.len() ==>
            pat_shape(#[trigger] cs@[j].0, vs[j].0) && expr_shape(cs@[j].1, vs[j].1),
    decreases cs@.len() - i,
{
    if i < cs@.len() {
        lemma_cases_shape_all(cs, vs, i + 1);
        if forall|j: int| i <= j < cs@.len() ==> pat_shape(#[trigger] cs@[j].0, vs[j].0) && expr_shape(cs@[j].1, vs[j].1) {
            assert(pat_shape(cs@[i].0, vs[i].0) && expr_shape(cs@[i].1, vs[i].1));
            assert forall|j: int| i + 1 <= j < cs@.len() implies pat_shape(#[trigger] cs@[j].0, vs[j].0) && expr_shape(cs@[j].1, vs[j].1) by {}
        }
    }
}

proof fn lemma_res_pat_shape(p: Pattern<Name>, st: SymTableV, binds: Map<Seq<char>, SID>, g: u64)
    ensures
        res_pat(p, st, binds, g) matches Ok((v, _, _)) ==> pat_shape(p, v),
    decreases p, 1nat,
{
    match p {
        Pattern::ClassPattern(qn, subpats, s) => {
            lemma_res_pats_shape(subpats, 0, st, binds, g);
            match res_pats(subpats, 0, st, binds, g) {
                Ok((vs, _, _)) => {
                    lemma_pats_shape_all(subpats, vs, 0);
                    assert forall|j: int| 0 <= j < subpats@.len() implies #[trigger] pat_shape(subpats@[j], vs[j]) by {
                        assert(subpats@[0 + j] == subpats@[j]);
                    }
                },
                Err(_) => {},
            }
        },
        _ => {},
    }
}

proof fn lemma_res_pats_shape(ps: VecDeque<Pattern<Name>>, i: int, st: SymTableV, binds: Map<Seq<char>, SID>, g: u64)
    requires
        0 <= i,
    ensures
        res_pats(ps, i, st, binds, g) matches Ok((vs, _, _)) ==> {
            &&& vs.len() == if i < ps@.len() { ps@.len() - i } else { 0 }
            &&& forall|j: int| 0 <= j < vs.len() ==> #[trigger] pat_shape(ps@[i + j], vs[j])
        },
    decreases ps, ps@.len() - i,
{
    if i < ps@.len() {
        assert(decreases_to!(ps => ps@[i]));
        lemma_res_pat_shape(ps@[i], st, binds, g);
        match res_pat(ps@[i], st, binds, g) {
            Ok((p, b1, g1)) => {
                lemma_res_pats_shape(ps, i + 1, st, b1, g1);
                match res_pats(ps, i + 1, st, b1, g1) {
                    Ok((rest, _, _)) => {
                        let all = seq![p] + rest;
                        assert forall|j: int| 0 <= j < all.len() implies #[trigger] pat_shape(ps@[i + j], all[j]) by {
                            if j > 0 {
                                assert(all[j] == rest[j - 1]);
                                assert(pat_shape(ps@[(i + 1) + (j - 1)], rest[j - 1]));
                            }
                        }
                    },
                    Err(_) => {},
                }
            },
            Err(_) => {},
        }
    }
}

proof fn lemma_res_args_shape(args: VecDeque<Expr<Name, NominalType>>, i: int, st: SymTableV, binds: Map<Seq<char>, SID>, g: u64)
    requires
        0 <= i,
    ensures
        res_args(args, i, st, binds, g) matches Ok((vs, _)) ==> {
            &&& vs.len() == if i < args@.len() { args@.len() - i } else { 0 }
            &&& forall|j: int| 0 <= j < vs.len() ==> #[trigger] expr_shape(args@[i + j], vs[j])
        },
    decreases args, args@.len() - i,
{
    if i < args@.len() {
        assert(decreases_to!(args => args@[i]));
        lemma_res_expr_shape(args@[i], st, binds, g);
        match res_expr(args@[i], st, binds, g) {
            Ok((a, g1)) => {
                lemma_res_args_shape(args, i + 1, st, binds, g1);
                match res_args(args, i + 1, st, binds, g1) {
                    Ok((rest, _)) => {
                        let all = seq![a] + rest;
                        assert forall|j: int| 0 <= j < all.len() implies #[trigger] expr_shape(args@[i + j], all[j]) by {
                            if j > 0 {
                                assert(all[j] == rest[j - 1]);
                                assert(expr_shape(args@[(i + 1) + (j - 1)], rest[j - 1]));
                            }
                        }
                    },
                    Err(_) => {},
                }
            },
            Err(_) => {},
        }
    }
}

proof fn lemma_res_cases_shape(cases: VecDeque<(Pattern<Name>, Expr<Name, NominalType>)>, i: int, st: SymTableV, binds: Map<Seq<char>, SID>, g: u64)
    requires
        0 <= i,
    ensures
        res_cases(cases, i, st, binds, g) matches Ok((vs, _)) ==> {
            &&& vs.len() == if i < cases@.len() { cases@.len() - i } else { 0 }
            &&& forall|j: int| #![trigger vs[j]] 0 <= j < vs.len() ==>
                pat_shape(cases@[i + j].0, vs[j].0) && expr_shape(cases@[i + j].1, vs[j].1)
        },
    decreases cases, cases@.len() - i,
{
    if i < cases@.len() {
        assert(decreases_to!(cases => cases@[i]));
        assert(decreases_to!(cases@[i] => cases@[i].0));
        assert(decreases_to!(cases@[i] => cases@[i].1));
        lemma_res_pat_shape(cases@[i].0, st, binds, g);
        match res_pat(cases@[i].0, st, binds, g) {
            Ok((sp, nb, g1)) => {
                lemma_res_expr_shape(cases@[i].1, st, nb, g1);
                match res_expr(cases@[i].1, st, nb, g1) {
                    Ok((se, g2)) => {
                        lemma_res_cases_shape(cases, i + 1, st, binds, g2);
                        match res_cases(cases, i + 1, st, binds, g2) {
                            Ok((rest, g3)) => {
                                let all = seq![(sp, se)] + rest;
                                assert(res_cases(cases, i, st, binds, g) == Ok::<(Seq<(SPV, SEV)>, u64), ReportV>((all, g3)));
                                assert forall|j: int| #![trigger all[j]] 0 <= j < all.len() implies
                                    pat_shape(cases@[i + j].0, all[j].0) && expr_shape(cases@[i + j].1, all[j].1) by {
                                    if j > 0 {
                                        assert(all[j] == rest[j - 1]);
                                        assert(rest[j - 1] == rest[j - 1]);
                                        assert(pat_shape(cases@[(i + 1) + (j - 1)].0, rest[j - 1].0)
                                            && expr_shape(cases@[(i + 1) + (j - 1)].1, rest[j - 1].1));
                                        assert(cases@[(i + 1) + (j - 1)] == cases@[i + j]);
                                    } else {
                                        assert(cases@[i + j] == cases@[i]);
                                        assert(all[j] == (sp, se));
                                    }
                                }
                            },
                            Err(_) => {},
                        }
                    },
                    Err(_) => {},
                }
            },
            Err(_) => {},
        }
    }
}

/// A binary node of kind `k` (see `bin_res`) whose operands resolve keeps its shape.
proof fn lemma_bin_shape(e: Expr<Name, NominalType>, l: Expr<Name, NominalType>, r: Expr<Name, NominalType>, k: int, st: SymTableV, binds: Map<Seq<char>, SID>, g: u64)
    requires
        0 <= k <= 11,
        decreases_to!(e => l),
        decreases_to!(e => r),
        k == 0 ==> e == Expr::Plus(Box::new(l), Box::new(r)),
        k == 1 ==> e == Expr::Minus(Box::new(l), Box::new(r)),
        k == 2 ==> e == Expr::Times(Box::new(l), Box::new(r)),
        k == 3 ==> e == Expr::Div(Box::new(l), Box::new(r)),
        k == 4 ==> e == Expr::Mod(Box::new(l), Box::new(r)),
        k == 5 ==> e == Expr::LessThan(Box::new(l), Box::new(r)),
        k == 6 ==> e == Expr::LessEquals(Box::new(l), Box::new(r)),
        k == 7 ==> e == Expr::And(Box::new(l), Box::new(r)),
        k == 8 ==> e == Expr::Or(Box::new(l), Box::new(r)),
        k == 9 ==> e == Expr::Equals(Box::new(l), Box::new(r)),
        k == 10 ==> e == Expr::Concat(Box::new(l), Box::new(r)),
        k == 11 ==> e == Expr::Sequence(Box::new(l), Box::new(r)),
    ensures
        res_expr(e, st, binds, g) matches Ok((v, _)) ==> expr_shape(e, v),
    decreases e, 0nat,
{
    lemma_res_expr_shape(l, st, binds, g);
    match res_expr(l, st, binds, g) {
        Ok((a, g1)) => {
            lemma_res_expr_shape(r, st, binds, g1);
            match res_expr(r, st, binds, g1) {
                Ok((b, g2)) => {
                    assert(res_two(res_expr(l, st, binds, g), |g1: u64| res_expr(r, st, binds, g1)) == Ok::<(SEV, SEV, u64), ReportV>((a, b, g2)));
                    assert(res_expr(e, st, binds, g) == Ok::<(SEV, u64), ReportV>((bin_v(k, a, b), g2)));
                },
                Err(_) => {},
            }
        },
        Err(_) => {},
    }
}

#[verifier::spinoff_prover]
#[verifier::rlimit(60)]
proof fn lemma_res_expr_shape(e: Expr<Name, NominalType>, st: SymTableV, binds: Map<Seq<char>, SID>, g: u64)
    ensures
        res_expr(e, st, binds, g) matches Ok((v, _)) ==> expr_shape(e, v),
    decreases e, 1nat,
{
    match e {
        Expr::Plus(l, r) => {
            lemma_bin_shape(e, *l, *r, 0, st, binds, g);
        },
        Expr::Minus(l, r) => {
            lemma_bin_shape(e, *l, *r, 1, st, binds, g);
        },
        Expr::Times(l, r) => {
            lemma_bin_shape(e, *l, *r, 2, st, binds, g);
        },
        Expr::Div(l, r) => {
            lemma_bin_shape(e, *l, *r, 3, st, binds, g);
        },
        Expr::Mod(l, r) => {
            lemma_bin_shape(e, *l, *r, 4, st, binds, g);
        },
        Expr::LessThan(l, r) => {
            lemma_bin_shape(e, *l, *r, 5, st, binds, g);
        },
        Expr::LessEquals(l, r) => {
            lemma_bin_shape(e, *l, *r, 6, st, binds, g);
        },
        Expr::And(l, r) => {
            lemma_bin_shape(e, *l, *r, 7, st, binds, g);
        },
        Expr::Or(l, r) => {
            lemma_bin_shape(e, *l, *r, 8, st, binds, g);
        },
        Expr::Equals(l, r) => {
            lemma_bin_shape(e, *l, *r, 9, st, binds, g);
        },
        Expr::Concat(l, r) => {
            lemma_bin_shape(e, *l, *r, 10, st, binds, g);
        },
        Expr::Sequence(l, r) => {
            lemma_bin_shape(e, *l, *r, 11, st, binds, g);
        },
        Expr::Not(a, _) | Expr::Neg(a, _) | Expr::Error(a, _) => {
            lemma_res_expr_shape(*a, st, binds, g);
        },
        Expr::Call(_, args, _) => {
            lemma_res_args_shape(args, 0, st, binds, g);
            match res_args(args, 0, st, binds, g) {
                Ok((vs, _)) => {
                    lemma_args_shape_all(args, vs, 0);
                    assert forall|j: int| 0 <= j < args@.len() implies #[trigger] expr_shape(args@[j], vs[j]) by {
                        assert(args@[0 + j] == args@[j]);
                    }
                },
                Err(_) => {},
            }
        },
        Expr::Let(qn, _, val, body, _) => {
            lemma_res_expr_shape(*val, st, binds, next_id(g));
            match res_expr(*val, st, binds, next_id(g)) {
                Ok((_, g2)) => {
                    lemma_res_expr_shape(*body, st, binds.insert(qn.name@, g), g2);
                },
                Err(_) => {},
            }
        },
        Expr::Ite(c, a, b, _) => {
            lemma_res_expr_shape(*c, st, binds, g);
            match res_expr(*c, st, binds, g) {
                Ok((_, g1)) => {
                    lemma_res_expr_shape(*a, st, binds, g1);
                    match res_expr(*a, st, binds, g1) {
                        Ok((_, g2)) => {
                            lemma_res_expr_shape(*b, st, binds, g2);
                        },
                        Err(_) => {},
                    }
                },
                Err(_) => {},
            }
        },
        Expr::Match(scrut, cases, _) => {
            lemma_res_expr_shape(*scrut, st, binds, g);
            match res_expr(*scrut, st, binds, g) {
                Ok((_, g1)) => {
                    lemma_res_cases_shape(cases, 0, st, binds, g1);
                    match res_cases(cases, 0, st, binds, g1) {
                        Ok((vs, _)) => {
                            lemma_cases_shape_all(cases, vs, 0);
                            assert forall|j: int| 0 <= j < cases@.len() implies
                                pat_shape(#[trigger] cases@[j].0, vs[j].0) && expr_shape(cases@[j].1, vs[j].1) by {
                                assert(vs[j] == vs[j]);
                                assert(pat_shape(cases@[0 + j].0, vs[j].0) && expr_shape(cases@[0 + j].1, vs[j].1));
                                assert(cases@[0 + j] == cases@[j]);
                            }
                        },
                        Err(_) => {},
                    }
                },
                Err(_) => {},
            }
        },
        _ => {},
    }
}

/// Resolution keeps the expression as it was written: the resolved expression has the same
/// operators, literals and spans, each name resolved to a symbol of that name, and the
/// children of every node are the resolutions of its children, in the same order (the left
/// operand stays left).
pub proof fn law_resolution_keeps_shape(e: Expr<Name, NominalType>, st: SymTableV, binds: Map<Seq<char>, SID>, g: u64)
    ensures
        res_expr(e, st, binds, g) matches Ok((v, _)) ==> expr_shape(e, v),
{
    lemma_res_expr_shape(e, st, binds, g);
}


/// Names are resolved by scope: a variable is the symbol that the binding of its name in
/// scope gave it, and an error where none is in scope. In `val x = e; x` the body's `x` is
/// the symbol of that `val`, while a use of `x` inside `e` still refers to the binding around
/// the `val`.
pub proof fn law_resolution_scoping(x: Name, xs: Span, st: SymTableV, binds: Map<Seq<char>, SID>, g: u64, typ: NominalType, e: Expr<Name, NominalType>, y: Name, ys: Span, ls: Span)
    requires
        y.name@ == x.name@,
    ensures
        res_expr(Expr::Variable(x, xs), st, binds, g) is Ok <==> binds.contains_key(x.name@),
        binds.contains_key(x.name@) ==> res_expr(Expr::Variable(x, xs), st, binds, g)
            == Ok::<(SEV, u64), ReportV>((ExprV::Variable(SymbolV { name: x.name@, id: binds[x.name@] }, xs), g)),
        res_expr(Expr::Let(x, typ, Box::new(e), Box::new(Expr::Variable(y, ys)), ls), st, binds, g)
            matches Ok((v, _)) ==> (v matches ExprV::Let(sym, _, _, b, _) && *b == SEV::Variable(sym, ys)),
        res_expr(Expr::Let(x, typ, Box::new(Expr::Variable(y, ys)), Box::new(e), ls), st, binds, g)
            matches Ok((v, _)) ==> binds.contains_key(x.name@) && (v matches ExprV::Let(_, _, a, _, _)
                && *a == SEV::Variable(SymbolV { name: x.name@, id: binds[x.name@] }, ys)),
{
    let inner = binds.insert(x.name@, g);
    assert(inner.contains_key(y.name@) && inner[y.name@] == g);
    if let Ok(styp) = res_type(typ, st.types) {
        if let Ok((sv, g2)) = res_expr(e, st, binds, next_id(g)) {
            assert(res_expr(Expr::Variable(y, ys), st, inner, g2)
                == Ok::<(SEV, u64), ReportV>((SEV::Variable(SymbolV { name: x.name@, id: g }, ys), g2)));
            assert(res_expr(Expr::Let(x, typ, Box::new(e), Box::new(Expr::Variable(y, ys)), ls), st, binds, g)
                == Ok::<(SEV, u64), ReportV>((ExprV::Let(SymbolV { name: x.name@, id: g }, styp, Box::new(sv),
                    Box::new(SEV::Variable(SymbolV { name: x.name@, id: g }, ys)), ls), g2)));
        }
    }
    assert forall|g1: u64| #[trigger] res_expr(Expr::Variable(y, ys), st, binds, g1) is Ok
        ==> binds.contains_key(x.name@)
            && res_expr(Expr::Variable(y, ys), st, binds, g1)
                == Ok::<(SEV, u64), ReportV>((SEV::Variable(SymbolV { name: x.name@, id: binds[x.name@] }, ys), g1)) by {}
    assert(res_expr(Expr::Variable(y, ys), st, binds, next_id(g)) is Ok ==> binds.contains_key(x.name@));
}


/// A name bound by a case's pattern is in scope in that case's body: in a case `x => x` the
/// body's `x` is the symbol that the pattern gave.
pub proof fn law_resolution_case_scoping(scrut: Expr<Name, NominalType>, cases: VecDeque<(Pattern<Name>, Expr<Name, NominalType>)>, s: Span, st: SymTableV, binds: Map<Seq<char>, SID>, g: u64, x: Name, xs: Span, y: Name, ys: Span)
    requires
        y.name@ == x.name@,
        cases@.len() >= 1,
        cases@[0] == (Pattern::IdPattern(x, xs), Expr::<Name, NominalType>::Variable(y, ys)),
    ensures
        res_expr(Expr::Match(Box::new(scrut), cases, s), st, binds, g) matches Ok((v, _))
            ==> (v matches ExprV::Match(_, sc, _) && sc.len() >= 1
                && (sc[0].0 matches PatV::IdPattern(sym, _) && sc[0].1 == SEV::Variable(sym, ys))),
{
    if let Ok((ss, g1)) = res_expr(scrut, st, binds, g) {
        let nb = binds.insert(x.name@, g1);
        assert(res_pat(cases@[0].0, st, binds, g1) == Ok::<(SPV, Map<Seq<char>, SID>, u64), ReportV>(
            (PatV::IdPattern(SymbolV { name: x.name@, id: g1 }, xs), nb, next_id(g1))));
        assert(nb.contains_key(y.name@) && nb[y.name@] == g1);
        assert(res_expr(cases@[0].1, st, nb, next_id(g1)) == Ok::<(SEV, u64), ReportV>(
            (SEV::Variable(SymbolV { name: x.name@, id: g1 }, ys), next_id(g1))));
        if let Ok((sc, g2)) = res_cases(cases, 0, st, binds, g1) {
            if let Ok((rest, g3)) = res_cases(cases, 1, st, binds, next_id(g1)) {
                assert(sc == seq![(PatV::IdPattern(SymbolV { name: x.name@, id: g1 }, xs),
                    SEV::Variable(SymbolV { name: x.name@, id: g1 }, ys))] + rest);
                assert(sc[0] == (PatV::IdPattern(SymbolV { name: x.name@, id: g1 }, xs),
                    SEV::Variable(SymbolV { name: x.name@, id: g1 }, ys)));
            }
        }
    }
}

} // verus!
