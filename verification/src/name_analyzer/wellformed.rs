//! What resolution gives is well formed for the type checker: every constructor pattern it
//! resolves names a case class of the table it resolves against.
use std::collections::VecDeque;
use vstd::prelude::*;
use crate::ast::{Expr, Name, NominalType, Pattern, SID};
use crate::name_analyzer::rules::{
    SEV, SymTableV, bin_v, res_args, res_cases, res_expr, res_pat, res_pats, syms_defined,
};
use crate::typecheck::{
    argsv_wf, casesv_wf, exprv_wf, lemma_argsv_all, lemma_casesv_all, lemma_patsv_all, patsv_wf,
    patv_wf,
};

verus! {

broadcast use vstd::std_specs::vecdeque::group_vec_dequeue_axioms;

/// What resolving a constructor needs of a table: the current module's classes, and the
/// definition of every class named.
pub open spec fn classes_ok(st: SymTableV) -> bool {
    &&& st.class_syms.contains_key(st.types.cur_mod)
    &&& syms_defined(st.class_syms, st.class_defs)
}

proof fn lemma_res_pat_wf(p: Pattern<Name>, st: SymTableV, binds: Map<Seq<char>, SID>, g: u64)
    requires
        classes_ok(st),
    ensures
        res_pat(p, st, binds, g) matches Ok((sp, _, _)) ==> patv_wf(sp, st.class_defs.dom()),
    decreases p, 1nat,
{
    match p {
        Pattern::ClassPattern(qn, subpats, s) => {
            lemma_res_pats_wf(subpats, 0, st, binds, g);
            match qn.owner {
                None => {
                    assert(st.class_syms.contains_key(st.types.cur_mod));
                    if st.class_syms[st.types.cur_mod].contains_key(qn.name@) {
                        assert(st.class_defs.contains_key(st.class_syms[st.types.cur_mod][qn.name@]));
                    }
                },
                Some(o) => {
                    if st.class_syms.contains_key(o@) && st.class_syms[o@].contains_key(qn.name@) {
                        assert(st.class_defs.contains_key(st.class_syms[o@][qn.name@]));
                    }
                },
            }
        },
        _ => {},
    }
}

proof fn lemma_res_pats_wf(ps: VecDeque<Pattern<Name>>, i: int, st: SymTableV, binds: Map<Seq<char>, SID>, g: u64)
    requires
        classes_ok(st),
    ensures
        res_pats(ps, i, st, binds, g) matches Ok((sps, _, _)) ==> patsv_wf(sps, 0, st.class_defs.dom()),
    decreases ps, ps@.len() - i,
{
    let cids = st.class_defs.dom();
    if 0 <= i < ps@.len() {
        assert(decreases_to!(ps => ps@[i]));
        lemma_res_pat_wf(ps@[i], st, binds, g);
        match res_pat(ps@[i], st, binds, g) {
            Ok((p, b1, g1)) => {
                lemma_res_pats_wf(ps, i + 1, st, b1, g1);
                match res_pats(ps, i + 1, st, b1, g1) {
                    Ok((rest, _, _)) => {
                        let all = seq![p] + rest;
                        lemma_patsv_all(rest, 0, cids);
                        lemma_patsv_all(all, 0, cids);
                        assert forall|j: int| 0 <= j < all.len() implies #[trigger] patv_wf(all[j], cids) by {
                            if j > 0 {
                                assert(all[j] == rest[j - 1]);
                            }
                        }
                    },
                    Err(_) => {},
                }
            },
            Err(_) => {},
        }
    } else {
        lemma_patsv_all(Seq::empty(), 0, cids);
    }
}

proof fn lemma_res_args_wf(args: VecDeque<Expr<Name, NominalType>>, i: int, st: SymTableV, binds: Map<Seq<char>, SID>, g: u64)
    requires
        classes_ok(st),
    ensures
        res_args(args, i, st, binds, g) matches Ok((vs, _)) ==> argsv_wf(vs, 0, st.class_defs.dom()),
    decreases args, args@.len() - i,
{
    let cids = st.class_defs.dom();
    if 0 <= i < args@.len() {
        assert(decreases_to!(args => args@[i]));
        lemma_res_expr_wf(args@[i], st, binds, g);
        match res_expr(args@[i], st, binds, g) {
            Ok((a, g1)) => {
                lemma_res_args_wf(args, i + 1, st, binds, g1);
                match res_args(args, i + 1, st, binds, g1) {
                    Ok((rest, _)) => {
                        let all = seq![a] + rest;
                        lemma_argsv_all(rest, 0, cids);
                        lemma_argsv_all(all, 0, cids);
                        assert forall|j: int| 0 <= j < all.len() implies #[trigger] exprv_wf(all[j], cids) by {
                            if j > 0 {
                                assert(all[j] == rest[j - 1]);
                            }
                        }
                    },
                    Err(_) => {},
                }
            },
            Err(_) => {},
        }
    } else {
        lemma_argsv_all(Seq::empty(), 0, cids);
    }
}

proof fn lemma_res_cases_wf(cases: VecDeque<(Pattern<Name>, Expr<Name, NominalType>)>, i: int, st: SymTableV, binds: Map<Seq<char>, SID>, g: u64)
    requires
        classes_ok(st),
    ensures
        res_cases(cases, i, st, binds, g) matches Ok((cs, _)) ==> casesv_wf(cs, 0, st.class_defs.dom()),
    decreases cases, cases@.len() - i,
{
    let cids = st.class_defs.dom();
    if 0 <= i < cases@.len() {
        assert(decreases_to!(cases => cases@[i]));
        assert(decreases_to!(cases@[i] => cases@[i].0));
        assert(decreases_to!(cases@[i] => cases@[i].1));
        lemma_res_pat_wf(cases@[i].0, st, binds, g);
        match res_pat(cases@[i].0, st, binds, g) {
            Ok((sp, nb, g1)) => {
                lemma_res_expr_wf(cases@[i].1, st, nb, g1);
                match res_expr(cases@[i].1, st, nb, g1) {
                    Ok((se, g2)) => {
                        lemma_res_cases_wf(cases, i + 1, st, binds, g2);
                        match res_cases(cases, i + 1, st, binds, g2) {
                            Ok((rest, _)) => {
                                let all = seq![(sp, se)] + rest;
                                lemma_casesv_all(rest, 0, cids);
                                lemma_casesv_all(all, 0, cids);
                                assert forall|j: int| 0 <= j < all.len() implies patv_wf(#[trigger] all[j].0, cids) && exprv_wf(all[j].1, cids) by {
                                    if j > 0 {
                                        assert(all[j] == rest[j - 1]);
                                    }
                                }
                            },
                            Err(_) => {},
                        }
                    },
                    Err(_) => {},
                }
            },
            Err(_) => {},
        }
    } else {
        lemma_casesv_all(Seq::empty(), 0, cids);
    }
}

/// The operands of a binary expression are well formed, so is the expression.
proof fn lemma_bin_wf(k: int, a: SEV, b: SEV, cids: Set<SID>)
    requires
        exprv_wf(a, cids),
        exprv_wf(b, cids),
    ensures
        exprv_wf(bin_v(k, a, b), cids),
{
}

/// An expression that resolution gives is well formed.
pub proof fn lemma_res_expr_wf(e: Expr<Name, NominalType>, st: SymTableV, binds: Map<Seq<char>, SID>, g: u64)
    requires
        classes_ok(st),
    ensures
        res_expr(e, st, binds, g) matches Ok((v, _)) ==> exprv_wf(v, st.class_defs.dom()),
    decreases e, 1nat,
{
    let cids = st.class_defs.dom();
    match e {
        Expr::Plus(l, r) | Expr::Minus(l, r) | Expr::Times(l, r) | Expr::Div(l, r)
        | Expr::Mod(l, r) | Expr::LessThan(l, r) | Expr::LessEquals(l, r) | Expr::And(l, r)
        | Expr::Or(l, r) | Expr::Equals(l, r) | Expr::Concat(l, r) | Expr::Sequence(l, r) => {
            lemma_res_expr_wf(*l, st, binds, g);
            match res_expr(*l, st, binds, g) {
                Ok((a, g1)) => {
                    lemma_res_expr_wf(*r, st, binds, g1);
                    match res_expr(*r, st, binds, g1) {
                        Ok((b, _)) => {
                            lemma_bin_wf(0, a, b, cids);
                            lemma_bin_wf(1, a, b, cids);
                            lemma_bin_wf(2, a, b, cids);
                            lemma_bin_wf(3, a, b, cids);
                            lemma_bin_wf(4, a, b, cids);
                            lemma_bin_wf(5, a, b, cids);
                            lemma_bin_wf(6, a, b, cids);
                            lemma_bin_wf(7, a, b, cids);
                            lemma_bin_wf(8, a, b, cids);
                            lemma_bin_wf(9, a, b, cids);
                            lemma_bin_wf(10, a, b, cids);
                            lemma_bin_wf(11, a, b, cids);
                        },
                        Err(_) => {},
                    }
                },
                Err(_) => {},
            }
        },
        Expr::Not(a, _) | Expr::Neg(a, _) | Expr::Error(a, _) => {
            lemma_res_expr_wf(*a, st, binds, g);
        },
        Expr::Call(_, args, _) => {
            lemma_res_args_wf(args, 0, st, binds, g);
        },
        Expr::Let(qn, _, val, body, _) => {
            lemma_res_expr_wf(*val, st, binds, crate::ast::next_id(g));
            match res_expr(*val, st, binds, crate::ast::next_id(g)) {
                Ok((_, g2)) => {
                    lemma_res_expr_wf(*body, st, binds.insert(qn.name@, g), g2);
                },
                Err(_) => {},
            }
        },
        Expr::Ite(c, a, b, _) => {
            lemma_res_expr_wf(*c, st, binds, g);
            match res_expr(*c, st, binds, g) {
                Ok((_, g1)) => {
                    lemma_res_expr_wf(*a, st, binds, g1);
                    match res_expr(*a, st, binds, g1) {
                        Ok((_, g2)) => {
                            lemma_res_expr_wf(*b, st, binds, g2);
                        },
                        Err(_) => {},
                    }
                },
                Err(_) => {},
            }
        },
        Expr::Match(scrut, cases, _) => {
            lemma_res_expr_wf(*scrut, st, binds, g);
            match res_expr(*scrut, st, binds, g) {
                Ok((_, g1)) => {
                    lemma_res_cases_wf(cases, 0, st, binds, g1);
                },
                Err(_) => {},
            }
        },
        _ => {},
    }
}

} // verus!
