//! Checking that a resolved program is one the type checker can read: every class has its
//! parent type among the definitions, and every constructor pattern names a case class.
use std::collections::VecDeque;
use vstd::prelude::*;
use crate::ast::{DefinitionTable, Expr, Pattern, Symbol, SymbolicProgram};
use crate::typecheck::{
    SExpr, args_wf, cases_wf, expr_wf, map_keys, pat_wf, pats_wf, program_wf, table_wf,
};

verus! {

broadcast use {
    vstd::std_specs::vecdeque::group_vec_dequeue_axioms,
    vstd::std_specs::vec::group_vec_axioms,
    vstd::std_specs::hash::group_hash_axioms,
};

/// Whether every constructor pattern in `p` names a case class of `t`.
fn pat_ok(p: &Pattern<Symbol>, t: &DefinitionTable) -> (r: bool)
    ensures
        r == pat_wf(*p, *t),
    decreases p, 1nat,
{
    match p {
        Pattern::ClassPattern(sym, ps, _) => {
            if !t.class_defs.contains_key(&sym.id) {
                return false;
            }
            pats_ok(ps, t)
        },
        _ => true,
    }
}

/// Whether every constructor pattern in `ps` names a case class of `t`.
fn pats_ok(ps: &VecDeque<Pattern<Symbol>>, t: &DefinitionTable) -> (r: bool)
    ensures
        r == pats_wf(*ps, 0, *t),
    decreases ps, 0nat,
{
    let mut i: usize = 0;
    while i < ps.len()
        invariant
            i <= ps@.len(),
            pats_wf(*ps, 0, *t) == pats_wf(*ps, i as int, *t),
        decreases ps.len() - i,
    {
        proof {
            assert(decreases_to!(*ps => ps@[i as int]));
        }
        if !pat_ok(&ps[i], t) {
            return false;
        }
        i += 1;
    }
    true
}

/// Whether every constructor pattern in `args` names a case class of `t`.
fn args_ok(args: &VecDeque<SExpr>, t: &DefinitionTable) -> (r: bool)
    ensures
        r == args_wf(*args, 0, *t),
    decreases args, 0nat,
{
    let mut i: usize = 0;
    while i < args.len()
        invariant
            i <= args@.len(),
            args_wf(*args, 0, *t) == args_wf(*args, i as int, *t),
        decreases args.len() - i,
    {
        proof {
            assert(decreases_to!(*args => args@[i as int]));
        }
        if !expr_ok(&args[i], t) {
            return false;
        }
        i += 1;
    }
    true
}

/// Whether every constructor pattern in the cases `cases` names a case class of `t`.
fn cases_ok(cases: &VecDeque<(Pattern<Symbol>, SExpr)>, t: &DefinitionTable) -> (r: bool)
    ensures
        r == cases_wf(*cases, 0, *t),
    decreases cases, 0nat,
{
    let mut i: usize = 0;
    while i < cases.len()
        invariant
            i <= cases@.len(),
            cases_wf(*cases, 0, *t) == cases_wf(*cases, i as int, *t),
        decreases cases.len() - i,
    {
        proof {
            assert(decreases_to!(*cases => cases@[i as int]));
            assert(decreases_to!(cases@[i as int] => cases@[i as int].0));
            assert(decreases_to!(cases@[i as int] => cases@[i as int].1));
        }
        if !pat_ok(&cases[i].0, t) {
            return false;
        }
        if !expr_ok(&cases[i].1, t) {
            return false;
        }
        i += 1;
    }
    true
}

/// Whether every constructor pattern in `e` names a case class of `t`.
fn expr_ok(e: &SExpr, t: &DefinitionTable) -> (r: bool)
    ensures
        r == expr_wf(*e, *t),
    decreases e, 1nat,
{
    match e {
        Expr::Plus(l, r) | Expr::Minus(l, r) | Expr::Times(l, r) | Expr::Div(l, r)
        | Expr::Mod(l, r) | Expr::LessThan(l, r) | Expr::LessEquals(l, r) | Expr::And(l, r)
        | Expr::Or(l, r) | Expr::Equals(l, r) | Expr::Concat(l, r) | Expr::Sequence(l, r) => {
            expr_ok(l, t) && expr_ok(r, t)
        },
        Expr::Not(a, _) | Expr::Neg(a, _) | Expr::Error(a, _) => expr_ok(a, t),
        Expr::Call(_, args, _) => args_ok(args, t),
        Expr::Let(_, _, v, b, _) => expr_ok(v, t) && expr_ok(b, t),
        Expr::Ite(c, a, b, _) => expr_ok(c, t) && expr_ok(a, t) && expr_ok(b, t),
        Expr::Match(s, cases, _) => expr_ok(s, t) && cases_ok(cases, t),
        _ => true,
    }
}

/// Whether every case class of `t` has its parent type among the type definitions.
fn table_ok(t: &DefinitionTable) -> (r: bool)
    ensures
        r == table_wf(*t),
{
    let keys = map_keys(&t.class_defs);
    let mut i: usize = 0;
    while i < keys.len()
        invariant
            i <= keys@.len(),
            keys@.to_set() == t.class_defs@.dom(),
            forall|j: int| 0 <= j < i ==> t.type_defs@.contains_key(#[trigger] t.class_defs@[keys@[j]].parent.id),
        decreases keys.len() - i,
    {
        assert(keys@.to_set().contains(keys@[i as int]));
        let def = t.class_defs.get(&keys[i]).unwrap();
        if !t.type_defs.contains_key(&def.parent.id) {
            return false;
        }
        i += 1;
    }
    assert forall|id| #[trigger] t.class_defs@.contains_key(id) implies t.type_defs@.contains_key(t.class_defs@[id].parent.id) by {
        assert(keys@.to_set().contains(id));
        let j = choose|j: int| 0 <= j < keys@.len() && keys@[j] == id;
    }
    true
}

/// Whether the type checker can read `p` (see `program_wf`): every case class has its parent
/// type among the definitions, and every constructor pattern, in the function bodies and in
/// the expressions, names a case class.
pub fn program_ok(p: &SymbolicProgram) -> (r: bool)
    ensures
        r == program_wf(*p),
{
    let t = &p.table;
    if !table_ok(t) {
        return false;
    }
    let keys = map_keys(&t.fun_defs);
    let mut i: usize = 0;
    while i < keys.len()
        invariant
            i <= keys@.len(),
            keys@.to_set() == t.fun_defs@.dom(),
            *t == p.table,
            forall|j: int| 0 <= j < i ==> expr_wf(#[trigger] t.fun_defs@[keys@[j]].body, *t),
        decreases keys.len() - i,
    {
        assert(keys@.to_set().contains(keys@[i as int]));
        let def = t.fun_defs.get(&keys[i]).unwrap();
        if !expr_ok(&def.body, t) {
            return false;
        }
        i += 1;
    }
    assert forall|id| #[trigger] t.fun_defs@.contains_key(id) implies expr_wf(t.fun_defs@[id].body, *t) by {
        assert(keys@.to_set().contains(id));
        let j = choose|j: int| 0 <= j < keys@.len() && keys@[j] == id;
    }
    let mut k: usize = 0;
    while k < p.exprs.len()
        invariant
            k <= p.exprs@.len(),
            *t == p.table,
            forall|j: int| 0 <= j < k ==> expr_wf(#[trigger] p.exprs@[j], *t),
        decreases p.exprs.len() - k,
    {
        if !expr_ok(&p.exprs[k], t) {
            return false;
        }
        k += 1;
    }
    true
}

} // verus!
