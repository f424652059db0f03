//! Type checking: constraint collection over resolved programs and constraint solving by
//! unification.
pub mod constraint;
pub mod wellformed;

use std::collections::HashMap;
use std::collections::VecDeque;
use vstd::prelude::*;
use crate::ast::{
    DefinitionTable, Expr, ExprV, PatV, Pattern, SID, Symbol, SymbolGenerator, SymbolV,
    SymbolicProgram, SymbolicType, TypeV, copy_type, fresh_var_name, lemma_cases_view,
    lemma_exprs_view, lemma_params_view, lemma_pats_view, next_id, params_view, range, spec_range,
    type_text, type_view,
};
use crate::ast::environ::insert_all;
use crate::diagnostics::{Report, ReportV, Span, Stage};
use crate::text::{cat3, nat_digits, nat_to_string};
use crate::typecheck::constraint::{Constraint, ConstraintV};

verus! {

broadcast use {
    vstd::std_specs::vecdeque::group_vec_dequeue_axioms,
    vstd::std_specs::vec::group_vec_axioms,
    vstd::std_specs::hash::group_hash_axioms,
};

/// The model of a typing environment or a substitution.
pub open spec fn tmap_view(m: Map<SID, SymbolicType>) -> Map<SID, TypeV> {
    m.map_values(|t: SymbolicType| t@)
}

proof fn lemma_take_to_set(s: Seq<SID>, i: int)
    requires
        0 <= i < s.len(),
    ensures
        s.take(i + 1).to_set() == s.take(i).to_set().insert(s[i]),
{
    assert forall|x: SID| s.take(i + 1).to_set().contains(x) <==> s.take(i).to_set().insert(s[i]).contains(x) by {
        if s.take(i + 1).contains(x) {
            let j = choose|j: int| 0 <= j < i + 1 && #[trigger] s.take(i + 1)[j] == x;
            if j < i {
                assert(s.take(i)[j] == x);
            }
        }
        if s.take(i).contains(x) {
            let j = choose|j: int| 0 <= j < i && #[trigger] s.take(i)[j] == x;
            assert(s.take(i + 1)[j] == x);
        }
        if x == s[i] {
            assert(s.take(i + 1)[i] == x);
        }
    }
    assert(s.take(i + 1).to_set() =~= s.take(i).to_set().insert(s[i]));
}

/// Adds (or overrides with) the bindings of `src` to `dst`.
fn extend_env(dst: &mut HashMap<SID, SymbolicType>, src: &HashMap<SID, SymbolicType>)
    ensures
        tmap_view(final(dst)@) == tmap_view(old(dst)@).union_prefer_right(tmap_view(src@)),
{
    let ghost d0 = dst@;
    let ghost mut done: Set<SID> = Set::empty();
    for k in it: src.keys()
        invariant
            it.seq().unref().to_set() == src@.dom(),
            it.seq().unref().no_duplicates(),
            done == it.seq().unref().take(it.index()).to_set(),
            it.index() == it.seq().len() ==> done == src@.dom(),
            tmap_view(dst@) == tmap_view(d0).union_prefer_right(tmap_view(src@).restrict(done)),
    {
        let ghost before = dst@;
        let v = src.get(k).unwrap();
        let c = copy_type(v);
        let ghost cv = c@;
        dst.insert(*k, c);
        assert(src@.contains_key(*k) && src@[*k] == *v);
        assert(tmap_view(dst@) =~= tmap_view(before).insert(*k, cv));
        proof {
            done = done.insert(*k);
        }
        proof {
            assert(it.seq().unref().take(it.index() + 1) =~= it.seq().unref().take(it.index()).push(*k));
            lemma_take_to_set(it.seq().unref(), it.index());
            assert(tmap_view(dst@) =~= tmap_view(d0).union_prefer_right(tmap_view(src@).restrict(done)));
            assert(it.seq().unref().take(it.seq().len() as int) =~= it.seq().unref());
        }
    }
    assert(tmap_view(src@).restrict(src@.dom()) =~= tmap_view(src@));
}


/// A resolved expression.
pub type SExpr = Expr<Symbol, SymbolicType>;

// ---------------------------------------------------------------------------------------------
// Substitutions
// ---------------------------------------------------------------------------------------------

/// Replaces each type variable bound by `s` with its image.
pub open spec fn tsubst(t: TypeV, s: Map<SID, TypeV>) -> TypeV
    decreases t, 0nat,
{
    match t {
        TypeV::Class(n, id, ps) => TypeV::Class(n, id, tsubst_list(ps, s, 0)),
        TypeV::Var(n, id) => if s.contains_key(id) { s[id] } else { t },
        _ => t,
    }
}

/// `tsubst` on `ps[i..]`.
pub open spec fn tsubst_list(ps: Seq<TypeV>, s: Map<SID, TypeV>, i: int) -> Seq<TypeV>
    decreases ps, ps.len() - i,
{
    if 0 <= i < ps.len() {
        seq![tsubst(ps[i], s)] + tsubst_list(ps, s, i + 1)
    } else {
        Seq::empty()
    }
}

/// Replaces the type variable `from` with `to`.
pub open spec fn subst1(t: TypeV, from: SID, to: TypeV) -> TypeV
    decreases t, 0nat,
{
    match t {
        TypeV::Class(n, id, ps) => TypeV::Class(n, id, subst1_list(ps, from, to, 0)),
        TypeV::Var(n, id) => if id == from { to } else { t },
        _ => t,
    }
}

/// `subst1` on `ps[i..]`.
pub open spec fn subst1_list(ps: Seq<TypeV>, from: SID, to: TypeV, i: int) -> Seq<TypeV>
    decreases ps, ps.len() - i,
{
    if 0 <= i < ps.len() {
        seq![subst1(ps[i], from, to)] + subst1_list(ps, from, to, i + 1)
    } else {
        Seq::empty()
    }
}

pub proof fn lemma_tsubst_list(ps: Seq<TypeV>, s: Map<SID, TypeV>, i: int)
    requires
        0 <= i <= ps.len(),
    ensures
        tsubst_list(ps, s, i).len() == ps.len() - i,
        forall|j: int| 0 <= j < ps.len() - i ==> #[trigger] tsubst_list(ps, s, i)[j] == tsubst(ps[i + j], s),
    decreases ps.len() - i,
{
    if i < ps.len() {
        lemma_tsubst_list(ps, s, i + 1);
        assert forall|j: int| 0 <= j < ps.len() - i implies #[trigger] tsubst_list(ps, s, i)[j] == tsubst(ps[i + j], s) by {
            if j > 0 {
                assert(tsubst_list(ps, s, i)[j] == tsubst_list(ps, s, i + 1)[j - 1]);
            }
        }
    }
}

pub proof fn lemma_subst1_list(ps: Seq<TypeV>, from: SID, to: TypeV, i: int)
    requires
        0 <= i <= ps.len(),
    ensures
        subst1_list(ps, from, to, i).len() == ps.len() - i,
        forall|j: int| 0 <= j < ps.len() - i ==> #[trigger] subst1_list(ps, from, to, i)[j] == subst1(ps[i + j], from, to),
    decreases ps.len() - i,
{
    if i < ps.len() {
        lemma_subst1_list(ps, from, to, i + 1);
        assert forall|j: int| 0 <= j < ps.len() - i implies #[trigger] subst1_list(ps, from, to, i)[j] == subst1(ps[i + j], from, to) by {
            if j > 0 {
                assert(subst1_list(ps, from, to, i)[j] == subst1_list(ps, from, to, i + 1)[j - 1]);
            }
        }
    }
}

/// Replacing one variable is substituting by the map that binds only that variable.
pub proof fn law_subst1_is_tsubst(t: TypeV, from: SID, to: TypeV)
    ensures
        subst1(t, from, to) == tsubst(t, map![from => to]),
    decreases t,
{
    match t {
        TypeV::Class(n, id, ps) => {
            lemma_subst1_list(ps, from, to, 0);
            lemma_tsubst_list(ps, map![from => to], 0);
            assert forall|j: int| 0 <= j < ps.len() implies subst1(ps[j], from, to) == tsubst(ps[j], map![from => to]) by {
                law_subst1_is_tsubst(ps[j], from, to);
            }
            assert(subst1_list(ps, from, to, 0) =~= tsubst_list(ps, map![from => to], 0));
        },
        _ => {},
    }
}

/// Substituting by the empty map changes nothing.
pub proof fn law_tsubst_empty(t: TypeV)
    ensures
        tsubst(t, Map::empty()) == t,
    decreases t,
{
    match t {
        TypeV::Class(n, id, ps) => {
            lemma_tsubst_list(ps, Map::empty(), 0);
            assert forall|j: int| 0 <= j < ps.len() implies tsubst(ps[j], Map::empty()) == ps[j] by {
                law_tsubst_empty(ps[j]);
            }
            assert(tsubst_list(ps, Map::empty(), 0) =~= ps);
        },
        _ => {},
    }
}


/// Applies the substitution `subst` to `typ` (see `tsubst`).
pub fn type_subst(typ: &SymbolicType, subst: &HashMap<SID, SymbolicType>) -> (r: SymbolicType)
    ensures
        r@ == tsubst(typ@, tmap_view(subst@)),
    decreases typ,
{
    match typ {
        SymbolicType::IntType => SymbolicType::IntType,
        SymbolicType::BoolType => SymbolicType::BoolType,
        SymbolicType::StringType => SymbolicType::StringType,
        SymbolicType::UnitType => SymbolicType::UnitType,
        SymbolicType::ClassType(name, params) => {
            let ghost pv = params_view(*params, 0);
            proof {
                lemma_params_view(*params, 0);
                lemma_tsubst_list(pv, tmap_view(subst@), 0);
            }
            let mut newparams: VecDeque<SymbolicType> = VecDeque::new();
            let mut i: usize = 0;
            while i < params.len()
                invariant
                    i <= params@.len(),
                    newparams@.len() == i,
                    pv == params_view(*params, 0),
                    pv.len() == params@.len(),
                    forall|j: int| 0 <= j < params@.len() ==> #[trigger] pv[j] == type_view(params@[j]),
                    forall|j: int| 0 <= j < i ==> type_view(#[trigger] newparams@[j]) == tsubst(pv[j], tmap_view(subst@)),
                    *typ == SymbolicType::ClassType(*name, *params),
                decreases params.len() - i,
            {
                proof {
                    assert(decreases_to!(*typ => (*typ)->ClassType_1));
                    assert(decreases_to!(*params => params@[i as int]));
                }
                let p = type_subst(&params[i], subst);
                newparams.push_back(p);
                i += 1;
            }
            proof {
                lemma_params_view(newparams, 0);
                assert(params_view(newparams, 0) =~= tsubst_list(pv, tmap_view(subst@), 0));
            }
            SymbolicType::ClassType(name.duplicate(), newparams)
        },
        SymbolicType::Var(name) => match subst.get(&name.id) {
            None => SymbolicType::Var(name.duplicate()),
            Some(newtyp) => copy_type(newtyp),
        },
    }
}

/// `typ` with the type variable `from` replaced by `to` (see `subst1`).
fn subst_one(typ: &SymbolicType, from: SID, to: &SymbolicType) -> (r: SymbolicType)
    ensures
        r@ == subst1(typ@, from, to@),
    decreases typ,
{
    match typ {
        SymbolicType::IntType => SymbolicType::IntType,
        SymbolicType::BoolType => SymbolicType::BoolType,
        SymbolicType::StringType => SymbolicType::StringType,
        SymbolicType::UnitType => SymbolicType::UnitType,
        SymbolicType::ClassType(name, params) => {
            let ghost pv = params_view(*params, 0);
            proof {
                lemma_params_view(*params, 0);
                lemma_subst1_list(pv, from, to@, 0);
            }
            let mut newparams: VecDeque<SymbolicType> = VecDeque::new();
            let mut i: usize = 0;
            while i < params.len()
                invariant
                    i <= params@.len(),
                    newparams@.len() == i,
                    pv == params_view(*params, 0),
                    pv.len() == params@.len(),
                    forall|j: int| 0 <= j < params@.len() ==> #[trigger] pv[j] == type_view(params@[j]),
                    forall|j: int| 0 <= j < i ==> type_view(#[trigger] newparams@[j]) == subst1(pv[j], from, to@),
                    *typ == SymbolicType::ClassType(*name, *params),
                decreases params.len() - i,
            {
                proof {
                    assert(decreases_to!(*typ => (*typ)->ClassType_1));
                    assert(decreases_to!(*params => params@[i as int]));
                }
                let p = subst_one(&params[i], from, to);
                newparams.push_back(p);
                i += 1;
            }
            proof {
                lemma_params_view(newparams, 0);
                assert(params_view(newparams, 0) =~= subst1_list(pv, from, to@, 0));
            }
            SymbolicType::ClassType(name.duplicate(), newparams)
        },
        SymbolicType::Var(name) => if from == name.id {
            copy_type(to)
        } else {
            SymbolicType::Var(name.duplicate())
        },
    }
}

/// Replaces, in place, the type variable `from` with `to` in `typ`.
pub fn type_subst_mut(typ: &mut SymbolicType, from: SID, to: &SymbolicType)
    ensures
        final(typ)@ == subst1(old(typ)@, from, to@),
{
    let r = subst_one(typ, from, to);
    *typ = r;
}

/// The models of a sequence of constraints.
pub open spec fn cs_view(cs: Seq<Constraint>) -> Seq<ConstraintV> {
    cs.map_values(|c: Constraint| c@)
}

/// `cs` with the type variable `from` replaced by `to` on both sides of every constraint.
pub open spec fn subst_cs(cs: Seq<ConstraintV>, from: SID, to: TypeV) -> Seq<ConstraintV> {
    cs.map_values(|c: ConstraintV| ConstraintV { expected: subst1(c.expected, from, to), found: subst1(c.found, from, to), range: c.range })
}

/// Replaces, in place, the type variable `from` with `to` in every constraint.
pub fn constr_subst_mut(constraints: &mut VecDeque<Constraint>, from: SID, to: &SymbolicType)
    ensures
        cs_view(final(constraints)@) == subst_cs(cs_view(old(constraints)@), from, to@),
{
    let n = constraints.len();
    let ghost c0 = cs_view(constraints@);
    let mut i: usize = 0;
    while i < n
        invariant
            i <= n,
            n == c0.len(),
            constraints@.len() == n,
            forall|j: int| 0 <= j < n - i ==> (#[trigger] constraints@[j])@ == c0[i + j],
            forall|j: int| n - i <= j < n ==> (#[trigger] constraints@[j])@ == subst_cs(c0, from, to@)[j - (n - i)],
        decreases n - i,
    {
        let mut c = constraints.pop_front().unwrap();
        type_subst_mut(&mut c.expected, from, to);
        type_subst_mut(&mut c.found, from, to);
        constraints.push_back(c);
        i += 1;
    }
    assert(cs_view(constraints@) =~= subst_cs(c0, from, to@));
}


// ---------------------------------------------------------------------------------------------
// Solving
// ---------------------------------------------------------------------------------------------

/// The constraints equating the type arguments `p1` and `p2` pairwise (up to the shorter of
/// the two), last pair first.
pub open spec fn param_pairs(p1: Seq<TypeV>, p2: Seq<TypeV>, r: Span) -> Seq<ConstraintV> {
    let n = if p1.len() < p2.len() { p1.len() } else { p2.len() };
    Seq::new(n, |i: int| ConstraintV { expected: p1[n - 1 - i], found: p2[n - 1 - i], range: r })
}

/// A report of the type checking stage.
pub open spec fn terr(range: Span, msg: Seq<char>) -> ReportV {
    ReportV { stage: Stage::Typechecking, range, msg }
}

/// The message for a constraint whose two sides cannot be made equal.
pub open spec fn mismatch_msg(expected: TypeV, found: TypeV) -> Seq<char> {
    "Expected type `"@ + type_text(expected) + "`, found `"@ + type_text(found) + "`."@
}

/// The message for a call of function `name` with `given` arguments where it takes `takes`.
pub open spec fn call_arity_msg(name: Seq<char>, takes: nat, given: nat) -> Seq<char> {
    "Function `"@ + name + "` takes "@ + nat_digits(takes) + " arguments, but was given "@
        + nat_digits(given) + "."@
}

/// The message for a call of `name` that names no function and no constructor.
pub open spec fn call_unknown_msg(name: Seq<char>) -> Seq<char> {
    "Could not find function or constructor named `"@ + name + "`."@
}

/// The message for a call of `name` that names both a function and a constructor.
pub open spec fn call_ambiguous_msg(name: Seq<char>) -> Seq<char> {
    "Ambiguous call: `"@ + name + "` might refer to a function or a constructor."@
}

/// Solves the constraints `cs` in order, by unification, within `fuel` steps: `Ok` when every
/// constraint is solved, else the report on the constraint that failed (or on the first one
/// left when the steps are used up). A variable on either side is replaced by the other side
/// in the remaining constraints; equal primitive types are solved; two class types must be
/// the same class, and their type arguments are then equated.
pub open spec fn solve(fuel: nat, cs: Seq<ConstraintV>) -> Result<(), ReportV>
    decreases fuel,
{
    if cs.len() == 0 {
        Ok(())
    } else if fuel == 0 {
        Err(terr(cs[0].range, "Constraint solving did not finish."@))
    } else {
        let f = (fuel - 1) as nat;
        let cur = cs[0];
        let rest = cs.drop_first();
        match (cur.expected, cur.found) {
            (TypeV::Var(_, id), other) => solve(f, subst_cs(rest, id, other)),
            (other, TypeV::Var(_, id)) => solve(f, subst_cs(rest, id, other)),
            (TypeV::Int, TypeV::Int) => solve(f, rest),
            (TypeV::Str, TypeV::Str) => solve(f, rest),
            (TypeV::Bool, TypeV::Bool) => solve(f, rest),
            (TypeV::Unit, TypeV::Unit) => solve(f, rest),
            (TypeV::Class(_, id1, p1), TypeV::Class(_, id2, p2)) => if id1 != id2 {
                Err(terr(cur.range, mismatch_msg(cur.expected, cur.found)))
            } else {
                solve(f, param_pairs(p1, p2, cur.range) + rest)
            },
            _ => Err(terr(cur.range, mismatch_msg(cur.expected, cur.found))),
        }
    }
}

fn report(range: Span, msg: String) -> (r: Report)
    ensures
        r@ == terr(range, msg@),
{
    Report { stage: Stage::Typechecking, range, msg }
}

/// The message for a call of `name` given `given` arguments where it takes `takes`.
fn arity_text(name: &String, takes: usize, given: usize) -> (m: String)
    ensures
        m@ == call_arity_msg(name@, takes as nat, given as nat),
{
    proof {
        reveal_strlit("Function `");
        reveal_strlit("` takes ");
        reveal_strlit(" arguments, but was given ");
        reveal_strlit(".");
    }
    let mut m = cat3("Function `", name.as_str(), "` takes ");
    m.append(nat_to_string(takes as u64).as_str());
    m.append(" arguments, but was given ");
    m.append(nat_to_string(given as u64).as_str());
    m.append(".");
    assert(m@ =~= call_arity_msg(name@, takes as nat, given as nat));
    m
}

fn mismatch(expected: &SymbolicType, found: &SymbolicType, range: Span) -> (r: Report)
    ensures
        r@ == terr(range, mismatch_msg(expected@, found@)),
{
    proof {
        reveal_strlit("Expected type `");
        reveal_strlit("`, found `");
        reveal_strlit("`.");
    }
    let mut m = "Expected type `".to_owned();
    m.append(expected.show().as_str());
    m.append("`, found `");
    m.append(found.show().as_str());
    m.append("`.");
    assert(m@ =~= mismatch_msg(expected@, found@));
    report(range, m)
}

/// Solves the constraints (see `solve`, within `u64::MAX` steps), consuming them.
pub fn solve_constraints(constraints: &mut VecDeque<Constraint>) -> (r: Result<(), Report>)
    ensures
        match r {
            Ok(_) => Ok(()),
            Err(e) => Err(e@),
        } == solve(u64::MAX as nat, cs_view(old(constraints)@)),
        r is Ok ==> final(constraints)@.len() == 0,
        r matches Err(e) ==> e.stage == Stage::Typechecking,
{
    let mut fuel: u64 = u64::MAX;
    loop
        invariant
            solve(u64::MAX as nat, cs_view(old(constraints)@)) == solve(fuel as nat, cs_view(constraints@)),
        decreases fuel,
    {
        let ghost cs0 = cs_view(constraints@);
        match constraints.pop_front() {
            None => {
                return Ok(());
            },
            Some(cur) => {
                assert(cs0[0] == cur@);
                assert(cs_view(constraints@) =~= cs0.drop_first());
                if fuel == 0 {
                    proof {
                        reveal_strlit("Constraint solving did not finish.");
                    }
                    return Err(report(cur.range, "Constraint solving did not finish.".to_owned()));
                }
                fuel = fuel - 1;
                let range = cur.range;
                match (cur.expected, cur.found) {
                    (SymbolicType::Var(name), other) => {
                        constr_subst_mut(constraints, name.id, &other);
                    },
                    (other, SymbolicType::Var(name)) => {
                        constr_subst_mut(constraints, name.id, &other);
                    },
                    (SymbolicType::IntType, SymbolicType::IntType) => {},
                    (SymbolicType::StringType, SymbolicType::StringType) => {},
                    (SymbolicType::BoolType, SymbolicType::BoolType) => {},
                    (SymbolicType::UnitType, SymbolicType::UnitType) => {},
                    (SymbolicType::ClassType(n1, p1), SymbolicType::ClassType(n2, p2)) => {
                        if n1.id != n2.id {
                            return Err(mismatch(&SymbolicType::ClassType(n1, p1), &SymbolicType::ClassType(n2, p2), range));
                        }
                        let ghost pv1 = params_view(p1, 0);
                        let ghost pv2 = params_view(p2, 0);
                        let ghost rest0 = cs_view(constraints@);
                        proof {
                            lemma_params_view(p1, 0);
                            lemma_params_view(p2, 0);
                        }
                        let ghost n: int = if pv1.len() < pv2.len() { pv1.len() as int } else { pv2.len() as int };
                        let mut q1 = p1;
                        let mut q2 = p2;
                        let mut i: usize = 0;
                        let l1 = q1.len();
                        while q1.len() > 0 && q2.len() > 0
                            invariant
                                i <= n,
                                l1 == p1@.len(),
                                pv1.len() == p1@.len(),
                                pv2.len() == p2@.len(),
                                forall|j: int| 0 <= j < p1@.len() ==> #[trigger] pv1[j] == type_view(p1@[j]),
                                forall|j: int| 0 <= j < p2@.len() ==> #[trigger] pv2[j] == type_view(p2@[j]),
                                q1@ == p1@.skip(i as int),
                                q2@ == p2@.skip(i as int),
                                n == if pv1.len() < pv2.len() { pv1.len() as int } else { pv2.len() as int },
                                cs_view(constraints@).len() == i + rest0.len(),
                                cs_view(constraints@).skip(i as int) == rest0,
                                forall|j: int| 0 <= j < i ==> #[trigger] cs_view(constraints@)[j] == (ConstraintV { expected: pv1[i - 1 - j], found: pv2[i - 1 - j], range }),
                            decreases q1@.len(),
                        {
                            let a = q1.pop_front().unwrap();
                            let b = q2.pop_front().unwrap();
                            let ghost before = cs_view(constraints@);
                            assert(a == p1@[i as int]);
                            assert(b == p2@[i as int]);
                            constraints.push_front(Constraint::new(a, b, range));
                            i += 1;
                            assert(q1@ =~= p1@.skip(i as int));
                            assert(q2@ =~= p2@.skip(i as int));
                            assert(cs_view(constraints@) =~= seq![ConstraintV { expected: pv1[i - 1], found: pv2[i - 1], range }] + before);
                            assert(cs_view(constraints@).skip(i as int) =~= rest0);
                        }
                        assert(cs_view(constraints@) =~= param_pairs(pv1, pv2, range) + rest0);
                    },
                    (e, f) => {
                        return Err(mismatch(&e, &f, range));
                    },
                }
            },
        }
    }
}


// ---------------------------------------------------------------------------------------------
// Well-formedness of what the checker reads
// ---------------------------------------------------------------------------------------------

/// Every case class has its parent type among the type definitions.
pub open spec fn table_wf(t: DefinitionTable) -> bool {
    forall|id: SID| #[trigger] t.class_defs@.contains_key(id) ==> t.type_defs@.contains_key(t.class_defs@[id].parent.id)
}

/// Every constructor pattern in `p` names a case class of `t`.
pub open spec fn pat_wf(p: Pattern<Symbol>, t: DefinitionTable) -> bool
    decreases p, 0nat,
{
    match p {
        Pattern::ClassPattern(sym, ps, _) => t.class_defs@.contains_key(sym.id) && pats_wf(ps, 0, t),
        _ => true,
    }
}

pub open spec fn pats_wf(ps: VecDeque<Pattern<Symbol>>, i: int, t: DefinitionTable) -> bool
    decreases ps, ps@.len() - i,
{
    if 0 <= i < ps@.len() {
        pat_wf(ps@[i], t) && pats_wf(ps, i + 1, t)
    } else {
        true
    }
}

/// Every constructor pattern in `e` names a case class of `t`.
pub open spec fn expr_wf(e: SExpr, t: DefinitionTable) -> bool
    decreases e, 0nat,
{
    match e {
        Expr::Plus(l, r) => expr_wf(*l, t) && expr_wf(*r, t),
        Expr::Minus(l, r) => expr_wf(*l, t) && expr_wf(*r, t),
        Expr::Times(l, r) => expr_wf(*l, t) && expr_wf(*r, t),
        Expr::Div(l, r) => expr_wf(*l, t) && expr_wf(*r, t),
        Expr::Mod(l, r) => expr_wf(*l, t) && expr_wf(*r, t),
        Expr::LessThan(l, r) => expr_wf(*l, t) && expr_wf(*r, t),
        Expr::LessEquals(l, r) => expr_wf(*l, t) && expr_wf(*r, t),
        Expr::And(l, r) => expr_wf(*l, t) && expr_wf(*r, t),
        Expr::Or(l, r) => expr_wf(*l, t) && expr_wf(*r, t),
        Expr::Equals(l, r) => expr_wf(*l, t) && expr_wf(*r, t),
        Expr::Concat(l, r) => expr_wf(*l, t) && expr_wf(*r, t),
        Expr::Sequence(l, r) => expr_wf(*l, t) && expr_wf(*r, t),
        Expr::Not(a, _) => expr_wf(*a, t),
        Expr::Neg(a, _) => expr_wf(*a, t),
        Expr::Error(a, _) => expr_wf(*a, t),
        Expr::Call(_, args, _) => args_wf(args, 0, t),
        Expr::Let(_, _, v, b, _) => expr_wf(*v, t) && expr_wf(*b, t),
        Expr::Ite(c, a, b, _) => expr_wf(*c, t) && expr_wf(*a, t) && expr_wf(*b, t),
        Expr::Match(s, cases, _) => expr_wf(*s, t) && cases_wf(cases, 0, t),
        _ => true,
    }
}

pub open spec fn args_wf(args: VecDeque<SExpr>, i: int, t: DefinitionTable) -> bool
    decreases args, args@.len() - i,
{
    if 0 <= i < args@.len() {
        expr_wf(args@[i], t) && args_wf(args, i + 1, t)
    } else {
        true
    }
}

pub open spec fn cases_wf(cases: VecDeque<(Pattern<Symbol>, SExpr)>, i: int, t: DefinitionTable) -> bool
    decreases cases, cases@.len() - i,
{
    if 0 <= i < cases@.len() {
        pat_wf(cases@[i].0, t) && expr_wf(cases@[i].1, t) && cases_wf(cases, i + 1, t)
    } else {
        true
    }
}

/// Every constructor pattern in the model `p` names one of the case classes `cids`.
pub open spec fn patv_wf(p: PatV<SymbolV>, cids: Set<SID>) -> bool
    decreases p, 0nat,
{
    match p {
        PatV::ClassPattern(sym, ps, _) => cids.contains(sym.id) && patsv_wf(ps, 0, cids),
        _ => true,
    }
}

pub open spec fn patsv_wf(ps: Seq<PatV<SymbolV>>, i: int, cids: Set<SID>) -> bool
    decreases ps, ps.len() - i,
{
    if 0 <= i < ps.len() {
        proof {
            assert(decreases_to!(ps => ps[i]));
        }
        patv_wf(ps[i], cids) && patsv_wf(ps, i + 1, cids)
    } else {
        true
    }
}

/// Every constructor pattern in the model `e` names one of the case classes `cids`.
pub open spec fn exprv_wf(e: ExprV<SymbolV, TypeV>, cids: Set<SID>) -> bool
    decreases e, 0nat,
{
    match e {
        ExprV::Plus(l, r) => exprv_wf(*l, cids) && exprv_wf(*r, cids),
        ExprV::Minus(l, r) => exprv_wf(*l, cids) && exprv_wf(*r, cids),
        ExprV::Times(l, r) => exprv_wf(*l, cids) && exprv_wf(*r, cids),
        ExprV::Div(l, r) => exprv_wf(*l, cids) && exprv_wf(*r, cids),
        ExprV::Mod(l, r) => exprv_wf(*l, cids) && exprv_wf(*r, cids),
        ExprV::LessThan(l, r) => exprv_wf(*l, cids) && exprv_wf(*r, cids),
        ExprV::LessEquals(l, r) => exprv_wf(*l, cids) && exprv_wf(*r, cids),
        ExprV::And(l, r) => exprv_wf(*l, cids) && exprv_wf(*r, cids),
        ExprV::Or(l, r) => exprv_wf(*l, cids) && exprv_wf(*r, cids),
        ExprV::Equals(l, r) => exprv_wf(*l, cids) && exprv_wf(*r, cids),
        ExprV::Concat(l, r) => exprv_wf(*l, cids) && exprv_wf(*r, cids),
        ExprV::Sequence(l, r) => exprv_wf(*l, cids) && exprv_wf(*r, cids),
        ExprV::Not(a, _) => exprv_wf(*a, cids),
        ExprV::Neg(a, _) => exprv_wf(*a, cids),
        ExprV::Error(a, _) => exprv_wf(*a, cids),
        ExprV::Call(_, args, _) => argsv_wf(args, 0, cids),
        ExprV::Let(_, _, v, b, _) => exprv_wf(*v, cids) && exprv_wf(*b, cids),
        ExprV::Ite(c, a, b, _) => exprv_wf(*c, cids) && exprv_wf(*a, cids) && exprv_wf(*b, cids),
        ExprV::Match(sc, cases, _) => exprv_wf(*sc, cids) && casesv_wf(cases, 0, cids),
        _ => true,
    }
}

pub open spec fn argsv_wf(args: Seq<ExprV<SymbolV, TypeV>>, i: int, cids: Set<SID>) -> bool
    decreases args, args.len() - i,
{
    if 0 <= i < args.len() {
        proof {
            assert(decreases_to!(args => args[i]));
        }
        exprv_wf(args[i], cids) && argsv_wf(args, i + 1, cids)
    } else {
        true
    }
}

pub open spec fn casesv_wf(cases: Seq<(PatV<SymbolV>, ExprV<SymbolV, TypeV>)>, i: int, cids: Set<SID>) -> bool
    decreases cases, cases.len() - i,
{
    if 0 <= i < cases.len() {
        proof {
            assert(decreases_to!(cases => cases[i]));
            assert(decreases_to!(cases[i] => cases[i].0));
            assert(decreases_to!(cases[i] => cases[i].1));
        }
        patv_wf(cases[i].0, cids) && exprv_wf(cases[i].1, cids) && casesv_wf(cases, i + 1, cids)
    } else {
        true
    }
}

/// `patsv_wf` from `i` holds exactly when every pattern from `i` on is well formed.
pub proof fn lemma_patsv_all(ps: Seq<PatV<SymbolV>>, i: int, cids: Set<SID>)
    requires
        0 <= i,
    ensures
        patsv_wf(ps, i, cids) <==> forall|j: int| i <= j < ps.len() ==> #[trigger] patv_wf(ps[j], cids),
    decreases ps.len() - i,
{
    if i < ps.len() {
        lemma_patsv_all(ps, i + 1, cids);
        if forall|j: int| i <= j < ps.len() ==> #[trigger] patv_wf(ps[j], cids) {
            assert(patv_wf(ps[i], cids));
            assert forall|j: int| i + 1 <= j < ps.len() implies #[trigger] patv_wf(ps[j], cids) by {}
        }
    }
}

/// `argsv_wf` from `i` holds exactly when every expression from `i` on is well formed.
pub proof fn lemma_argsv_all(args: Seq<ExprV<SymbolV, TypeV>>, i: int, cids: Set<SID>)
    requires
        0 <= i,
    ensures
        argsv_wf(args, i, cids) <==> forall|j: int| i <= j < args.len() ==> #[trigger] exprv_wf(args[j], cids),
    decreases args.len() - i,
{
    if i < args.len() {
        lemma_argsv_all(args, i + 1, cids);
        if forall|j: int| i <= j < args.len() ==> #[trigger] exprv_wf(args[j], cids) {
            assert(exprv_wf(args[i], cids));
            assert forall|j: int| i + 1 <= j < args.len() implies #[trigger] exprv_wf(args[j], cids) by {}
        }
    }
}

/// `casesv_wf` from `i` holds exactly when every case from `i` on is well formed.
pub proof fn lemma_casesv_all(cases: Seq<(PatV<SymbolV>, ExprV<SymbolV, TypeV>)>, i: int, cids: Set<SID>)
    requires
        0 <= i,
    ensures
        casesv_wf(cases, i, cids) <==> forall|j: int| i <= j < cases.len() ==>
            patv_wf(#[trigger] cases[j].0, cids) && exprv_wf(cases[j].1, cids),
    decreases cases.len() - i,
{
    if i < cases.len() {
        lemma_casesv_all(cases, i + 1, cids);
        if forall|j: int| i <= j < cases.len() ==> patv_wf(#[trigger] cases[j].0, cids) && exprv_wf(cases[j].1, cids) {
            assert(patv_wf(cases[i].0, cids) && exprv_wf(cases[i].1, cids));
            assert forall|j: int| i + 1 <= j < cases.len() implies patv_wf(#[trigger] cases[j].0, cids) && exprv_wf(cases[j].1, cids) by {}
        }
    }
}

/// A pattern is well formed exactly when its model is, over the table's case classes.
proof fn lemma_pat_wf_view(p: Pattern<Symbol>, t: DefinitionTable)
    ensures
        pat_wf(p, t) == patv_wf(p@, t.class_defs@.dom()),
    decreases p, 1nat,
{
    match p {
        Pattern::ClassPattern(_, ps, _) => {
            lemma_pats_wf_view(ps, 0, t);
        },
        _ => {},
    }
}

proof fn lemma_pats_wf_view(ps: VecDeque<Pattern<Symbol>>, i: int, t: DefinitionTable)
    requires
        0 <= i <= ps@.len(),
    ensures
        pats_wf(ps, i, t) == patsv_wf(crate::ast::pats_view(ps, 0), i, t.class_defs@.dom()),
    decreases ps, ps@.len() - i,
{
    lemma_pats_view(ps, 0);
    if i < ps@.len() {
        assert(decreases_to!(ps => ps@[i]));
        lemma_pat_wf_view(ps@[i], t);
        lemma_pats_wf_view(ps, i + 1, t);
    }
}

/// An expression is well formed exactly when its model is, over the table's case classes.
pub proof fn lemma_expr_wf_view(e: SExpr, t: DefinitionTable)
    ensures
        expr_wf(e, t) == exprv_wf(e@, t.class_defs@.dom()),
    decreases e, 1nat,
{
    match e {
        Expr::Plus(l, r) | Expr::Minus(l, r) | Expr::Times(l, r) | Expr::Div(l, r)
        | Expr::Mod(l, r) | Expr::LessThan(l, r) | Expr::LessEquals(l, r) | Expr::And(l, r)
        | Expr::Or(l, r) | Expr::Equals(l, r) | Expr::Concat(l, r) | Expr::Sequence(l, r) => {
            lemma_expr_wf_view(*l, t);
            lemma_expr_wf_view(*r, t);
        },
        Expr::Not(a, _) | Expr::Neg(a, _) | Expr::Error(a, _) => {
            lemma_expr_wf_view(*a, t);
        },
        Expr::Call(_, args, _) => {
            lemma_args_wf_view(args, 0, t);
        },
        Expr::Let(_, _, v, b, _) => {
            lemma_expr_wf_view(*v, t);
            lemma_expr_wf_view(*b, t);
        },
        Expr::Ite(c, a, b, _) => {
            lemma_expr_wf_view(*c, t);
            lemma_expr_wf_view(*a, t);
            lemma_expr_wf_view(*b, t);
        },
        Expr::Match(sc, cases, _) => {
            lemma_expr_wf_view(*sc, t);
            lemma_cases_wf_view(cases, 0, t);
        },
        _ => {},
    }
}

proof fn lemma_args_wf_view(args: VecDeque<SExpr>, i: int, t: DefinitionTable)
    requires
        0 <= i <= args@.len(),
    ensures
        args_wf(args, i, t) == argsv_wf(crate::ast::exprs_view(args, 0), i, t.class_defs@.dom()),
    decreases args, args@.len() - i,
{
    lemma_exprs_view(args, 0);
    if i < args@.len() {
        assert(decreases_to!(args => args@[i]));
        lemma_expr_wf_view(args@[i], t);
        lemma_args_wf_view(args, i + 1, t);
    }
}

proof fn lemma_cases_wf_view(cases: VecDeque<(Pattern<Symbol>, SExpr)>, i: int, t: DefinitionTable)
    requires
        0 <= i <= cases@.len(),
    ensures
        cases_wf(cases, i, t) == casesv_wf(crate::ast::cases_view(cases, 0), i, t.class_defs@.dom()),
    decreases cases, cases@.len() - i,
{
    lemma_cases_view(cases, 0);
    if i < cases@.len() {
        assert(decreases_to!(cases => cases@[i]));
        assert(decreases_to!(cases@[i] => cases@[i].0));
        assert(decreases_to!(cases@[i] => cases@[i].1));
        lemma_pat_wf_view(cases@[i].0, t);
        lemma_expr_wf_view(cases@[i].1, t);
        lemma_cases_wf_view(cases, i + 1, t);
    }
}

// ---------------------------------------------------------------------------------------------
// Constraint collection
// ---------------------------------------------------------------------------------------------

/// The constraint `expected = found` at `range`.
pub open spec fn cv(expected: TypeV, found: TypeV, range: Span) -> ConstraintV {
    ConstraintV { expected, found, range }
}

/// The type variable that a generator at `g` hands out.
pub open spec fn fresh_tv(g: u64) -> TypeV {
    TypeV::Var(fresh_var_name(g), g)
}

/// A fresh type variable for each of `vars[i..]`: the variables (appended to `args`), the
/// substitution mapping each of `vars` to its variable (added to `sub`), and the generator after.
pub open spec fn fresh_vars(vars: Seq<Symbol>, i: int, g: u64, args: Seq<TypeV>, sub: Map<SID, TypeV>) -> (Seq<TypeV>, Map<SID, TypeV>, u64)
    decreases vars.len() - i,
{
    if i < 0 || i >= vars.len() {
        (args, sub, g)
    } else {
        fresh_vars(vars, i + 1, next_id(g), args.push(fresh_tv(g)), sub.insert(vars[i].id, fresh_tv(g)))
    }
}

/// The declared types of arguments.
pub open spec fn arg_types(params: Seq<(Symbol, SymbolicType)>) -> Seq<TypeV> {
    Seq::new(params.len(), |i: int| params[i].1@)
}

/// The declared types of arguments under a substitution.
pub open spec fn subst_types(params: Seq<(Symbol, SymbolicType)>, sub: Map<SID, TypeV>) -> Seq<TypeV> {
    Seq::new(params.len(), |i: int| tsubst(params[i].1@, sub))
}

/// The result of collecting constraints: the constraints (or the span of an error) and the
/// generator after.
pub type Collected = (Result<Seq<ConstraintV>, ReportV>, u64);

/// `top` followed by the constraints of the two operands, the second collected after the first.
pub open spec fn bin(top: ConstraintV, r1: Collected, r2: Collected) -> Collected {
    match r1.0 {
        Err(s) => (Err(s), r1.1),
        Ok(a) => match r2.0 {
            Err(s) => (Err(s), r2.1),
            Ok(b) => (Ok(seq![top] + a + b), r2.1),
        },
    }
}

/// `top` followed by the constraints of `r`.
pub open spec fn prepend(top: ConstraintV, r: Collected) -> Collected {
    match r.0 {
        Err(s) => (Err(s), r.1),
        Ok(a) => (Ok(seq![top] + a), r.1),
    }
}

/// The constraints of `r1` followed by those of `r2`.
pub open spec fn concat(r1: Collected, r2: Collected) -> Collected {
    match r1.0 {
        Err(s) => (Err(s), r1.1),
        Ok(a) => match r2.0 {
            Err(s) => (Err(s), r2.1),
            Ok(b) => (Ok(a + b), r2.1),
        },
    }
}

/// The constraints under which `e` has type `expected` in the environment `env`, collected
/// left to right, with fresh type variables handed out from `g`.
pub open spec fn collect(e: SExpr, expected: TypeV, env: Map<SID, TypeV>, t: DefinitionTable, g: u64) -> Collected
    decreases e, 0nat,
{
    match e {
        Expr::Variable(n, s) => if env.contains_key(n.id) {
            (Ok(seq![cv(expected, env[n.id], s)]), g)
        } else {
            (Err(terr(s, "Variable not present in the environment."@)), g)
        },
        Expr::IntLiteral(_, s) => (Ok(seq![cv(expected, TypeV::Int, s)]), g),
        Expr::BoolLiteral(_, s) => (Ok(seq![cv(expected, TypeV::Bool, s)]), g),
        Expr::StringLiteral(_, s) => (Ok(seq![cv(expected, TypeV::Str, s)]), g),
        Expr::UnitLiteral(s) => (Ok(seq![cv(expected, TypeV::Unit, s)]), g),
        Expr::Plus(l, r) => { let r1 = collect(*l, TypeV::Int, env, t, g); bin(cv(expected, TypeV::Int, spec_range(e)), r1, collect(*r, TypeV::Int, env, t, r1.1)) },
        Expr::Minus(l, r) => { let r1 = collect(*l, TypeV::Int, env, t, g); bin(cv(expected, TypeV::Int, spec_range(e)), r1, collect(*r, TypeV::Int, env, t, r1.1)) },
        Expr::Times(l, r) => { let r1 = collect(*l, TypeV::Int, env, t, g); bin(cv(expected, TypeV::Int, spec_range(e)), r1, collect(*r, TypeV::Int, env, t, r1.1)) },
        Expr::Div(l, r) => { let r1 = collect(*l, TypeV::Int, env, t, g); bin(cv(expected, TypeV::Int, spec_range(e)), r1, collect(*r, TypeV::Int, env, t, r1.1)) },
        Expr::Mod(l, r) => { let r1 = collect(*l, TypeV::Int, env, t, g); bin(cv(expected, TypeV::Int, spec_range(e)), r1, collect(*r, TypeV::Int, env, t, r1.1)) },
        Expr::LessThan(l, r) => { let r1 = collect(*l, TypeV::Int, env, t, g); bin(cv(expected, TypeV::Bool, spec_range(e)), r1, collect(*r, TypeV::Int, env, t, r1.1)) },
        Expr::LessEquals(l, r) => { let r1 = collect(*l, TypeV::Int, env, t, g); bin(cv(expected, TypeV::Bool, spec_range(e)), r1, collect(*r, TypeV::Int, env, t, r1.1)) },
        Expr::And(l, r) => { let r1 = collect(*l, TypeV::Bool, env, t, g); bin(cv(expected, TypeV::Bool, spec_range(e)), r1, collect(*r, TypeV::Bool, env, t, r1.1)) },
        Expr::Or(l, r) => { let r1 = collect(*l, TypeV::Bool, env, t, g); bin(cv(expected, TypeV::Bool, spec_range(e)), r1, collect(*r, TypeV::Bool, env, t, r1.1)) },
        Expr::Concat(l, r) => { let r1 = collect(*l, TypeV::Str, env, t, g); bin(cv(expected, TypeV::Str, spec_range(e)), r1, collect(*r, TypeV::Str, env, t, r1.1)) },
        Expr::Equals(l, r) => {
            let tv = fresh_tv(g);
            let r1 = collect(*l, tv, env, t, next_id(g));
            bin(cv(expected, TypeV::Bool, spec_range(e)), r1, collect(*r, tv, env, t, r1.1))
        },
        Expr::Not(a, s) => prepend(cv(expected, TypeV::Bool, s), collect(*a, TypeV::Bool, env, t, g)),
        Expr::Neg(a, s) => prepend(cv(expected, TypeV::Int, s), collect(*a, TypeV::Int, env, t, g)),
        Expr::Call(sym, args, s) => {
            let fd = t.fun_defs@.contains_key(sym.id);
            let cd = t.class_defs@.contains_key(sym.id);
            if fd && !cd {
                let def = t.fun_defs@[sym.id];
                if args@.len() != def.args@.len() {
                    (Err(terr(s, call_arity_msg(sym.name@, def.args@.len(), args@.len()))), g)
                } else {
                    prepend(cv(expected, def.rt@, s), collect_args(args, arg_types(def.args@), 0, env, t, g))
                }
            } else if !fd && cd {
                let def = t.class_defs@[sym.id];
                let tdef = t.type_defs@[def.parent.id];
                let (targs, sub, g1) = fresh_vars(tdef.type_vars@, 0, g, Seq::empty(), Map::empty());
                prepend(
                    cv(expected, TypeV::Class(tdef.name.name@, tdef.name.id, targs), s),
                    collect_args(args, subst_types(def.args@, sub), 0, env, t, g1),
                )
            } else if fd {
                (Err(terr(s, call_ambiguous_msg(sym.name@))), g)
            } else {
                (Err(terr(s, call_unknown_msg(sym.name@))), g)
            }
        },
        Expr::Sequence(a, b) => {
            let r1 = collect(*a, fresh_tv(g), env, t, next_id(g));
            concat(r1, collect(*b, expected, env, t, r1.1))
        },
        Expr::Let(name, typ, val, body, _) => {
            let r1 = collect(*val, typ@, env, t, g);
            concat(r1, collect(*body, expected, env.insert(name.id, typ@), t, r1.1))
        },
        Expr::Ite(c, a, b, _) => {
            let r1 = collect(*c, TypeV::Bool, env, t, g);
            let r2 = collect(*a, expected, env, t, r1.1);
            concat(r1, concat(r2, collect(*b, expected, env, t, r2.1)))
        },
        Expr::Match(scrut, cases, _) => {
            let tv = fresh_tv(g);
            let r1 = collect(*scrut, tv, env, t, next_id(g));
            match r1.0 {
                Err(s) => (Err(s), r1.1),
                Ok(c1) => collect_cases(cases, 0, tv, expected, env, t, c1, r1.1),
            }
        },
        Expr::Error(msg, _) => collect(*msg, TypeV::Str, env, t, g),
    }
}

/// The constraints of `args[i..]` against the expected `types` (up to the shorter of the two).
pub open spec fn collect_args(args: VecDeque<SExpr>, types: Seq<TypeV>, i: int, env: Map<SID, TypeV>, t: DefinitionTable, g: u64) -> Collected
    decreases args, args@.len() - i,
{
    if i < 0 || i >= args@.len() || i >= types.len() {
        (Ok(Seq::empty()), g)
    } else {
        let r1 = collect(args@[i], types[i], env, t, g);
        concat(r1, collect_args(args, types, i + 1, env, t, r1.1))
    }
}

/// The constraints of the cases `cases[i..]` of a match whose scrutinee has type `tv`, after
/// those already collected (`acc`): each pattern's, then its body's in the environment
/// extended with the pattern's bindings.
pub open spec fn collect_cases(cases: VecDeque<(Pattern<Symbol>, SExpr)>, i: int, tv: TypeV, expected: TypeV, env: Map<SID, TypeV>, t: DefinitionTable, acc: Seq<ConstraintV>, g: u64) -> Collected
    decreases cases, cases@.len() - i,
{
    if i < 0 || i >= cases@.len() {
        (Ok(acc), g)
    } else {
        let (pc, binds, g1) = pat_cons(cases@[i].0, tv, t, g);
        let r = collect(cases@[i].1, expected, env.union_prefer_right(binds), t, g1);
        match r.0 {
            Err(s) => (Err(s), r.1),
            Ok(bc) => collect_cases(cases, i + 1, tv, expected, env, t, acc + pc + bc, r.1),
        }
    }
}

/// The constraints under which a value of type `expected` can match `p`, the types of the
/// variables that `p` binds, and the generator after.
pub open spec fn pat_cons(p: Pattern<Symbol>, expected: TypeV, t: DefinitionTable, g: u64) -> (Seq<ConstraintV>, Map<SID, TypeV>, u64)
    decreases p, 0nat,
{
    match p {
        Pattern::Wildcard(_) => (Seq::empty(), Map::empty(), g),
        Pattern::IdPattern(name, _) => (Seq::empty(), map![name.id => expected], g),
        Pattern::BoolPattern(_, s) => (seq![cv(expected, TypeV::Bool, s)], Map::empty(), g),
        Pattern::StringPattern(_, s) => (seq![cv(expected, TypeV::Str, s)], Map::empty(), g),
        Pattern::IntPattern(_, s) => (seq![cv(expected, TypeV::Int, s)], Map::empty(), g),
        Pattern::UnitPattern(s) => (seq![cv(expected, TypeV::Unit, s)], Map::empty(), g),
        Pattern::ClassPattern(name, argpats, s) => {
            let def = t.class_defs@[name.id];
            let tdef = t.type_defs@[def.parent.id];
            let (targs, sub, g1) = fresh_vars(tdef.type_vars@, 0, g, Seq::empty(), Map::empty());
            let (cs, mp, g2) = pat_args(argpats, subst_types(def.args@, sub), 0, t, g1);
            (seq![cv(expected, TypeV::Class(tdef.name.name@, tdef.name.id, targs), s)] + cs, mp, g2)
        },
    }
}

/// `pat_cons` on `pats[i..]` against `types` (up to the shorter of the two): the constraints in
/// order, the bindings (a later one overriding), and the generator after.
pub open spec fn pat_args(pats: VecDeque<Pattern<Symbol>>, types: Seq<TypeV>, i: int, t: DefinitionTable, g: u64) -> (Seq<ConstraintV>, Map<SID, TypeV>, u64)
    decreases pats, pats@.len() - i,
{
    if i < 0 || i >= pats@.len() || i >= types.len() {
        (Seq::empty(), Map::empty(), g)
    } else {
        let (c1, m1, g1) = pat_cons(pats@[i], types[i], t, g);
        let (c2, m2, g2) = pat_args(pats, types, i + 1, t, g1);
        (c1 + c2, m1.union_prefer_right(m2), g2)
    }
}


// ---------------------------------------------------------------------------------------------
// Constraint collection: execution
// ---------------------------------------------------------------------------------------------

/// The model of a collection result.
pub open spec fn cres_view(r: Result<VecDeque<Constraint>, Report>) -> Result<Seq<ConstraintV>, ReportV> {
    match r {
        Ok(cs) => Ok(cs_view(cs@)),
        Err(e) => Err(e@),
    }
}

fn copy_env(env: &HashMap<SID, SymbolicType>) -> (r: HashMap<SID, SymbolicType>)
    ensures
        tmap_view(r@) == tmap_view(env@),
{
    let mut r: HashMap<SID, SymbolicType> = HashMap::new();
    extend_env(&mut r, env);
    assert(tmap_view(r@) =~= tmap_view(env@));
    r
}

/// Appends the constraints of `b` to `a`.
fn append_cs(a: &mut VecDeque<Constraint>, b: VecDeque<Constraint>)
    ensures
        cs_view(final(a)@) == cs_view(old(a)@) + cs_view(b@),
{
    let mut b = b;
    let ghost a0 = a@;
    let ghost b0 = b@;
    a.append(&mut b);
    assert(cs_view(a@) =~= cs_view(a0) + cs_view(b0));
}

/// A fresh type variable for each of `vars`, and the substitution from `vars` to them.
fn fresh_vars_exec(vars: &VecDeque<Symbol>, sg: &mut SymbolGenerator) -> (r: (VecDeque<SymbolicType>, HashMap<SID, SymbolicType>))
    ensures
        (params_view(r.0, 0), tmap_view(r.1@), final(sg).next_id) == fresh_vars(vars@, 0, old(sg).next_id, Seq::empty(), Map::empty()),
{
    let mut args: VecDeque<SymbolicType> = VecDeque::new();
    let mut sub: HashMap<SID, SymbolicType> = HashMap::new();
    let mut i: usize = 0;
    proof {
        lemma_params_view(args, 0);
        assert(params_view(args, 0) =~= Seq::<TypeV>::empty());
        assert(tmap_view(sub@) =~= Map::<SID, TypeV>::empty());
    }
    while i < vars.len()
        invariant
            i <= vars@.len(),
            fresh_vars(vars@, 0, old(sg).next_id, Seq::empty(), Map::empty())
                == fresh_vars(vars@, i as int, sg.next_id, params_view(args, 0), tmap_view(sub@)),
        decreases vars.len() - i,
    {
        let ghost g = sg.next_id;
        let ghost a0 = args;
        let ghost s0 = sub@;
        let tv = sg.fresh_type_var();
        let tv2 = copy_type(&tv);
        args.push_back(tv);
        sub.insert(vars[i].id, tv2);
        proof {
            lemma_params_view(a0, 0);
            lemma_params_view(args, 0);
            assert(params_view(args, 0) =~= params_view(a0, 0).push(fresh_tv(g)));
            assert(tmap_view(sub@) =~= tmap_view(s0).insert(vars@[i as int].id, fresh_tv(g)));
        }
        i += 1;
    }
    (args, sub)
}

/// The models of a vector of types.
pub open spec fn types_view(ts: Seq<SymbolicType>) -> Seq<TypeV> {
    ts.map_values(|t: SymbolicType| t@)
}


/// Copies of the declared types of arguments.
fn declared_types(params: &VecDeque<(Symbol, SymbolicType)>) -> (r: Vec<SymbolicType>)
    ensures
        types_view(r@) == arg_types(params@),
{
    let mut r: Vec<SymbolicType> = Vec::new();
    let mut i: usize = 0;
    while i < params.len()
        invariant
            i <= params@.len(),
            r@.len() == i,
            forall|j: int| 0 <= j < i ==> (#[trigger] r@[j])@ == params@[j].1@,
        decreases params.len() - i,
    {
        r.push(copy_type(&params[i].1));
        i += 1;
    }
    assert(types_view(r@) =~= arg_types(params@));
    r
}

/// The declared types of arguments under a substitution.
fn substituted_types(params: &VecDeque<(Symbol, SymbolicType)>, sub: &HashMap<SID, SymbolicType>) -> (r: Vec<SymbolicType>)
    ensures
        types_view(r@) == subst_types(params@, tmap_view(sub@)),
{
    let mut r: Vec<SymbolicType> = Vec::new();
    let mut i: usize = 0;
    while i < params.len()
        invariant
            i <= params@.len(),
            r@.len() == i,
            forall|j: int| 0 <= j < i ==> (#[trigger] r@[j])@ == tsubst(params@[j].1@, tmap_view(sub@)),
        decreases params.len() - i,
    {
        r.push(type_subst(&params[i].1, sub));
        i += 1;
    }
    assert(types_view(r@) =~= subst_types(params@, tmap_view(sub@)));
    r
}

proof fn lemma_union_assoc(a: Map<SID, TypeV>, b: Map<SID, TypeV>, c: Map<SID, TypeV>)
    ensures
        a.union_prefer_right(b).union_prefer_right(c) == a.union_prefer_right(b.union_prefer_right(c)),
{
    assert(a.union_prefer_right(b).union_prefer_right(c) =~= a.union_prefer_right(b.union_prefer_right(c)));
}

/// The constraints under which a value of type `expected` can match `pat`, and the types of
/// the variables that `pat` binds (see `pat_cons`); it always succeeds.
pub fn pattern_constraints(
    pat: &Pattern<Symbol>,
    expected: SymbolicType,
    table: &DefinitionTable,
    sg: &mut SymbolGenerator,
) -> (r: Result<(VecDeque<Constraint>, HashMap<SID, SymbolicType>), Report>)
    requires
        pat_wf(*pat, *table),
        table_wf(*table),
    ensures
        r matches Ok((cs, mp)) && (cs_view(cs@), tmap_view(mp@), final(sg).next_id) == pat_cons(*pat, expected@, *table, old(sg).next_id),
    decreases pat,
{
    let ghost ev = expected@;
    match pat {
        Pattern::Wildcard(_) => {
            let cs: VecDeque<Constraint> = VecDeque::new();
            let mp: HashMap<SID, SymbolicType> = HashMap::new();
            assert(cs_view(cs@) =~= Seq::<ConstraintV>::empty());
            assert(tmap_view(mp@) =~= Map::<SID, TypeV>::empty());
            Ok((cs, mp))
        },
        Pattern::IdPattern(name, _) => {
            let cs: VecDeque<Constraint> = VecDeque::new();
            let mut mp: HashMap<SID, SymbolicType> = HashMap::new();
            mp.insert(name.id, expected);
            assert(cs_view(cs@) =~= Seq::<ConstraintV>::empty());
            assert(tmap_view(mp@) =~= map![name.id => ev]);
            Ok((cs, mp))
        },
        Pattern::BoolPattern(_, s) | Pattern::StringPattern(_, s) | Pattern::IntPattern(_, s) | Pattern::UnitPattern(s) => {
            let found = match pat {
                Pattern::BoolPattern(_, _) => SymbolicType::BoolType,
                Pattern::StringPattern(_, _) => SymbolicType::StringType,
                Pattern::IntPattern(_, _) => SymbolicType::IntType,
                _ => SymbolicType::UnitType,
            };
            let mut cs: VecDeque<Constraint> = VecDeque::new();
            cs.push_back(Constraint::new(expected, found, *s));
            let mp: HashMap<SID, SymbolicType> = HashMap::new();
            assert(tmap_view(mp@) =~= Map::<SID, TypeV>::empty());
            assert(cs_view(cs@) =~= pat_cons(*pat, ev, *table, old(sg).next_id).0);
            Ok((cs, mp))
        },
        Pattern::ClassPattern(name, argpats, s) => {
            let def = table.class_defs.get(&name.id).unwrap();
            let tdef = table.type_defs.get(&def.parent.id).unwrap();
            let (type_args, subst) = fresh_vars_exec(&tdef.type_vars, sg);
            let types = substituted_types(&def.args, &subst);
            let ghost tys = types_view(types@);
            let mut res: VecDeque<Constraint> = VecDeque::new();
            res.push_back(Constraint::new(expected, SymbolicType::ClassType(tdef.name.duplicate(), type_args), *s));
            let ghost top = res@[0]@;
            let mut mp: HashMap<SID, SymbolicType> = HashMap::new();
            assert(tmap_view(mp@) =~= Map::<SID, TypeV>::empty());
            assert(cs_view(res@) =~= seq![top]);
            let ghost g1 = sg.next_id;
            let mut i: usize = 0;
            while i < argpats.len() && i < types.len()
                invariant
                    i <= argpats@.len(),
                    tys == types_view(types@),
                    tys.len() == types@.len(),
                    pat_wf(*pat, *table),
                    table_wf(*table),
                    *pat == Pattern::ClassPattern(*name, *argpats, *s),
                    ({
                        let (c, m, g) = pat_args(*argpats, tys, i as int, *table, sg.next_id);
                        pat_args(*argpats, tys, 0, *table, g1) == (cs_view(res@).drop_first() + c, tmap_view(mp@).union_prefer_right(m), g)
                    }),
                    cs_view(res@).len() >= 1,
                    cs_view(res@)[0] == top,
                decreases argpats.len() - i,
            {
                proof {
                    assert(decreases_to!(*pat => (*pat)->ClassPattern_1));
                    assert(decreases_to!(*argpats => argpats@[i as int]));
                    assert(pats_wf(*argpats, 0, *table));
                    assert(pat_wf(argpats@[i as int], *table)) by {
                        lemma_pats_wf(*argpats, 0, i as int, *table);
                    }
                }
                let ghost gi = sg.next_id;
                let ghost r0 = cs_view(res@);
                let ghost m0 = tmap_view(mp@);
                let (cc, cm) = match pattern_constraints(&argpats[i], copy_type(&types[i]), table, sg) {
                    Ok(x) => x,
                    Err(x) => { return Err(x); },
                };
                extend_env(&mut mp, &cm);
                append_cs(&mut res, cc);
                proof {
                    let (c1, m1, gg1) = pat_cons(argpats@[i as int], tys[i as int], *table, gi);
                    let (c2, m2, gg2) = pat_args(*argpats, tys, i + 1, *table, gg1);
                    lemma_union_assoc(m0, m1, m2);
                    assert(cs_view(res@).drop_first() + c2 =~= r0.drop_first() + (c1 + c2));
                    assert(cs_view(res@)[0] == top);
                }
                i += 1;
            }
            proof {
                let (c, m, g) = pat_args(*argpats, tys, i as int, *table, sg.next_id);
                assert(c =~= Seq::<ConstraintV>::empty());
                assert(m =~= Map::<SID, TypeV>::empty());
                assert(tmap_view(mp@).union_prefer_right(m) =~= tmap_view(mp@));
                assert(cs_view(res@) =~= seq![top] + (cs_view(res@).drop_first() + c));
            }
            Ok((res, mp))
        },
    }
}

proof fn lemma_pats_wf(ps: VecDeque<Pattern<Symbol>>, i: int, j: int, t: DefinitionTable)
    requires
        0 <= i <= j < ps@.len(),
        pats_wf(ps, i, t),
    ensures
        pat_wf(ps@[j], t),
    decreases j - i,
{
    if i < j {
        lemma_pats_wf(ps, i + 1, j, t);
    }
}


proof fn lemma_args_wf(args: VecDeque<SExpr>, i: int, j: int, t: DefinitionTable)
    requires
        0 <= i <= j < args@.len(),
        args_wf(args, i, t),
    ensures
        expr_wf(args@[j], t),
    decreases j - i,
{
    if i < j {
        lemma_args_wf(args, i + 1, j, t);
    }
}

proof fn lemma_cases_wf(cases: VecDeque<(Pattern<Symbol>, SExpr)>, i: int, j: int, t: DefinitionTable)
    requires
        0 <= i <= j < cases@.len(),
        cases_wf(cases, i, t),
    ensures
        pat_wf(cases@[j].0, t),
        expr_wf(cases@[j].1, t),
    decreases j - i,
{
    if i < j {
        lemma_cases_wf(cases, i + 1, j, t);
    }
}

fn single(c: Constraint) -> (r: VecDeque<Constraint>)
    ensures
        cs_view(r@) == seq![c@],
{
    let mut r: VecDeque<Constraint> = VecDeque::new();
    r.push_back(c);
    assert(cs_view(r@) =~= seq![c@]);
    r
}

/// The constraints of the two operands of a binary operator, after `top`.
fn bin_exec(
    Ghost(e): Ghost<SExpr>,
    l: &SExpr,
    r: &SExpr,
    lt: SymbolicType,
    rt: SymbolicType,
    top: Constraint,
    env: HashMap<SID, SymbolicType>,
    table: &DefinitionTable,
    sg: &mut SymbolGenerator,
) -> (res: Result<VecDeque<Constraint>, Report>)
    requires
        decreases_to!(e => *l),
        decreases_to!(e => *r),
        expr_wf(*l, *table),
        expr_wf(*r, *table),
        table_wf(*table),
    ensures
        (cres_view(res), final(sg).next_id) == ({
            let r1 = collect(*l, lt@, tmap_view(env@), *table, old(sg).next_id);
            bin(top@, r1, collect(*r, rt@, tmap_view(env@), *table, r1.1))
        }),
        res matches Err(x) ==> x.stage == Stage::Typechecking,
    decreases e, 1nat,
{
    let mut res = match collect_constraints(l, lt, copy_env(&env), table, sg) {
        Ok(x) => x,
        Err(x) => { return Err(x); },
    };
    let rhs = match collect_constraints(r, rt, env, table, sg) {
        Ok(x) => x,
        Err(x) => { return Err(x); },
    };
    let ghost a = cs_view(res@);
    let ghost b = cs_view(rhs@);
    let ghost tv = top@;
    append_cs(&mut res, rhs);
    let ghost mid = res@;
    assert(cs_view(mid) == a + b);
    res.push_front(top);
    assert(res@ =~= seq![top] + mid);
    assert(cs_view(res@) =~= seq![tv] + cs_view(mid));
    assert(cs_view(res@) =~= seq![tv] + a + b);
    Ok(res)
}

/// The constraints of `args` against the expected `types` (see `collect_args`).
fn collect_args_exec(
    args: &VecDeque<SExpr>,
    types: Vec<SymbolicType>,
    env: &HashMap<SID, SymbolicType>,
    table: &DefinitionTable,
    sg: &mut SymbolGenerator,
) -> (res: Result<VecDeque<Constraint>, Report>)
    requires
        args_wf(*args, 0, *table),
        table_wf(*table),
    ensures
        (cres_view(res), final(sg).next_id) == collect_args(*args, types_view(types@), 0, tmap_view(env@), *table, old(sg).next_id),
        res matches Err(x) ==> x.stage == Stage::Typechecking,
    decreases args, 1nat,
{
    let ghost tv = types_view(types@);
    let ghost ev = tmap_view(env@);
    let mut res: VecDeque<Constraint> = VecDeque::new();
    assert(cs_view(res@) =~= Seq::<ConstraintV>::empty());
    let mut i: usize = 0;
    while i < args.len() && i < types.len()
        invariant
            i <= args@.len(),
            tv == types_view(types@),
            tv.len() == types@.len(),
            ev == tmap_view(env@),
            args_wf(*args, 0, *table),
            table_wf(*table),
            collect_args(*args, tv, 0, ev, *table, old(sg).next_id)
                == concat((Ok(cs_view(res@)), sg.next_id), collect_args(*args, tv, i as int, ev, *table, sg.next_id)),
        decreases args.len() - i,
    {
        proof {
            assert(decreases_to!(*args => args@[i as int]));
            lemma_args_wf(*args, 0, i as int, *table);
        }
        let ghost acc = cs_view(res@);
        let c = match collect_constraints(&args[i], copy_type(&types[i]), copy_env(env), table, sg) {
            Ok(x) => x,
            Err(x) => { return Err(x); },
        };
        let ghost cv1 = cs_view(c@);
        append_cs(&mut res, c);
        proof {
            let rest = collect_args(*args, tv, i + 1, ev, *table, sg.next_id);
            match rest.0 {
                Ok(b) => { assert(acc + (cv1 + b) =~= (acc + cv1) + b); },
                Err(_) => {},
            }
        }
        i += 1;
    }
    proof {
        assert(cs_view(res@) + Seq::<ConstraintV>::empty() =~= cs_view(res@));
    }
    Ok(res)
}

/// The constraints of the cases of a match (see `collect_cases`).
fn collect_cases_exec(
    cases: &VecDeque<(Pattern<Symbol>, SExpr)>,
    tv: &SymbolicType,
    expected: &SymbolicType,
    env: &HashMap<SID, SymbolicType>,
    table: &DefinitionTable,
    sg: &mut SymbolGenerator,
    acc: VecDeque<Constraint>,
) -> (res: Result<VecDeque<Constraint>, Report>)
    requires
        cases_wf(*cases, 0, *table),
        table_wf(*table),
    ensures
        (cres_view(res), final(sg).next_id) == collect_cases(*cases, 0, tv@, expected@, tmap_view(env@), *table, cs_view(acc@), old(sg).next_id),
        res matches Err(x) ==> x.stage == Stage::Typechecking,
    decreases cases, 1nat,
{
    let ghost ev = tmap_view(env@);
    let mut res = acc;
    let mut i: usize = 0;
    while i < cases.len()
        invariant
            i <= cases@.len(),
            ev == tmap_view(env@),
            cases_wf(*cases, 0, *table),
            table_wf(*table),
            collect_cases(*cases, 0, tv@, expected@, ev, *table, cs_view(acc@), old(sg).next_id)
                == collect_cases(*cases, i as int, tv@, expected@, ev, *table, cs_view(res@), sg.next_id),
        decreases cases.len() - i,
    {
        proof {
            assert(decreases_to!(*cases => cases@[i as int]));
            assert(decreases_to!(cases@[i as int] => cases@[i as int].1));
            lemma_cases_wf(*cases, 0, i as int, *table);
        }
        let (pc, binds) = match pattern_constraints(&cases[i].0, copy_type(tv), table, sg) {
            Ok(x) => x,
            Err(x) => { return Err(x); },
        };
        append_cs(&mut res, pc);
        let mut curenv = copy_env(env);
        extend_env(&mut curenv, &binds);
        let bc = match collect_constraints(&cases[i].1, copy_type(expected), curenv, table, sg) {
            Ok(x) => x,
            Err(x) => { return Err(x); },
        };
        append_cs(&mut res, bc);
        i += 1;
    }
    Ok(res)
}

fn collect_unary(
    e: &SExpr,
    a: &SExpr,
    s: Span,
    bool_op: bool,
    expected: SymbolicType,
    env: HashMap<SID, SymbolicType>,
    table: &DefinitionTable,
    sg: &mut SymbolGenerator,
) -> (res: Result<VecDeque<Constraint>, Report>)
    requires
        expr_wf(*e, *table),
        table_wf(*table),
        (*e == Expr::Not(Box::new(*a), s) && bool_op) || (*e == Expr::Neg(Box::new(*a), s) && !bool_op),
    ensures
        (cres_view(res), final(sg).next_id) == collect(*e, expected@, tmap_view(env@), *table, old(sg).next_id),
        res matches Err(x) ==> x.stage == Stage::Typechecking,
    decreases *e, 1nat,
{
    let ghost ev = tmap_view(env@);
    let ghost exv = expected@;
    let mut res = match collect_constraints(a, if bool_op { SymbolicType::BoolType } else { SymbolicType::IntType }, env, table, sg) {
        Ok(x) => x,
        Err(x) => { return Err(x); },
    };
    let ghost c = cs_view(res@);
    res.push_front(Constraint::new(expected, if bool_op { SymbolicType::BoolType } else { SymbolicType::IntType }, s));
    assert(cs_view(res@) =~= seq![cv(exv, if bool_op { TypeV::Bool } else { TypeV::Int }, s)] + c);
    Ok(res)
}

fn collect_call(
    e: &SExpr,
    sym: &Symbol,
    args: &VecDeque<SExpr>,
    s: Span,
    expected: SymbolicType,
    env: HashMap<SID, SymbolicType>,
    table: &DefinitionTable,
    sg: &mut SymbolGenerator,
) -> (res: Result<VecDeque<Constraint>, Report>)
    requires
        expr_wf(*e, *table),
        table_wf(*table),
        *e == Expr::Call(*sym, *args, s),
    ensures
        (cres_view(res), final(sg).next_id) == collect(*e, expected@, tmap_view(env@), *table, old(sg).next_id),
        res matches Err(x) ==> x.stage == Stage::Typechecking,
    decreases *e, 1nat,
{
    let ghost ev = tmap_view(env@);
    let ghost exv = expected@;
    proof {
        assert(decreases_to!(*e => *args));
    }
    match (table.fun_defs.get(&sym.id), table.class_defs.get(&sym.id)) {
        (Some(def), None) => {
            if args.len() != def.args.len() {
                return Err(report(s, arity_text(&sym.name, def.args.len(), args.len())));
            }
            let types = declared_types(&def.args);
    let mut res = match collect_args_exec(args, types, &env, table, sg) {
                Ok(x) => x,
                Err(x) => { return Err(x); },
            };
        
            let ghost c = cs_view(res@);
            res.push_front(Constraint::new(expected, copy_type(&def.rt), s));
            assert(cs_view(res@) =~= seq![cv(exv, def.rt@, s)] + c);
            Ok(res)
        },
        (None, Some(def)) => {
            let tdef = table.type_defs.get(&def.parent.id).unwrap();
            let (type_args, subst) = fresh_vars_exec(&tdef.type_vars, sg);
            let types = substituted_types(&def.args, &subst);
            let top = Constraint::new(expected, SymbolicType::ClassType(tdef.name.duplicate(), type_args), s);
            let ghost topv = top@;
    let mut res = match collect_args_exec(args, types, &env, table, sg) {
                Ok(x) => x,
                Err(x) => { return Err(x); },
            };
        
            let ghost c = cs_view(res@);
            res.push_front(top);
            assert(cs_view(res@) =~= seq![topv] + c);
            Ok(res)
        },
        (Some(_), Some(_)) => {
            proof {
                reveal_strlit("Ambiguous call: `");
                reveal_strlit("` might refer to a function or a constructor.");
            }
            Err(report(s, cat3("Ambiguous call: `", sym.name.as_str(), "` might refer to a function or a constructor.")))
        },
        (None, None) => {
            proof {
                reveal_strlit("Could not find function or constructor named `");
                reveal_strlit("`.");
            }
            Err(report(s, cat3("Could not find function or constructor named `", sym.name.as_str(), "`.")))
        },
    }
}

fn collect_sequence(
    e: &SExpr,
    a: &SExpr,
    b: &SExpr,
    expected: SymbolicType,
    env: HashMap<SID, SymbolicType>,
    table: &DefinitionTable,
    sg: &mut SymbolGenerator,
) -> (res: Result<VecDeque<Constraint>, Report>)
    requires
        expr_wf(*e, *table),
        table_wf(*table),
        *e == Expr::Sequence(Box::new(*a), Box::new(*b)),
    ensures
        (cres_view(res), final(sg).next_id) == collect(*e, expected@, tmap_view(env@), *table, old(sg).next_id),
        res matches Err(x) ==> x.stage == Stage::Typechecking,
    decreases *e, 1nat,
{
    let ghost ev = tmap_view(env@);
    let ghost exv = expected@;
    let tv = sg.fresh_type_var();
    let mut res = match collect_constraints(a, tv, copy_env(&env), table, sg) {
        Ok(x) => x,
        Err(x) => { return Err(x); },
    };
    let more = match collect_constraints(b, expected, env, table, sg) {
        Ok(x) => x,
        Err(x) => { return Err(x); },
    };
    append_cs(&mut res, more);
    Ok(res)
}

fn collect_let(
    e: &SExpr,
    name: &Symbol,
    typ: &SymbolicType,
    val: &SExpr,
    body: &SExpr,
    s: Span,
    expected: SymbolicType,
    env: HashMap<SID, SymbolicType>,
    table: &DefinitionTable,
    sg: &mut SymbolGenerator,
) -> (res: Result<VecDeque<Constraint>, Report>)
    requires
        expr_wf(*e, *table),
        table_wf(*table),
        *e == Expr::Let(*name, *typ, Box::new(*val), Box::new(*body), s),
    ensures
        (cres_view(res), final(sg).next_id) == collect(*e, expected@, tmap_view(env@), *table, old(sg).next_id),
        res matches Err(x) ==> x.stage == Stage::Typechecking,
    decreases *e, 1nat,
{
    let ghost ev = tmap_view(env@);
    let ghost exv = expected@;
    let mut res = match collect_constraints(val, copy_type(typ), copy_env(&env), table, sg) {
        Ok(x) => x,
        Err(x) => { return Err(x); },
    };
    let mut env = env;
    env.insert(name.id, copy_type(typ));
    proof {
        assert(tmap_view(env@) =~= ev.insert(name.id, typ@));
    }
    let body_constr = match collect_constraints(body, expected, env, table, sg) {
        Ok(x) => x,
        Err(x) => { return Err(x); },
    };
    append_cs(&mut res, body_constr);
    Ok(res)
}

fn collect_ite(
    e: &SExpr,
    c: &SExpr,
    a: &SExpr,
    b: &SExpr,
    s: Span,
    expected: SymbolicType,
    env: HashMap<SID, SymbolicType>,
    table: &DefinitionTable,
    sg: &mut SymbolGenerator,
) -> (res: Result<VecDeque<Constraint>, Report>)
    requires
        expr_wf(*e, *table),
        table_wf(*table),
        *e == Expr::Ite(Box::new(*c), Box::new(*a), Box::new(*b), s),
    ensures
        (cres_view(res), final(sg).next_id) == collect(*e, expected@, tmap_view(env@), *table, old(sg).next_id),
        res matches Err(x) ==> x.stage == Stage::Typechecking,
    decreases *e, 1nat,
{
    let ghost ev = tmap_view(env@);
    let ghost exv = expected@;
    let mut res = match collect_constraints(c, SymbolicType::BoolType, copy_env(&env), table, sg) {
        Ok(x) => x,
        Err(x) => { return Err(x); },
    };
    let then_c = match collect_constraints(a, copy_type(&expected), copy_env(&env), table, sg) {
        Ok(x) => x,
        Err(x) => { return Err(x); },
    };
    let else_c = match collect_constraints(b, expected, env, table, sg) {
        Ok(x) => x,
        Err(x) => { return Err(x); },
    };
    let ghost c1 = cs_view(res@);
    let ghost c2 = cs_view(then_c@);
    let ghost c3 = cs_view(else_c@);
    append_cs(&mut res, then_c);
    append_cs(&mut res, else_c);
    assert(cs_view(res@) =~= c1 + (c2 + c3));
    Ok(res)
}

fn collect_match(
    e: &SExpr,
    scrut: &SExpr,
    cases: &VecDeque<(Pattern<Symbol>, SExpr)>,
    s: Span,
    expected: SymbolicType,
    env: HashMap<SID, SymbolicType>,
    table: &DefinitionTable,
    sg: &mut SymbolGenerator,
) -> (res: Result<VecDeque<Constraint>, Report>)
    requires
        expr_wf(*e, *table),
        table_wf(*table),
        *e == Expr::Match(Box::new(*scrut), *cases, s),
    ensures
        (cres_view(res), final(sg).next_id) == collect(*e, expected@, tmap_view(env@), *table, old(sg).next_id),
        res matches Err(x) ==> x.stage == Stage::Typechecking,
    decreases *e, 1nat,
{
    let ghost ev = tmap_view(env@);
    let ghost exv = expected@;
    proof {
        assert(decreases_to!(*e => *cases));
    }
    let tv = sg.fresh_type_var();
    let res = match collect_constraints(scrut, copy_type(&tv), copy_env(&env), table, sg) {
        Ok(x) => x,
        Err(x) => { return Err(x); },
    };
    collect_cases_exec(cases, &tv, &expected, &env, table, sg, res)
}

/// The constraints under which `expr` has type `expected` in the environment `env` (see
/// `collect`).
pub fn collect_constraints(
    expr: &SExpr,
    expected: SymbolicType,
    env: HashMap<SID, SymbolicType>,
    table: &DefinitionTable,
    sg: &mut SymbolGenerator,
) -> (res: Result<VecDeque<Constraint>, Report>)
    requires
        expr_wf(*expr, *table),
        table_wf(*table),
    ensures
        (cres_view(res), final(sg).next_id) == collect(*expr, expected@, tmap_view(env@), *table, old(sg).next_id),
        res matches Err(x) ==> x.stage == Stage::Typechecking,
    decreases *expr, 2nat,
{
    match expr {
        Expr::Variable(name, s) => match env.get(&name.id) {
            Some(typ) => Ok(single(Constraint::new(expected, copy_type(typ), *s))),
            None => {
                proof {
                    reveal_strlit("Variable not present in the environment.");
                }
                Err(report(*s, "Variable not present in the environment.".to_owned()))
            },
        },
        Expr::IntLiteral(_, s) => Ok(single(Constraint::new(expected, SymbolicType::IntType, *s))),
        Expr::BoolLiteral(_, s) => Ok(single(Constraint::new(expected, SymbolicType::BoolType, *s))),
        Expr::StringLiteral(_, s) => Ok(single(Constraint::new(expected, SymbolicType::StringType, *s))),
        Expr::UnitLiteral(s) => Ok(single(Constraint::new(expected, SymbolicType::UnitType, *s))),
        Expr::Plus(l, r) => bin_exec(Ghost(*expr), l, r, SymbolicType::IntType, SymbolicType::IntType, Constraint::new(expected, SymbolicType::IntType, range(expr)), env, table, sg),
        Expr::Minus(l, r) => bin_exec(Ghost(*expr), l, r, SymbolicType::IntType, SymbolicType::IntType, Constraint::new(expected, SymbolicType::IntType, range(expr)), env, table, sg),
        Expr::Times(l, r) => bin_exec(Ghost(*expr), l, r, SymbolicType::IntType, SymbolicType::IntType, Constraint::new(expected, SymbolicType::IntType, range(expr)), env, table, sg),
        Expr::Div(l, r) => bin_exec(Ghost(*expr), l, r, SymbolicType::IntType, SymbolicType::IntType, Constraint::new(expected, SymbolicType::IntType, range(expr)), env, table, sg),
        Expr::Mod(l, r) => bin_exec(Ghost(*expr), l, r, SymbolicType::IntType, SymbolicType::IntType, Constraint::new(expected, SymbolicType::IntType, range(expr)), env, table, sg),
        Expr::LessThan(l, r) => bin_exec(Ghost(*expr), l, r, SymbolicType::IntType, SymbolicType::IntType, Constraint::new(expected, SymbolicType::BoolType, range(expr)), env, table, sg),
        Expr::LessEquals(l, r) => bin_exec(Ghost(*expr), l, r, SymbolicType::IntType, SymbolicType::IntType, Constraint::new(expected, SymbolicType::BoolType, range(expr)), env, table, sg),
        Expr::And(l, r) => bin_exec(Ghost(*expr), l, r, SymbolicType::BoolType, SymbolicType::BoolType, Constraint::new(expected, SymbolicType::BoolType, range(expr)), env, table, sg),
        Expr::Or(l, r) => bin_exec(Ghost(*expr), l, r, SymbolicType::BoolType, SymbolicType::BoolType, Constraint::new(expected, SymbolicType::BoolType, range(expr)), env, table, sg),
        Expr::Concat(l, r) => bin_exec(Ghost(*expr), l, r, SymbolicType::StringType, SymbolicType::StringType, Constraint::new(expected, SymbolicType::StringType, range(expr)), env, table, sg),
        Expr::Equals(l, r) => {
            let tv = sg.fresh_type_var();
            let tv2 = copy_type(&tv);
            bin_exec(Ghost(*expr), l, r, tv, tv2, Constraint::new(expected, SymbolicType::BoolType, range(expr)), env, table, sg)
        },
        Expr::Not(a, s) => collect_unary(expr, a, *s, true, expected, env, table, sg),
        Expr::Neg(a, s) => collect_unary(expr, a, *s, false, expected, env, table, sg),
        Expr::Call(sym, args, s) => collect_call(expr, sym, args, *s, expected, env, table, sg),
        Expr::Sequence(a, b) => collect_sequence(expr, a, b, expected, env, table, sg),
        Expr::Let(name, typ, val, body, s) => collect_let(expr, name, typ, val, body, *s, expected, env, table, sg),
        Expr::Ite(c, a, b, s) => collect_ite(expr, c, a, b, *s, expected, env, table, sg),
        Expr::Match(scrut, cases, s) => collect_match(expr, scrut, cases, *s, expected, env, table, sg),
        Expr::Error(msg, _) => collect_constraints(msg, SymbolicType::StringType, env, table, sg),
    }
}


// ---------------------------------------------------------------------------------------------
// Type checking a program
// ---------------------------------------------------------------------------------------------

/// The environment of a function body: its arguments with their declared types (a later
/// argument overriding an earlier one with the same identifier).
pub open spec fn fun_env(args: Seq<(Symbol, SymbolicType)>) -> Map<SID, TypeV> {
    insert_all(Map::empty(), Seq::new(args.len(), |i: int| (args[i].0.id, args[i].1@)))
}

/// The constraints of the bodies of the functions `ks[i..]`, after `acc`.
pub open spec fn collect_funs(t: DefinitionTable, ks: Seq<SID>, i: int, acc: Seq<ConstraintV>, g: u64) -> Collected
    decreases ks.len() - i,
{
    if i < 0 || i >= ks.len() {
        (Ok(acc), g)
    } else {
        let def = t.fun_defs@[ks[i]];
        let r = collect(def.body, def.rt@, fun_env(def.args@), t, g);
        match r.0 {
            Err(s) => (Err(s), r.1),
            Ok(c) => collect_funs(t, ks, i + 1, acc + c, r.1),
        }
    }
}

/// The constraints of the expressions `es[i..]`, each expected to have a fresh type, after `acc`.
pub open spec fn collect_exprs(t: DefinitionTable, es: Seq<SExpr>, i: int, acc: Seq<ConstraintV>, g: u64) -> Collected
    decreases es.len() - i,
{
    if i < 0 || i >= es.len() {
        (Ok(acc), g)
    } else {
        let r = collect(es[i], fresh_tv(g), Map::empty(), t, next_id(g));
        match r.0 {
            Err(s) => (Err(s), r.1),
            Ok(c) => collect_exprs(t, es, i + 1, acc + c, r.1),
        }
    }
}

/// Type checking: the constraints of the function bodies, taken in the order `ks`, then of the
/// expressions, solved together; and the generator after.
pub open spec fn spec_typecheck(t: DefinitionTable, es: Seq<SExpr>, ks: Seq<SID>, g: u64) -> (Result<(), ReportV>, u64) {
    let (r1, g1) = collect_funs(t, ks, 0, Seq::empty(), g);
    match r1 {
        Err(s) => (Err(s), g1),
        Ok(c1) => {
            let (r2, g2) = collect_exprs(t, es, 0, c1, g1);
            match r2 {
                Err(s) => (Err(s), g2),
                Ok(c) => (solve(u64::MAX as nat, c), g2),
            }
        },
    }
}

/// What the checker reads is well formed: class parents and constructor patterns resolve.
pub open spec fn program_wf(p: SymbolicProgram) -> bool {
    &&& table_wf(p.table)
    &&& forall|id: SID| #[trigger] p.table.fun_defs@.contains_key(id) ==> expr_wf(p.table.fun_defs@[id].body, p.table)
    &&& forall|i: int| 0 <= i < p.exprs@.len() ==> expr_wf(#[trigger] p.exprs@[i], p.table)
}

/// The keys of a map, each once.
pub(crate) fn map_keys<V>(m: &HashMap<SID, V>) -> (r: Vec<SID>)
    ensures
        r@.no_duplicates(),
        r@.to_set() == m@.dom(),
{
    let mut r: Vec<SID> = Vec::new();
    let ghost mut done: Set<SID> = Set::empty();
    for k in it: m.keys()
        invariant
            it.seq().unref().to_set() == m@.dom(),
            it.seq().unref().no_duplicates(),
            r@ == it.seq().unref().take(it.index()),
            r@.no_duplicates(),
            done == r@.to_set(),
            it.index() == it.seq().len() ==> done == m@.dom(),
    {
        proof {
            done = done.insert(*k);
        }
        r.push(*k);
        proof {
            assert(r@ =~= it.seq().unref().take(it.index() + 1));
            lemma_take_to_set(it.seq().unref(), it.index());
            assert(it.seq().unref().take(it.seq().len() as int) =~= it.seq().unref());
        }
    }
    r
}


/// The typing environment of a function body (see `fun_env`).
fn args_env(args: &VecDeque<(Symbol, SymbolicType)>) -> (r: HashMap<SID, SymbolicType>)
    ensures
        tmap_view(r@) == fun_env(args@),
{
    let ghost pairs = Seq::new(args@.len(), |i: int| (args@[i].0.id, args@[i].1@));
    let mut env: HashMap<SID, SymbolicType> = HashMap::new();
    assert(tmap_view(env@) =~= Map::<SID, TypeV>::empty());
    assert(pairs.take(0) =~= Seq::<(SID, TypeV)>::empty());
    let mut i: usize = 0;
    while i < args.len()
        invariant
            i <= args@.len(),
            pairs == Seq::new(args@.len(), |i: int| (args@[i].0.id, args@[i].1@)),
            tmap_view(env@) == insert_all(Map::empty(), pairs.take(i as int)),
        decreases args.len() - i,
    {
        let ghost e0 = env@;
        env.insert(args[i].0.id, copy_type(&args[i].1));
        assert(pairs.take(i + 1).drop_last() =~= pairs.take(i as int));
        assert(tmap_view(env@) =~= tmap_view(e0).insert(args@[i as int].0.id, args@[i as int].1@));
        i += 1;
    }
    assert(pairs.take(args@.len() as int) =~= pairs);
    env
}

/// Type checks a resolved program: collects the constraints of every function body (in the
/// order in which the definition map is walked) and of every expression, then solves them all.
pub fn typecheck(program: &SymbolicProgram, sg: &mut SymbolGenerator) -> (r: Result<(), Report>)
    requires
        program_wf(*program),
    ensures
        exists|ks: Seq<SID>| {
            &&& ks.no_duplicates()
            &&& ks.to_set() == program.table.fun_defs@.dom()
            &&& (match r {
                Ok(_) => Ok(()),
                Err(e) => Err(e@),
            }, final(sg).next_id) == spec_typecheck(program.table, program.exprs@, ks, old(sg).next_id)
        },
        r matches Err(x) ==> x.stage == Stage::Typechecking,
{
    let keys = map_keys(&program.table.fun_defs);
    let r = typecheck_in_order(program, &keys, sg);
    assert(keys@.no_duplicates() && keys@.to_set() == program.table.fun_defs@.dom() && (match r {
        Ok(_) => Ok(()),
        Err(e) => Err(e@),
    }, sg.next_id) == spec_typecheck(program.table, program.exprs@, keys@, old(sg).next_id));
    r
}

/// Type checks a resolved program, taking the function bodies in the order `keys`.
fn typecheck_in_order(program: &SymbolicProgram, keys: &Vec<SID>, sg: &mut SymbolGenerator) -> (r: Result<(), Report>)
    requires
        program_wf(*program),
        keys@.to_set() == program.table.fun_defs@.dom(),
    ensures
        (match r {
            Ok(_) => Ok(()),
            Err(e) => Err(e@),
        }, final(sg).next_id) == spec_typecheck(program.table, program.exprs@, keys@, old(sg).next_id),
        r matches Err(x) ==> x.stage == Stage::Typechecking,
{
    let table = &program.table;
    let ghost ks = keys@;
    let mut constraints: VecDeque<Constraint> = VecDeque::new();
    assert(cs_view(constraints@) =~= Seq::<ConstraintV>::empty());
    let mut i: usize = 0;
    while i < keys.len()
        invariant
            program_wf(*program),
            *table == program.table,
            ks == keys@,
            ks.to_set() == table.fun_defs@.dom(),
            i <= ks.len(),
            collect_funs(*table, ks, 0, Seq::empty(), old(sg).next_id)
                == collect_funs(*table, ks, i as int, cs_view(constraints@), sg.next_id),
        decreases keys.len() - i,
    {
        assert(ks.to_set().contains(ks[i as int]));
        let fdef = table.fun_defs.get(&keys[i]).unwrap();
        let env = args_env(&fdef.args);
        let c = match collect_constraints(&fdef.body, copy_type(&fdef.rt), env, table, sg) {
            Ok(x) => x,
            Err(x) => { return Err(x); },
        };
        append_cs(&mut constraints, c);
        i += 1;
    }
    let ghost c1 = cs_view(constraints@);
    let ghost g1 = sg.next_id;
    assert(collect_funs(*table, ks, 0, Seq::empty(), old(sg).next_id) == (Ok::<Seq<ConstraintV>, ReportV>(c1), g1));
    let mut j: usize = 0;
    while j < program.exprs.len()
        invariant
            program_wf(*program),
            *table == program.table,
            j <= program.exprs@.len(),
            ks == keys@,
            collect_funs(*table, ks, 0, Seq::empty(), old(sg).next_id) == (Ok::<Seq<ConstraintV>, ReportV>(c1), g1),
            collect_exprs(*table, program.exprs@, 0, c1, g1)
                == collect_exprs(*table, program.exprs@, j as int, cs_view(constraints@), sg.next_id),
        decreases program.exprs.len() - j,
    {
        let ghost gj = sg.next_id;
        let ghost before = cs_view(constraints@);
        let tv = sg.fresh_type_var();
        let empty: HashMap<SID, SymbolicType> = HashMap::new();
        assert(tmap_view(empty@) =~= Map::<SID, TypeV>::empty());
        let c = match collect_constraints(&program.exprs[j], tv, empty, table, sg) {
            Ok(x) => x,
            Err(x) => {
                assert(collect_exprs(*table, program.exprs@, j as int, before, gj) == (Err::<Seq<ConstraintV>, ReportV>(x@), sg.next_id));
                assert(collect_exprs(*table, program.exprs@, 0, c1, g1) == (Err::<Seq<ConstraintV>, ReportV>(x@), sg.next_id));
                assert(spec_typecheck(program.table, program.exprs@, keys@, old(sg).next_id) == (Err::<(), ReportV>(x@), sg.next_id));
                return Err(x);
            },
        };
        append_cs(&mut constraints, c);
        j += 1;
    }
    solve_constraints(&mut constraints)
}


/// Collecting `e`, built from the operands `l` and `r`, gives first the constraint that `e`
/// has type `result`, then those of `l` and of `r`, each expected to have type `operand`.
pub open spec fn typed_binary(e: SExpr, l: SExpr, r: SExpr, result: TypeV, operand: TypeV, expected: TypeV, env: Map<SID, TypeV>, t: DefinitionTable, g: u64) -> bool {
    let r1 = collect(l, operand, env, t, g);
    let r2 = collect(r, operand, env, t, r1.1);
    r1.0 is Ok && r2.0 is Ok ==> collect(e, expected, env, t, g) == (
        Ok::<Seq<ConstraintV>, ReportV>(seq![ConstraintV { expected, found: result, range: spec_range(e) }] + r1.0->Ok_0 + r2.0->Ok_0),
        r2.1,
    )
}

/// The types of the operators: `+`, `-`, `*`, `/` and `%` take and give integers; `<` and
/// `<=` take integers and give a boolean; `&&` and `||` take and give booleans; `++` takes and
/// gives strings; `!` takes and gives a boolean, and unary `-` an integer.
pub proof fn law_collect_operator_types(l: SExpr, r: SExpr, s: Span, expected: TypeV, env: Map<SID, TypeV>, t: DefinitionTable, g: u64)
    ensures
        typed_binary(Expr::Plus(Box::new(l), Box::new(r)), l, r, TypeV::Int, TypeV::Int, expected, env, t, g),
        typed_binary(Expr::Minus(Box::new(l), Box::new(r)), l, r, TypeV::Int, TypeV::Int, expected, env, t, g),
        typed_binary(Expr::Times(Box::new(l), Box::new(r)), l, r, TypeV::Int, TypeV::Int, expected, env, t, g),
        typed_binary(Expr::Div(Box::new(l), Box::new(r)), l, r, TypeV::Int, TypeV::Int, expected, env, t, g),
        typed_binary(Expr::Mod(Box::new(l), Box::new(r)), l, r, TypeV::Int, TypeV::Int, expected, env, t, g),
        typed_binary(Expr::LessThan(Box::new(l), Box::new(r)), l, r, TypeV::Bool, TypeV::Int, expected, env, t, g),
        typed_binary(Expr::LessEquals(Box::new(l), Box::new(r)), l, r, TypeV::Bool, TypeV::Int, expected, env, t, g),
        typed_binary(Expr::And(Box::new(l), Box::new(r)), l, r, TypeV::Bool, TypeV::Bool, expected, env, t, g),
        typed_binary(Expr::Or(Box::new(l), Box::new(r)), l, r, TypeV::Bool, TypeV::Bool, expected, env, t, g),
        typed_binary(Expr::Concat(Box::new(l), Box::new(r)), l, r, TypeV::Str, TypeV::Str, expected, env, t, g),
        collect(l, TypeV::Bool, env, t, g).0 is Ok ==> collect(Expr::Not(Box::new(l), s), expected, env, t, g) == (
            Ok::<Seq<ConstraintV>, ReportV>(seq![ConstraintV { expected, found: TypeV::Bool, range: s }] + collect(l, TypeV::Bool, env, t, g).0->Ok_0),
            collect(l, TypeV::Bool, env, t, g).1,
        ),
        collect(l, TypeV::Int, env, t, g).0 is Ok ==> collect(Expr::Neg(Box::new(l), s), expected, env, t, g) == (
            Ok::<Seq<ConstraintV>, ReportV>(seq![ConstraintV { expected, found: TypeV::Int, range: s }] + collect(l, TypeV::Int, env, t, g).0->Ok_0),
            collect(l, TypeV::Int, env, t, g).1,
        ),
{
}

/// Constraints that each equate `Boolean` with `Boolean` are all solved.
proof fn lemma_solve_bools(cs: Seq<ConstraintV>)
    requires
        cs.len() <= 3,
        forall|i: int| 0 <= i < cs.len() ==> (#[trigger] cs[i]).expected == TypeV::Bool && cs[i].found == TypeV::Bool,
    ensures
        solve(u64::MAX as nat, cs) is Ok,
    decreases cs.len(),
{
    if cs.len() > 0 {
        let rest = cs.drop_first();
        lemma_solve_bools_fuel(rest, (u64::MAX - 1) as nat);
    }
}

proof fn lemma_solve_bools_fuel(cs: Seq<ConstraintV>, fuel: nat)
    requires
        cs.len() <= fuel,
        forall|i: int| 0 <= i < cs.len() ==> (#[trigger] cs[i]).expected == TypeV::Bool && cs[i].found == TypeV::Bool,
    ensures
        solve(fuel, cs) is Ok,
    decreases cs.len(),
{
    if cs.len() > 0 {
        let rest = cs.drop_first();
        assert forall|i: int| 0 <= i < rest.len() implies (#[trigger] rest[i]).expected == TypeV::Bool && rest[i].found == TypeV::Bool by {
            assert(rest[i] == cs[i + 1]);
        }
        lemma_solve_bools_fuel(rest, (fuel - 1) as nat);
    }
}

/// A boolean condition built with `&&` or `||` from boolean literals type checks as a
/// boolean: its constraints are all solved.
pub proof fn law_boolean_literals_check(a: bool, b: bool, sa: Span, sb: Span, env: Map<SID, TypeV>, t: DefinitionTable, g: u64)
    ensures
        ({
            let l = Expr::BoolLiteral(a, sa);
            let r = Expr::BoolLiteral(b, sb);
            &&& collect(Expr::And(Box::new(l), Box::new(r)), TypeV::Bool, env, t, g).0 matches Ok(cs)
                && solve(u64::MAX as nat, cs) is Ok
            &&& collect(Expr::Or(Box::new(l), Box::new(r)), TypeV::Bool, env, t, g).0 matches Ok(cs)
                && solve(u64::MAX as nat, cs) is Ok
        }),
{
    let l = Expr::BoolLiteral(a, sa);
    let r = Expr::BoolLiteral(b, sb);
    let e1 = Expr::And(Box::new(l), Box::new(r));
    let e2 = Expr::Or(Box::new(l), Box::new(r));
    assert(collect(l, TypeV::Bool, env, t, g) == (Ok::<Seq<ConstraintV>, ReportV>(seq![cv(TypeV::Bool, TypeV::Bool, sa)]), g));
    assert(collect(r, TypeV::Bool, env, t, g) == (Ok::<Seq<ConstraintV>, ReportV>(seq![cv(TypeV::Bool, TypeV::Bool, sb)]), g));
    let c1 = seq![cv(TypeV::Bool, TypeV::Bool, spec_range(e1))] + seq![cv(TypeV::Bool, TypeV::Bool, sa)] + seq![cv(TypeV::Bool, TypeV::Bool, sb)];
    let c2 = seq![cv(TypeV::Bool, TypeV::Bool, spec_range(e2))] + seq![cv(TypeV::Bool, TypeV::Bool, sa)] + seq![cv(TypeV::Bool, TypeV::Bool, sb)];
    assert(collect(e1, TypeV::Bool, env, t, g).0 == Ok::<Seq<ConstraintV>, ReportV>(c1));
    assert(collect(e2, TypeV::Bool, env, t, g).0 == Ok::<Seq<ConstraintV>, ReportV>(c2));
    lemma_solve_bools(c1);
    lemma_solve_bools(c2);
}


/// Literals have their own types; a condition is expected to be a boolean and both branches
/// of a conditional to have the type expected of the whole; the operands of `==` are expected
/// to have one and the same fresh type, and the comparison is a boolean.
pub proof fn law_collect_literals_and_control(c: SExpr, a: SExpr, b: SExpr, i: i32, x: bool, st: String, s: Span, expected: TypeV, env: Map<SID, TypeV>, t: DefinitionTable, g: u64)
    ensures
        collect(Expr::IntLiteral(i, s), expected, env, t, g) == (Ok::<Seq<ConstraintV>, ReportV>(seq![ConstraintV { expected, found: TypeV::Int, range: s }]), g),
        collect(Expr::BoolLiteral(x, s), expected, env, t, g) == (Ok::<Seq<ConstraintV>, ReportV>(seq![ConstraintV { expected, found: TypeV::Bool, range: s }]), g),
        collect(Expr::StringLiteral(st, s), expected, env, t, g) == (Ok::<Seq<ConstraintV>, ReportV>(seq![ConstraintV { expected, found: TypeV::Str, range: s }]), g),
        collect(Expr::UnitLiteral(s), expected, env, t, g) == (Ok::<Seq<ConstraintV>, ReportV>(seq![ConstraintV { expected, found: TypeV::Unit, range: s }]), g),
        ({
            let r1 = collect(c, TypeV::Bool, env, t, g);
            let r2 = collect(a, expected, env, t, r1.1);
            let r3 = collect(b, expected, env, t, r2.1);
            r1.0 is Ok && r2.0 is Ok && r3.0 is Ok ==> collect(Expr::Ite(Box::new(c), Box::new(a), Box::new(b), s), expected, env, t, g)
                == (Ok::<Seq<ConstraintV>, ReportV>(r1.0->Ok_0 + r2.0->Ok_0 + r3.0->Ok_0), r3.1)
        }),
        ({
            let e = Expr::Equals(Box::new(a), Box::new(b));
            let tv = TypeV::Var(fresh_var_name(g), g);
            let r1 = collect(a, tv, env, t, next_id(g));
            let r2 = collect(b, tv, env, t, r1.1);
            r1.0 is Ok && r2.0 is Ok ==> collect(e, expected, env, t, g) == (
                Ok::<Seq<ConstraintV>, ReportV>(seq![ConstraintV { expected, found: TypeV::Bool, range: spec_range(e) }] + r1.0->Ok_0 + r2.0->Ok_0),
                r2.1,
            )
        }),
{
    let r1 = collect(c, TypeV::Bool, env, t, g);
    let r2 = collect(a, expected, env, t, r1.1);
    let r3 = collect(b, expected, env, t, r2.1);
    if r1.0 is Ok && r2.0 is Ok && r3.0 is Ok {
        assert(r1.0->Ok_0 + (r2.0->Ok_0 + r3.0->Ok_0) =~= r1.0->Ok_0 + r2.0->Ok_0 + r3.0->Ok_0);
    }
}


/// A variable has the type the environment gives it, and is an error where the environment
/// has none; `val x: T = e; x` checks `e` against `T` and then has type `T` itself.
pub proof fn law_collect_variables(x: Symbol, xs: Span, y: Symbol, ys: Span, typ: SymbolicType, e: SExpr, s: Span, expected: TypeV, env: Map<SID, TypeV>, t: DefinitionTable, g: u64)
    requires
        y.id == x.id,
    ensures
        env.contains_key(x.id) ==> collect(Expr::Variable(x, xs), expected, env, t, g)
            == (Ok::<Seq<ConstraintV>, ReportV>(seq![ConstraintV { expected, found: env[x.id], range: xs }]), g),
        !env.contains_key(x.id) ==> collect(Expr::Variable(x, xs), expected, env, t, g).0 is Err,
        collect(e, typ@, env, t, g).0 is Ok ==> collect(Expr::Let(x, typ, Box::new(e), Box::new(Expr::Variable(y, ys)), s), expected, env, t, g)
            == (Ok::<Seq<ConstraintV>, ReportV>(collect(e, typ@, env, t, g).0->Ok_0
                + seq![ConstraintV { expected, found: typ@, range: ys }]), collect(e, typ@, env, t, g).1),
{
    let inner = env.insert(x.id, typ@);
    assert(inner.contains_key(y.id) && inner[y.id] == typ@);
    let r1 = collect(e, typ@, env, t, g);
    assert(collect(Expr::Variable(y, ys), expected, inner, t, r1.1)
        == (Ok::<Seq<ConstraintV>, ReportV>(seq![cv(expected, typ@, ys)]), r1.1));
}

/// Two different primitive types never unify: the first constraint equating them is
/// reported as a mismatch. Equal primitive types are solved and the rest of the constraints
/// decide; two class types of different classes are a mismatch too.
pub proof fn law_solve_ground(fuel: nat, c: ConstraintV, rest: Seq<ConstraintV>)
    requires
        fuel > 0,
    ensures
        ({
            let prim_e = c.expected is Int || c.expected is Str || c.expected is Bool || c.expected is Unit;
            let prim_f = c.found is Int || c.found is Str || c.found is Bool || c.found is Unit;
            &&& prim_e && prim_f && c.expected != c.found ==> solve(fuel, seq![c] + rest)
                == Err::<(), ReportV>(ReportV { stage: Stage::Typechecking, range: c.range,
                    msg: "Expected type `"@ + type_text(c.expected) + "`, found `"@ + type_text(c.found) + "`."@ })
            &&& prim_e && prim_f && c.expected == c.found ==> solve(fuel, seq![c] + rest) == solve((fuel - 1) as nat, rest)
            &&& (prim_e && c.found is Class || prim_f && c.expected is Class) ==> solve(fuel, seq![c] + rest) is Err
            &&& (c.expected matches TypeV::Class(_, i1, _) && c.found matches TypeV::Class(_, i2, _) && i1 != i2)
                ==> solve(fuel, seq![c] + rest) is Err
        }),
{
    let cs = seq![c] + rest;
    assert(cs[0] == c);
    assert(cs.drop_first() =~= rest);
}


/// A match gives its scrutinee one fresh type, which a name pattern passes on to what it
/// binds: `e match { case x => x }` checks `e` against a fresh type variable and then has
/// that type itself.
pub proof fn law_collect_match_binding(scrut: SExpr, cases: VecDeque<(Pattern<Symbol>, SExpr)>, s: Span, x: Symbol, xs: Span, y: Symbol, ys: Span, expected: TypeV, env: Map<SID, TypeV>, t: DefinitionTable, g: u64)
    requires
        y.id == x.id,
        cases@ == seq![(Pattern::IdPattern(x, xs), Expr::<Symbol, SymbolicType>::Variable(y, ys))],
    ensures
        ({
            let tv = TypeV::Var(fresh_var_name(g), g);
            let r1 = collect(scrut, tv, env, t, next_id(g));
            r1.0 is Ok ==> collect(Expr::Match(Box::new(scrut), cases, s), expected, env, t, g)
                == (Ok::<Seq<ConstraintV>, ReportV>(r1.0->Ok_0 + seq![ConstraintV { expected, found: tv, range: ys }]), r1.1)
        }),
{
    let tv = fresh_tv(g);
    let r1 = collect(scrut, tv, env, t, next_id(g));
    if let Ok(c1) = r1.0 {
        let binds = map![x.id => tv];
        let inner = env.union_prefer_right(binds);
        assert(inner.contains_key(y.id) && inner[y.id] == tv);
        assert(collect(Expr::Variable(y, ys), expected, inner, t, r1.1)
            == (Ok::<Seq<ConstraintV>, ReportV>(seq![cv(expected, tv, ys)]), r1.1));
        assert(c1 + Seq::<ConstraintV>::empty() + seq![cv(expected, tv, ys)] =~= c1 + seq![cv(expected, tv, ys)]);
        assert(collect_cases(cases, 0, tv, expected, env, t, c1, r1.1)
            == collect_cases(cases, 1, tv, expected, env, t, c1 + Seq::<ConstraintV>::empty() + seq![cv(expected, tv, ys)], r1.1));
    }
}


/// A type variable, once equated with a primitive type, stands for that type in the
/// constraints after it: equating it then with another primitive type is a mismatch between
/// the two, reported on the later constraint, whichever side of the first constraint the
/// variable was on.
pub proof fn law_solve_variable_binding(fuel: nat, n1: Seq<char>, n2: Seq<char>, id: SID, a: TypeV, b: TypeV, r1: Span, r2: Span, rest: Seq<ConstraintV>)
    requires
        fuel >= 2,
        a is Int || a is Str || a is Bool || a is Unit,
        b is Int || b is Str || b is Bool || b is Unit,
        a != b,
    ensures
        solve(fuel, seq![ConstraintV { expected: TypeV::Var(n1, id), found: a, range: r1 },
            ConstraintV { expected: TypeV::Var(n2, id), found: b, range: r2 }] + rest)
            == Err::<(), ReportV>(ReportV { stage: Stage::Typechecking, range: r2,
                msg: "Expected type `"@ + type_text(a) + "`, found `"@ + type_text(b) + "`."@ }),
        solve(fuel, seq![ConstraintV { expected: a, found: TypeV::Var(n1, id), range: r1 },
            ConstraintV { expected: TypeV::Var(n2, id), found: b, range: r2 }] + rest)
            == Err::<(), ReportV>(ReportV { stage: Stage::Typechecking, range: r2,
                msg: "Expected type `"@ + type_text(a) + "`, found `"@ + type_text(b) + "`."@ }),
{
    let c2 = ConstraintV { expected: TypeV::Var(n2, id), found: b, range: r2 };
    let tail = seq![c2] + rest;
    let cs1 = seq![ConstraintV { expected: TypeV::Var(n1, id), found: a, range: r1 }, c2] + rest;
    let cs2 = seq![ConstraintV { expected: a, found: TypeV::Var(n1, id), range: r1 }, c2] + rest;
    assert(cs1[0].expected == TypeV::Var(n1, id) && cs1[0].found == a);
    assert(cs2[0].expected == a && cs2[0].found == TypeV::Var(n1, id));
    assert(cs1.drop_first() =~= tail);
    assert(cs2.drop_first() =~= tail);
    let sub = subst_cs(tail, id, a);
    assert(subst1(TypeV::Var(n2, id), id, a) == a);
    assert(subst1(b, id, a) == b);
    assert(sub[0] == ConstraintV { expected: a, found: b, range: r2 });
    let f = (fuel - 1) as nat;
    assert(solve(fuel, cs1) == solve(f, sub));
    assert(solve(fuel, cs2) == solve(f, sub));
}

} // verus!
