//! Name resolution: gives every definition, variable and type variable a unique symbol and
//! links every use of a name to the symbol it refers to. Each resolving function agrees
//! with its counterpart in `rules`.
pub mod environ;
pub mod program;
pub mod rules;
pub mod table;
pub mod shape;
pub mod wellformed;

use std::collections::{HashMap, VecDeque};
use vstd::prelude::*;
use crate::ast::{
    Expr, Name, NominalType, Pattern, SID, Symbol, SymbolGenerator, SymbolicAbstDef,
    SymbolicClassDef, SymbolicType, cases_view, exprs_view, lemma_cases_view, lemma_exprs_view,
    lemma_params_view, lemma_pats_view, params_view, pats_view, symbols_view,
};
use crate::diagnostics::{Report, ReportV, Span, Stage};
use crate::name_analyzer::rules::{
    SEV, SPV, SymTableV, TypeTableV, callee, find_call, find_class, first_var, name_text,
    res_args, res_call, res_cases, res_class, res_expr, res_pat, res_pats, res_type, res_types,
    rerr, sym_table_ok, type_table_ok,
};
use crate::name_analyzer::table::{CallTable, NameMap, SymbolTable, TypeTable};
use crate::text::{cat3, nat_to_string};

verus! {

broadcast use {vstd::std_specs::vecdeque::group_vec_dequeue_axioms, vstd::std_specs::hash::group_hash_axioms};

/// A resolved expression.
pub type SExpr = Expr<Symbol, SymbolicType>;

/// The model of a type table.
pub open spec fn tt_view(t: TypeTable) -> TypeTableV {
    TypeTableV {
        cur_mod: t.cur_mod@,
        type_vars: symbols_view(t.type_vars@),
        type_syms: t.type_syms@,
        type_defs: t.type_defs@.map_values(|d: SymbolicAbstDef| d@),
    }
}

/// The model of a symbol table.
pub open spec fn st_view(t: SymbolTable) -> SymTableV {
    SymTableV {
        types: TypeTableV {
            cur_mod: t.cur_mod@,
            type_vars: symbols_view(t.type_vars@),
            type_syms: t.type_syms@,
            type_defs: t.type_defs@.map_values(|d: SymbolicAbstDef| d@),
        },
        class_syms: t.class_syms@,
        class_defs: t.class_defs@.map_values(|d: SymbolicClassDef| d@),
        fun_syms: t.fun_syms@,
        fname: match t.fname {
            Some((n, id)) => Some((n@, id)),
            None => None,
        },
    }
}

/// A result with the value and the report by their models, next to a generator's next
/// identifier, is what the rules give.
pub open spec fn agrees_g<T: View>(r: Result<T, Report>, g: u64, s: Result<(T::V, u64), ReportV>) -> bool {
    match (r, s) {
        (Ok(x), Ok((v, g2))) => x@ == v && g == g2,
        (Err(e), Err(f)) => e@ == f,
        _ => false,
    }
}

/// `acc` followed by the values of `r`, if `r` succeeds.
pub open spec fn prepend<T>(acc: Seq<T>, r: Result<Seq<T>, ReportV>) -> Result<Seq<T>, ReportV> {
    match r {
        Ok(rest) => Ok(acc + rest),
        Err(e) => Err(e),
    }
}

/// `acc` followed by the values of `r`, if `r` succeeds, with the next identifier.
pub open spec fn prepend_g<T>(acc: Seq<T>, r: Result<(Seq<T>, u64), ReportV>) -> Result<(Seq<T>, u64), ReportV> {
    match r {
        Ok((rest, g)) => Ok((acc + rest, g)),
        Err(e) => Err(e),
    }
}

/// `acc` followed by the values of `r`, if `r` succeeds, with the bindings and the next
/// identifier.
pub open spec fn prepend_bg<T>(acc: Seq<T>, r: Result<(Seq<T>, Map<Seq<char>, SID>, u64), ReportV>) -> Result<(Seq<T>, Map<Seq<char>, SID>, u64), ReportV> {
    match r {
        Ok((rest, b, g)) => Ok((acc + rest, b, g)),
        Err(e) => Err(e),
    }
}

/// A report of the resolving stage.
pub(crate) fn error<T>(range: Span, msg: String) -> (r: Result<T, Report>)
    ensures
        r matches Err(e) && e@ == rerr(range, msg@),
{
    Err(Report { stage: Stage::Resolving, range, msg })
}

/// `a + b + c + d + e` as text.
pub(crate) fn cat5(a: &str, b: &str, c: &str, d: &str, e: &str) -> (s: String)
    ensures
        s@ == a@ + b@ + c@ + d@ + e@,
{
    let mut s = cat3(a, b, c);
    s.append(d);
    s.append(e);
    s
}

/// A name as it is written (see `name_text`).
pub fn name_show(n: &Name) -> (s: String)
    ensures
        s@ == name_text(n@),
{
    match &n.owner {
        Some(o) => {
            proof {
                reveal_strlit(".");
            }
            cat3(o.as_str(), ".", n.name.as_str())
        },
        None => n.name.clone(),
    }
}

/// The definition of the abstract class `sid`.
pub(crate) fn abst_def<'b>(defs: &'b HashMap<SID, SymbolicAbstDef>, sid: SID) -> (d: &'b SymbolicAbstDef)
    requires
        defs@.contains_key(sid),
    ensures
        *d == defs@[sid],
{
    match defs.get(&sid) {
        Some(d) => d,
        None => vstd::pervasive::unreached(),
    }
}

/// The definition of the case class `sid`.
pub(crate) fn class_def<'b>(defs: &'b HashMap<SID, SymbolicClassDef>, sid: SID) -> (d: &'b SymbolicClassDef)
    requires
        defs@.contains_key(sid),
    ensures
        *d == defs@[sid],
{
    match defs.get(&sid) {
        Some(d) => d,
        None => vstd::pervasive::unreached(),
    }
}

/// Resolves a type: a type variable in scope, or a class of the current module or of the
/// module that qualifies it, applied to as many types as it has type variables.
pub fn resolve_type(arg: &NominalType, table: &TypeTable) -> (r: Result<SymbolicType, Report>)
    requires
        type_table_ok(tt_view(*table)),
    ensures
        match (r, res_type(*arg, tt_view(*table))) {
            (Ok(t), Ok(v)) => t@ == v,
            (Err(e), Err(f)) => e@ == f,
            _ => false,
        },
    decreases arg, 0nat,
{
    let ghost tt = tt_view(*table);
    match arg {
        NominalType::IntType(_) => Ok(SymbolicType::IntType),
        NominalType::BoolType(_) => Ok(SymbolicType::BoolType),
        NominalType::StringType(_) => Ok(SymbolicType::StringType),
        NominalType::UnitType(_) => Ok(SymbolicType::UnitType),
        NominalType::IdType(qn, params, s) => {
            if qn.owner.is_none() {
                let mut i: usize = 0;
                proof {
                    assert(tt.type_vars.skip(0) =~= tt.type_vars);
                }
                while i < table.type_vars.len()
                    invariant
                        i <= table.type_vars@.len(),
                        tt == tt_view(*table),
                        *arg == NominalType::IdType(*qn, *params, *s),
                        qn.owner is None,
                        first_var(tt.type_vars, qn.name@) == first_var(tt.type_vars.skip(i as int), qn.name@),
                    decreases table.type_vars.len() - i,
                {
                    proof {
                        assert(tt.type_vars.skip(i as int)[0] == table.type_vars@[i as int]@);
                        assert(tt.type_vars.skip(i as int).drop_first() =~= tt.type_vars.skip(i + 1));
                    }
                    if table.type_vars[i].name == qn.name {
                        proof {
                            assert(first_var(tt.type_vars, qn.name@) == Some(table.type_vars@[i as int]@));
                        }
                        if params.len() > 0 {
                            return error(*s, cat3("The type variable `", qn.name.as_str(), "` cannot take any type parameters."));
                        }
                        return Ok(SymbolicType::Var(Symbol::new(&qn.name, table.type_vars[i].id)));
                    }
                    i += 1;
                }
                proof {
                    assert(tt.type_vars.skip(i as int) =~= Seq::<crate::ast::SymbolV>::empty());
                }
            }
            let modname: &String = match &qn.owner {
                None => table.cur_mod,
                Some(o) => o,
            };
            let mp = match table.type_syms.get(modname) {
                Some(m) => m,
                None => return error(*s, cat3("No module named `", modname.as_str(), "`.")),
            };
            let sid = match mp.get(&qn.name) {
                Some(id) => *id,
                None => return error(*s, cat5("Could not find a type named `", qn.name.as_str(), "` in the `", modname.as_str(), "` module.")),
            };
            let def = abst_def(table.type_defs, sid);
            proof {
                assert(first_var(tt.type_vars, qn.name@) is None || qn.owner is Some);
                assert(tt.type_syms[modname@] == mp@);
                assert(tt.type_defs[sid] == def@);
                assert(def@.type_vars.len() == def.type_vars@.len());
            }
            if params.len() != def.type_vars.len() {
                let mut m = cat3("The type `", name_show(qn).as_str(), "` takes ");
                m.append(nat_to_string(def.type_vars.len() as u64).as_str());
                m.append(" parameters, but was given ");
                m.append(nat_to_string(params.len() as u64).as_str());
                m.append(".");
                return error(*s, m);
            }
            let mut sym_params: VecDeque<SymbolicType> = VecDeque::new();
            let mut j: usize = 0;
            let ghost whole = match res_types(*params, 0, tt) {
                Err(r) => Err(r),
                Ok(ps) => Ok(crate::ast::TypeV::Class(qn.name@, sid, ps)),
            };
            assert(res_type(*arg, tt) == whole);
            while j < params.len()
                invariant
                    j <= params@.len(),
                    tt == tt_view(*table),
                    type_table_ok(tt),
                    *arg == NominalType::IdType(*qn, *params, *s),
                    res_type(*arg, tt) == whole,
                    whole == match res_types(*params, 0, tt) {
                        Err(r) => Err(r),
                        Ok(ps) => Ok(crate::ast::TypeV::Class(qn.name@, sid, ps)),
                    },
                    res_types(*params, 0, tt) == prepend(params_view(sym_params, 0), res_types(*params, j as int, tt)),
                decreases params.len() - j,
            {
                proof {
                    assert(decreases_to!(*arg => *params));
                    assert(decreases_to!(*params => params@[j as int]));
                }
                let p = match resolve_type(&params[j], table) {
                    Ok(p) => p,
                    Err(e) => return Err(e),
                };
                let ghost before = sym_params;
                sym_params.push_back(p);
                proof {
                    lemma_params_view(before, 0);
                    lemma_params_view(sym_params, 0);
                    assert(params_view(sym_params, 0) =~= params_view(before, 0).push(p@));
                    if let Ok(rest) = res_types(*params, j + 1, tt) {
                        assert(params_view(before, 0) + (seq![p@] + rest) =~= params_view(sym_params, 0) + rest);
                    }
                }
                j += 1;
            }
            proof {
                assert(params_view(sym_params, 0) + Seq::<crate::ast::TypeV>::empty() =~= params_view(sym_params, 0));
            }
            Ok(SymbolicType::ClassType(Symbol::new(&qn.name, sid), sym_params))
        },
    }
}

/// A function, else a constructor, named `name` in the maps of module `modname`.
fn find_call_exec(name: &String, range: Span, classes: &NameMap<SID>, funs: &NameMap<SID>, modname: &String) -> (r: Result<Symbol, Report>)
    ensures
        match (r, find_call(name@, range, classes@, funs@, modname@)) {
            (Ok(x), Ok(v)) => x@ == v,
            (Err(e), Err(f)) => e@ == f,
            _ => false,
        },
{
    match funs.get(name) {
        Some(id) => Ok(Symbol::new(name, *id)),
        None => match classes.get(name) {
            Some(id) => Ok(Symbol::new(name, *id)),
            None => error(range, cat5("No function or constructor named `", name.as_str(), "` in the `", modname.as_str(), "` module.")),
        },
    }
}

/// Resolves the name of a called function or constructor.
pub fn resolve_call(arg: &Name, range: Span, table: &CallTable) -> (r: Result<Symbol, Report>)
    requires
        table.class_syms@.contains_key(table.cur_mod@),
        table.fun_syms@.contains_key(table.cur_mod@),
    ensures
        match (r, res_call(*arg, range, table.cur_mod@, table.class_syms@, table.fun_syms@)) {
            (Ok(x), Ok(v)) => x@ == v,
            (Err(e), Err(f)) => e@ == f,
            _ => false,
        },
{
    match &arg.owner {
        None => {
            let classes = match table.class_syms.get(table.cur_mod) {
                Some(m) => m,
                None => vstd::pervasive::unreached(),
            };
            let funs = match table.fun_syms.get(table.cur_mod) {
                Some(m) => m,
                None => vstd::pervasive::unreached(),
            };
            find_call_exec(&arg.name, range, classes, funs, table.cur_mod)
        },
        Some(owner) => match (table.fun_syms.get(owner), table.class_syms.get(owner)) {
            (Some(funs), Some(classes)) => find_call_exec(&arg.name, range, classes, funs, owner),
            _ => error(range, cat3("No module named `", owner.as_str(), "`.")),
        },
    }
}

/// A constructor named `name` in the class map of module `modname`.
fn find_class_exec(name: &String, range: Span, classes: &NameMap<SID>, modname: &String) -> (r: Result<Symbol, Report>)
    ensures
        match (r, find_class(name@, range, classes@, modname@)) {
            (Ok(x), Ok(v)) => x@ == v,
            (Err(e), Err(f)) => e@ == f,
            _ => false,
        },
{
    match classes.get(name) {
        Some(id) => Ok(Symbol::new(name, *id)),
        None => error(range, cat5("No constructor named `", name.as_str(), "` in the `", modname.as_str(), "` module.")),
    }
}

/// Resolves the name of a constructor in a pattern.
pub fn resolve_class(arg: &Name, range: Span, table: &SymbolTable) -> (r: Result<Symbol, Report>)
    requires
        table.class_syms@.contains_key(table.cur_mod@),
    ensures
        match (r, res_class(*arg, range, table.cur_mod@, table.class_syms@)) {
            (Ok(x), Ok(v)) => x@ == v,
            (Err(e), Err(f)) => e@ == f,
            _ => false,
        },
{
    match &arg.owner {
        None => {
            let classes = match table.class_syms.get(table.cur_mod) {
                Some(m) => m,
                None => vstd::pervasive::unreached(),
            };
            find_class_exec(&arg.name, range, classes, table.cur_mod)
        },
        Some(owner) => match table.class_syms.get(owner) {
            Some(classes) => find_class_exec(&arg.name, range, classes, owner),
            None => error(range, cat3("No module named `", owner.as_str(), "`.")),
        },
    }
}

/// Resolves a pattern: each variable gets a fresh symbol and is bound in `binds`.
pub fn resolve_pattern(
    pat: &Pattern<Name>,
    table: &SymbolTable,
    binds: &mut NameMap<SID>,
    sg: &mut SymbolGenerator,
) -> (r: Result<Pattern<Symbol>, Report>)
    requires
        sym_table_ok(st_view(*table)),
    ensures
        match (r, res_pat(*pat, st_view(*table), old(binds)@, old(sg).next_id)) {
            (Ok(p), Ok((v, b, g))) => p@ == v && final(binds)@ == b && final(sg).next_id == g,
            (Err(e), Err(f)) => e@ == f,
            _ => false,
        },
    decreases pat, 0nat,
{
    let ghost st = st_view(*table);
    match pat {
        Pattern::Wildcard(s) => Ok(Pattern::Wildcard(*s)),
        Pattern::IdPattern(qn, s) => {
            let sym = sg.fresh(qn.name.clone());
            binds.insert(qn.name.clone(), sym.id);
            Ok(Pattern::IdPattern(sym, *s))
        },
        Pattern::BoolPattern(v, s) => Ok(Pattern::BoolPattern(*v, *s)),
        Pattern::StringPattern(v, s) => Ok(Pattern::StringPattern(v.clone(), *s)),
        Pattern::IntPattern(v, s) => Ok(Pattern::IntPattern(*v, *s)),
        Pattern::UnitPattern(s) => Ok(Pattern::UnitPattern(*s)),
        Pattern::ClassPattern(qn, subpats, s) => {
            let sym = match resolve_class(qn, *s, table) {
                Ok(x) => x,
                Err(e) => return Err(e),
            };
            let def = class_def(table.class_defs, sym.id);
            proof {
                assert(st.class_defs[sym.id] == def@);
                assert(def@.args.len() == def.args@.len());
            }
            if subpats.len() != def.args.len() {
                let mut m = cat3("Constructor `", name_show(qn).as_str(), "` takes ");
                m.append(nat_to_string(def.args.len() as u64).as_str());
                m.append(" arguments, but was given ");
                m.append(nat_to_string(subpats.len() as u64).as_str());
                m.append(".");
                return error(*s, m);
            }
            let ghost b0 = binds@;
            let ghost g0 = sg.next_id;
            let ghost whole = match res_pats(*subpats, 0, st, b0, g0) {
                Err(r) => Err(r),
                Ok((ps, b, g2)) => Ok((crate::ast::PatV::ClassPattern(sym@, ps, *s), b, g2)),
            };
            assert(res_pat(*pat, st, b0, g0) == whole);
            let mut out: VecDeque<Pattern<Symbol>> = VecDeque::new();
            let mut j: usize = 0;
            while j < subpats.len()
                invariant
                    j <= subpats@.len(),
                    st == st_view(*table),
                    sym_table_ok(st),
                    *pat == Pattern::ClassPattern(*qn, *subpats, *s),
                    res_pat(*pat, st, old(binds)@, old(sg).next_id) == whole,
                    b0 == old(binds)@,
                    g0 == old(sg).next_id,
                    whole == match res_pats(*subpats, 0, st, b0, g0) {
                        Err(r) => Err(r),
                        Ok((ps, b, g2)) => Ok((crate::ast::PatV::ClassPattern(sym@, ps, *s), b, g2)),
                    },
                    res_pats(*subpats, 0, st, b0, g0) == prepend_bg(pats_view(out, 0), res_pats(*subpats, j as int, st, binds@, sg.next_id)),
                decreases subpats.len() - j,
            {
                proof {
                    assert(decreases_to!(*pat => *subpats));
                    assert(decreases_to!(*subpats => subpats@[j as int]));
                }
                let p = match resolve_pattern(&subpats[j], table, binds, sg) {
                    Ok(p) => p,
                    Err(e) => return Err(e),
                };
                let ghost before = out;
                out.push_back(p);
                proof {
                    lemma_pats_view(before, 0);
                    lemma_pats_view(out, 0);
                    assert(pats_view(out, 0) =~= pats_view(before, 0).push(p@));
                    if let Ok((rest, b, g)) = res_pats(*subpats, j + 1, st, binds@, sg.next_id) {
                        assert(pats_view(before, 0) + (seq![p@] + rest) =~= pats_view(out, 0) + rest);
                    }
                }
                j += 1;
            }
            proof {
                assert(pats_view(out, 0) + Seq::<SPV>::empty() =~= pats_view(out, 0));
            }
            Ok(Pattern::ClassPattern(sym, out, *s))
        },
    }
}

/// The operands of a binary expression.
pub open spec fn is_binary<N, T>(e: Expr<N, T>) -> bool {
    ||| e is Plus
    ||| e is Minus
    ||| e is Times
    ||| e is Div
    ||| e is Mod
    ||| e is LessThan
    ||| e is LessEquals
    ||| e is And
    ||| e is Or
    ||| e is Equals
    ||| e is Concat
    ||| e is Sequence
}

/// Resolves a binary expression: both operands with the same bindings, in turn.
fn resolve_binary(
    e: &Expr<Name, NominalType>,
    table: &SymbolTable,
    binds: &NameMap<SID>,
    sg: &mut SymbolGenerator,
) -> (r: Result<SExpr, Report>)
    requires
        sym_table_ok(st_view(*table)),
        is_binary(*e),
    ensures
        agrees_g(r, final(sg).next_id, res_expr(*e, st_view(*table), binds@, old(sg).next_id)),
    decreases e, 0nat,
{
    let (l, r) = match e {
        Expr::Plus(l, r) => (l, r),
        Expr::Minus(l, r) => (l, r),
        Expr::Times(l, r) => (l, r),
        Expr::Div(l, r) => (l, r),
        Expr::Mod(l, r) => (l, r),
        Expr::LessThan(l, r) => (l, r),
        Expr::LessEquals(l, r) => (l, r),
        Expr::And(l, r) => (l, r),
        Expr::Or(l, r) => (l, r),
        Expr::Equals(l, r) => (l, r),
        Expr::Concat(l, r) => (l, r),
        Expr::Sequence(l, r) => (l, r),
        _ => vstd::pervasive::unreached(),
    };
    let a = match resolve_expr(l, table, binds.duplicate(), sg) {
        Ok(x) => x,
        Err(x) => return Err(x),
    };
    let b = match resolve_expr(r, table, binds.duplicate(), sg) {
        Ok(x) => x,
        Err(x) => return Err(x),
    };
    let (ba, bb) = (Box::new(a), Box::new(b));
    Ok(
        match e {
            Expr::Plus(..) => Expr::Plus(ba, bb),
            Expr::Minus(..) => Expr::Minus(ba, bb),
            Expr::Times(..) => Expr::Times(ba, bb),
            Expr::Div(..) => Expr::Div(ba, bb),
            Expr::Mod(..) => Expr::Mod(ba, bb),
            Expr::LessThan(..) => Expr::LessThan(ba, bb),
            Expr::LessEquals(..) => Expr::LessEquals(ba, bb),
            Expr::And(..) => Expr::And(ba, bb),
            Expr::Or(..) => Expr::Or(ba, bb),
            Expr::Equals(..) => Expr::Equals(ba, bb),
            Expr::Concat(..) => Expr::Concat(ba, bb),
            _ => Expr::Sequence(ba, bb),
        },
    )
}

/// Resolves the arguments of a call, in order, each with the bindings `binds`.
fn resolve_args(
    args: &VecDeque<Expr<Name, NominalType>>,
    table: &SymbolTable,
    binds: &NameMap<SID>,
    sg: &mut SymbolGenerator,
) -> (r: Result<VecDeque<SExpr>, Report>)
    requires
        sym_table_ok(st_view(*table)),
    ensures
        match (r, res_args(*args, 0, st_view(*table), binds@, old(sg).next_id)) {
            (Ok(v), Ok((sv, g))) => exprs_view(v, 0) == sv && final(sg).next_id == g,
            (Err(e), Err(f)) => e@ == f,
            _ => false,
        },
    decreases args, 2nat,
{
    let ghost st = st_view(*table);
    let mut out: VecDeque<SExpr> = VecDeque::new();
    let mut j: usize = 0;
    while j < args.len()
        invariant
            j <= args@.len(),
            st == st_view(*table),
            sym_table_ok(st),
            res_args(*args, 0, st, binds@, old(sg).next_id) == prepend_g(exprs_view(out, 0), res_args(*args, j as int, st, binds@, sg.next_id)),
        decreases args.len() - j,
    {
        proof {
            assert(decreases_to!(*args => args@[j as int]));
        }
        let x = match resolve_expr(&args[j], table, binds.duplicate(), sg) {
            Ok(x) => x,
            Err(e) => return Err(e),
        };
        let ghost before = out;
        out.push_back(x);
        proof {
            lemma_exprs_view(before, 0);
            lemma_exprs_view(out, 0);
            assert(exprs_view(out, 0) =~= exprs_view(before, 0).push(x@));
            if let Ok((rest, g)) = res_args(*args, j + 1, st, binds@, sg.next_id) {
                assert(exprs_view(before, 0) + (seq![x@] + rest) =~= exprs_view(out, 0) + rest);
            }
        }
        j += 1;
    }
    proof {
        assert(exprs_view(out, 0) + Seq::<SEV>::empty() =~= exprs_view(out, 0));
    }
    Ok(out)
}

/// Resolves the cases of a `match`, in order: each pattern with the bindings `binds`, each
/// body with those of its pattern added.
fn resolve_cases(
    cases: &VecDeque<(Pattern<Name>, Expr<Name, NominalType>)>,
    table: &SymbolTable,
    binds: &NameMap<SID>,
    sg: &mut SymbolGenerator,
) -> (r: Result<VecDeque<(Pattern<Symbol>, SExpr)>, Report>)
    requires
        sym_table_ok(st_view(*table)),
    ensures
        match (r, res_cases(*cases, 0, st_view(*table), binds@, old(sg).next_id)) {
            (Ok(v), Ok((sv, g))) => cases_view(v, 0) == sv && final(sg).next_id == g,
            (Err(e), Err(f)) => e@ == f,
            _ => false,
        },
    decreases cases, 2nat,
{
    let ghost st = st_view(*table);
    let mut out: VecDeque<(Pattern<Symbol>, SExpr)> = VecDeque::new();
    let mut j: usize = 0;
    while j < cases.len()
        invariant
            j <= cases@.len(),
            st == st_view(*table),
            sym_table_ok(st),
            res_cases(*cases, 0, st, binds@, old(sg).next_id) == prepend_g(cases_view(out, 0), res_cases(*cases, j as int, st, binds@, sg.next_id)),
        decreases cases.len() - j,
    {
        proof {
            assert(decreases_to!(*cases => cases@[j as int]));
            assert(decreases_to!(cases@[j as int] => cases@[j as int].1));
        }
        let mut newbinds = binds.duplicate();
        let p = match resolve_pattern(&cases[j].0, table, &mut newbinds, sg) {
            Ok(p) => p,
            Err(e) => return Err(e),
        };
        let x = match resolve_expr(&cases[j].1, table, newbinds, sg) {
            Ok(x) => x,
            Err(e) => return Err(e),
        };
        let ghost before = out;
        let ghost c = (p, x);
        out.push_back((p, x));
        proof {
            lemma_cases_view(before, 0);
            lemma_cases_view(out, 0);
            assert(cases_view(out, 0) =~= cases_view(before, 0).push((c.0@, c.1@)));
            if let Ok((rest, g)) = res_cases(*cases, j + 1, st, binds@, sg.next_id) {
                assert(cases_view(before, 0) + (seq![(c.0@, c.1@)] + rest) =~= cases_view(out, 0) + rest);
            }
        }
        j += 1;
    }
    proof {
        assert(cases_view(out, 0) + Seq::<(SPV, SEV)>::empty() =~= cases_view(out, 0));
    }
    Ok(out)
}

/// Resolves an expression with the variables `binds` in scope.
pub fn resolve_expr(
    e: &Expr<Name, NominalType>,
    table: &SymbolTable,
    binds: NameMap<SID>,
    sg: &mut SymbolGenerator,
) -> (r: Result<SExpr, Report>)
    requires
        sym_table_ok(st_view(*table)),
    ensures
        agrees_g(r, final(sg).next_id, res_expr(*e, st_view(*table), binds@, old(sg).next_id)),
    decreases e, 1nat,
{
    match e {
        Expr::Variable(qn, s) => match binds.get(&qn.name) {
            Some(sid) => Ok(Expr::Variable(Symbol::new(&qn.name, *sid), *s)),
            None => error(*s, cat3("Variable `", qn.name.as_str(), "` not found in current scope.")),
        },
        Expr::IntLiteral(v, s) => Ok(Expr::IntLiteral(*v, *s)),
        Expr::BoolLiteral(v, s) => Ok(Expr::BoolLiteral(*v, *s)),
        Expr::StringLiteral(v, s) => Ok(Expr::StringLiteral(v.clone(), *s)),
        Expr::UnitLiteral(s) => Ok(Expr::UnitLiteral(*s)),
        Expr::Plus(..) | Expr::Minus(..) | Expr::Times(..) | Expr::Div(..) | Expr::Mod(..)
        | Expr::LessThan(..) | Expr::LessEquals(..) | Expr::And(..) | Expr::Or(..)
        | Expr::Equals(..) | Expr::Concat(..) | Expr::Sequence(..) => resolve_binary(e, table, &binds, sg),
        Expr::Not(a, s) => {
            let x = match resolve_expr(a, table, binds, sg) {
                Ok(x) => x,
                Err(x) => return Err(x),
            };
            Ok(Expr::Not(Box::new(x), *s))
        },
        Expr::Neg(a, s) => {
            let x = match resolve_expr(a, table, binds, sg) {
                Ok(x) => x,
                Err(x) => return Err(x),
            };
            Ok(Expr::Neg(Box::new(x), *s))
        },
        Expr::Call(qn, args, s) => {
            let own = match &table.fname {
                Some((name, sid)) => if qn.owner.is_none() && qn.name == *name {
                    Some(Symbol::new(name, *sid))
                } else {
                    None
                },
                None => None,
            };
            let sym = match own {
                Some(x) => x,
                None => match resolve_call(qn, *s, &CallTable::from(table)) {
                    Ok(x) => x,
                    Err(x) => return Err(x),
                },
            };
            let sargs = match resolve_args(args, table, &binds, sg) {
                Ok(x) => x,
                Err(x) => return Err(x),
            };
            Ok(Expr::Call(sym, sargs, *s))
        },
        Expr::Let(qn, typ, val, body, s) => {
            let sym = sg.fresh(qn.name.clone());
            let styp = match resolve_type(typ, &TypeTable::from(table)) {
                Ok(x) => x,
                Err(x) => return Err(x),
            };
            let sv = match resolve_expr(val, table, binds.duplicate(), sg) {
                Ok(x) => x,
                Err(x) => return Err(x),
            };
            let mut body_binds = binds;
            body_binds.insert(qn.name.clone(), sym.id);
            let sb = match resolve_expr(body, table, body_binds, sg) {
                Ok(x) => x,
                Err(x) => return Err(x),
            };
            Ok(Expr::Let(sym, styp, Box::new(sv), Box::new(sb), *s))
        },
        Expr::Ite(c, a, b, s) => {
            let sc = match resolve_expr(c, table, binds.duplicate(), sg) {
                Ok(x) => x,
                Err(x) => return Err(x),
            };
            let sa = match resolve_expr(a, table, binds.duplicate(), sg) {
                Ok(x) => x,
                Err(x) => return Err(x),
            };
            let sb = match resolve_expr(b, table, binds, sg) {
                Ok(x) => x,
                Err(x) => return Err(x),
            };
            Ok(Expr::Ite(Box::new(sc), Box::new(sa), Box::new(sb), *s))
        },
        Expr::Match(scrut, cases, s) => {
            let ss = match resolve_expr(scrut, table, binds.duplicate(), sg) {
                Ok(x) => x,
                Err(x) => return Err(x),
            };
            let sc = match resolve_cases(cases, table, &binds, sg) {
                Ok(x) => x,
                Err(x) => return Err(x),
            };
            Ok(Expr::Match(Box::new(ss), sc, *s))
        },
        Expr::Error(a, s) => {
            let x = match resolve_expr(a, table, binds, sg) {
                Ok(x) => x,
                Err(x) => return Err(x),
            };
            Ok(Expr::Error(Box::new(x), *s))
        },
    }
}

} // verus!
