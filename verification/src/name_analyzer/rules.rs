//! What name resolution gives: for each resolving function, the resolved tree (or the
//! error report) and the next fresh identifier, given the tables, the names in scope and
//! the generator's next identifier.
use std::collections::VecDeque;
use vstd::prelude::*;
use vstd::std_specs::vecdeque::VecDequeAdditionalSpecFns;
use crate::ast::{
    AbstSV, ClassSV, Expr, ExprV, FunSV, Name, NameV, NominalModule, NominalType, PatV, Pattern,
    ProgramV, SID, SymbolV, TableSV, TypeV, next_id,
};
use crate::diagnostics::{ReportV, Span, Stage};
use crate::text::nat_digits;

verus! {

broadcast use vstd::std_specs::vecdeque::group_vec_dequeue_axioms;

/// The model of a resolved expression.
pub type SEV = ExprV<SymbolV, TypeV>;

/// The model of a resolved pattern.
pub type SPV = PatV<SymbolV>;

/// Module name, then name, to identifier.
pub type SymsV = Map<Seq<char>, Map<Seq<char>, SID>>;

/// The model of a type table.
pub struct TypeTableV {
    pub cur_mod: Seq<char>,
    pub type_vars: Seq<SymbolV>,
    pub type_syms: SymsV,
    pub type_defs: Map<SID, AbstSV>,
}

/// The model of a symbol table.
pub struct SymTableV {
    pub types: TypeTableV,
    pub class_syms: SymsV,
    pub class_defs: Map<SID, ClassSV>,
    pub fun_syms: SymsV,
    pub fname: Option<(Seq<char>, SID)>,
}

/// A report of the resolving stage.
pub open spec fn rerr(range: Span, msg: Seq<char>) -> ReportV {
    ReportV { stage: Stage::Resolving, range, msg }
}

/// A name as it is written: `owner.name` or `name`.
pub open spec fn name_text(n: NameV) -> Seq<char> {
    match n.owner {
        Some(o) => o + "."@ + n.name,
        None => n.name,
    }
}

/// Every identifier that `syms` gives a name is a key of `defs`.
pub open spec fn syms_defined<D>(syms: SymsV, defs: Map<SID, D>) -> bool {
    forall|m: Seq<char>, n: Seq<char>|
        #![trigger syms[m][n]]
        syms.contains_key(m) && syms[m].contains_key(n) ==> defs.contains_key(syms[m][n])
}

/// What resolving a type in `tt` needs: the current module's types and the definitions of
/// every type named.
pub open spec fn type_table_ok(tt: TypeTableV) -> bool {
    &&& tt.type_syms.contains_key(tt.cur_mod)
    &&& syms_defined(tt.type_syms, tt.type_defs)
}

/// What resolving an expression in `st` needs.
pub open spec fn sym_table_ok(st: SymTableV) -> bool {
    &&& type_table_ok(st.types)
    &&& st.class_syms.contains_key(st.types.cur_mod)
    &&& st.fun_syms.contains_key(st.types.cur_mod)
    &&& syms_defined(st.class_syms, st.class_defs)
}

// ---------------------------------------------------------------------------------------------
// Types, calls and constructors
// ---------------------------------------------------------------------------------------------

/// The first type variable named `name`.
pub open spec fn first_var(vars: Seq<SymbolV>, name: Seq<char>) -> Option<SymbolV>
    decreases vars.len(),
{
    if vars.len() == 0 {
        None
    } else if vars[0].name == name {
        Some(vars[0])
    } else {
        first_var(vars.drop_first(), name)
    }
}

/// Resolves a type: a type variable in scope, or a class of the current module or of the
/// module that qualifies it, with as many parameters as the class has type variables.
pub open spec fn res_type(t: NominalType, tt: TypeTableV) -> Result<TypeV, ReportV>
    decreases t, 0nat,
{
    match t {
        NominalType::IntType(_) => Ok(TypeV::Int),
        NominalType::BoolType(_) => Ok(TypeV::Bool),
        NominalType::StringType(_) => Ok(TypeV::Str),
        NominalType::UnitType(_) => Ok(TypeV::Unit),
        NominalType::IdType(qn, params, s) => {
            let var = first_var(tt.type_vars, qn.name@);
            if qn.owner is None && var is Some {
                if params@.len() > 0 {
                    Err(rerr(s, "The type variable `"@ + qn.name@ + "` cannot take any type parameters."@))
                } else {
                    Ok(TypeV::Var(qn.name@, var->0.id))
                }
            } else {
                let (found, modname) = match qn.owner {
                    None => (true, tt.cur_mod),
                    Some(o) => (tt.type_syms.contains_key(o@), o@),
                };
                if !found {
                    Err(rerr(s, "No module named `"@ + modname + "`."@))
                } else if !tt.type_syms[modname].contains_key(qn.name@) {
                    Err(rerr(s, "Could not find a type named `"@ + qn.name@ + "` in the `"@ + modname + "` module."@))
                } else {
                    let sid = tt.type_syms[modname][qn.name@];
                    let n = tt.type_defs[sid].type_vars.len();
                    if params@.len() != n {
                        Err(rerr(s, "The type `"@ + name_text(qn@) + "` takes "@ + nat_digits(n) + " parameters, but was given "@ + nat_digits(params@.len()) + "."@))
                    } else {
                        match res_types(params, 0, tt) {
                            Err(r) => Err(r),
                            Ok(ps) => Ok(TypeV::Class(qn.name@, sid, ps)),
                        }
                    }
                }
            }
        },
    }
}

/// Resolves the types `ps[i..]`, in order.
pub open spec fn res_types(ps: VecDeque<NominalType>, i: int, tt: TypeTableV) -> Result<Seq<TypeV>, ReportV>
    decreases ps, ps@.len() - i,
{
    if 0 <= i < ps@.len() {
        proof {
            assert(decreases_to!(ps => ps[i]));
        }
        match res_type(ps@[i], tt) {
            Err(r) => Err(r),
            Ok(t) => match res_types(ps, i + 1, tt) {
                Err(r) => Err(r),
                Ok(rest) => Ok(seq![t] + rest),
            },
        }
    } else {
        Ok(Seq::empty())
    }
}

/// A function, else a constructor, named `name` in the maps of module `modname`.
pub open spec fn find_call(name: Seq<char>, range: Span, classes: Map<Seq<char>, SID>, funs: Map<Seq<char>, SID>, modname: Seq<char>) -> Result<SymbolV, ReportV> {
    if funs.contains_key(name) {
        Ok(SymbolV { name, id: funs[name] })
    } else if classes.contains_key(name) {
        Ok(SymbolV { name, id: classes[name] })
    } else {
        Err(rerr(range, "No function or constructor named `"@ + name + "` in the `"@ + modname + "` module."@))
    }
}

/// Resolves the name of a called function or constructor.
pub open spec fn res_call(n: Name, range: Span, cur_mod: Seq<char>, class_syms: SymsV, fun_syms: SymsV) -> Result<SymbolV, ReportV> {
    match n.owner {
        None => find_call(n.name@, range, class_syms[cur_mod], fun_syms[cur_mod], cur_mod),
        Some(o) => if fun_syms.contains_key(o@) && class_syms.contains_key(o@) {
            find_call(n.name@, range, class_syms[o@], fun_syms[o@], o@)
        } else {
            Err(rerr(range, "No module named `"@ + o@ + "`."@))
        },
    }
}

/// A constructor named `name` in the class map of module `modname`.
pub open spec fn find_class(name: Seq<char>, range: Span, classes: Map<Seq<char>, SID>, modname: Seq<char>) -> Result<SymbolV, ReportV> {
    if classes.contains_key(name) {
        Ok(SymbolV { name, id: classes[name] })
    } else {
        Err(rerr(range, "No constructor named `"@ + name + "` in the `"@ + modname + "` module."@))
    }
}

/// Resolves the name of a constructor in a pattern.
pub open spec fn res_class(n: Name, range: Span, cur_mod: Seq<char>, class_syms: SymsV) -> Result<SymbolV, ReportV> {
    match n.owner {
        None => find_class(n.name@, range, class_syms[cur_mod], cur_mod),
        Some(o) => if class_syms.contains_key(o@) {
            find_class(n.name@, range, class_syms[o@], o@)
        } else {
            Err(rerr(range, "No module named `"@ + o@ + "`."@))
        },
    }
}

// ---------------------------------------------------------------------------------------------
// Patterns and expressions
// ---------------------------------------------------------------------------------------------

/// Resolves a pattern: each variable gets a fresh symbol and is bound in `binds`.
pub open spec fn res_pat(p: Pattern<Name>, st: SymTableV, binds: Map<Seq<char>, SID>, g: u64) -> Result<(SPV, Map<Seq<char>, SID>, u64), ReportV>
    decreases p, 0nat,
{
    match p {
        Pattern::Wildcard(s) => Ok((PatV::Wildcard(s), binds, g)),
        Pattern::IdPattern(qn, s) => Ok((PatV::IdPattern(SymbolV { name: qn.name@, id: g }, s), binds.insert(qn.name@, g), next_id(g))),
        Pattern::BoolPattern(v, s) => Ok((PatV::BoolPattern(v, s), binds, g)),
        Pattern::StringPattern(v, s) => Ok((PatV::StringPattern(v@, s), binds, g)),
        Pattern::IntPattern(v, s) => Ok((PatV::IntPattern(v, s), binds, g)),
        Pattern::UnitPattern(s) => Ok((PatV::UnitPattern(s), binds, g)),
        Pattern::ClassPattern(qn, subpats, s) => match res_class(qn, s, st.types.cur_mod, st.class_syms) {
            Err(r) => Err(r),
            Ok(sym) => {
                let n = st.class_defs[sym.id].args.len();
                if subpats@.len() != n {
                    Err(rerr(s, "Constructor `"@ + name_text(qn@) + "` takes "@ + nat_digits(n) + " arguments, but was given "@ + nat_digits(subpats@.len()) + "."@))
                } else {
                    match res_pats(subpats, 0, st, binds, g) {
                        Err(r) => Err(r),
                        Ok((ps, b, g2)) => Ok((PatV::ClassPattern(sym, ps, s), b, g2)),
                    }
                }
            },
        },
    }
}

/// Resolves the patterns `ps[i..]`, in order.
pub open spec fn res_pats(ps: VecDeque<Pattern<Name>>, i: int, st: SymTableV, binds: Map<Seq<char>, SID>, g: u64) -> Result<(Seq<SPV>, Map<Seq<char>, SID>, u64), ReportV>
    decreases ps, ps@.len() - i,
{
    if 0 <= i < ps@.len() {
        proof {
            assert(decreases_to!(ps => ps[i]));
        }
        match res_pat(ps@[i], st, binds, g) {
            Err(r) => Err(r),
            Ok((p, b1, g1)) => match res_pats(ps, i + 1, st, b1, g1) {
                Err(r) => Err(r),
                Ok((rest, b2, g2)) => Ok((seq![p] + rest, b2, g2)),
            },
        }
    } else {
        Ok((Seq::empty(), binds, g))
    }
}

/// The symbol a call refers to: the function being defined, if the call names it without a
/// module, else the resolved name.
pub open spec fn callee(qn: Name, s: Span, st: SymTableV) -> Result<SymbolV, ReportV> {
    match st.fname {
        Some((fname, fid)) if qn.owner is None && qn.name@ == fname => Ok(SymbolV { name: fname, id: fid }),
        _ => res_call(qn, s, st.types.cur_mod, st.class_syms, st.fun_syms),
    }
}

/// Two operands resolved in turn with the same bindings.
pub open spec fn res_two(l: Result<(SEV, u64), ReportV>, r: spec_fn(u64) -> Result<(SEV, u64), ReportV>) -> Result<(SEV, SEV, u64), ReportV> {
    match l {
        Err(e) => Err(e),
        Ok((a, g1)) => match r(g1) {
            Err(e) => Err(e),
            Ok((b, g2)) => Ok((a, b, g2)),
        },
    }
}

/// Resolves an expression with the variables `binds` in scope; `g` is the next fresh
/// identifier.
pub open spec fn res_expr(e: Expr<Name, NominalType>, st: SymTableV, binds: Map<Seq<char>, SID>, g: u64) -> Result<(SEV, u64), ReportV>
    decreases e, 0nat,
{
    match e {
        Expr::Variable(qn, s) => if binds.contains_key(qn.name@) {
            Ok((ExprV::Variable(SymbolV { name: qn.name@, id: binds[qn.name@] }, s), g))
        } else {
            Err(rerr(s, "Variable `"@ + qn.name@ + "` not found in current scope."@))
        },
        Expr::IntLiteral(v, s) => Ok((ExprV::IntLiteral(v, s), g)),
        Expr::BoolLiteral(v, s) => Ok((ExprV::BoolLiteral(v, s), g)),
        Expr::StringLiteral(v, s) => Ok((ExprV::StringLiteral(v@, s), g)),
        Expr::UnitLiteral(s) => Ok((ExprV::UnitLiteral(s), g)),
        Expr::Plus(l, r) => bin_res(0, res_expr(*l, st, binds, g), |g1: u64| res_expr(*r, st, binds, g1)),
        Expr::Minus(l, r) => bin_res(1, res_expr(*l, st, binds, g), |g1: u64| res_expr(*r, st, binds, g1)),
        Expr::Times(l, r) => bin_res(2, res_expr(*l, st, binds, g), |g1: u64| res_expr(*r, st, binds, g1)),
        Expr::Div(l, r) => bin_res(3, res_expr(*l, st, binds, g), |g1: u64| res_expr(*r, st, binds, g1)),
        Expr::Mod(l, r) => bin_res(4, res_expr(*l, st, binds, g), |g1: u64| res_expr(*r, st, binds, g1)),
        Expr::LessThan(l, r) => bin_res(5, res_expr(*l, st, binds, g), |g1: u64| res_expr(*r, st, binds, g1)),
        Expr::LessEquals(l, r) => bin_res(6, res_expr(*l, st, binds, g), |g1: u64| res_expr(*r, st, binds, g1)),
        Expr::And(l, r) => bin_res(7, res_expr(*l, st, binds, g), |g1: u64| res_expr(*r, st, binds, g1)),
        Expr::Or(l, r) => bin_res(8, res_expr(*l, st, binds, g), |g1: u64| res_expr(*r, st, binds, g1)),
        Expr::Equals(l, r) => bin_res(9, res_expr(*l, st, binds, g), |g1: u64| res_expr(*r, st, binds, g1)),
        Expr::Concat(l, r) => bin_res(10, res_expr(*l, st, binds, g), |g1: u64| res_expr(*r, st, binds, g1)),
        Expr::Sequence(l, r) => bin_res(11, res_expr(*l, st, binds, g), |g1: u64| res_expr(*r, st, binds, g1)),
        Expr::Not(a, s) => match res_expr(*a, st, binds, g) {
            Err(x) => Err(x),
            Ok((sa, g1)) => Ok((ExprV::Not(Box::new(sa), s), g1)),
        },
        Expr::Neg(a, s) => match res_expr(*a, st, binds, g) {
            Err(x) => Err(x),
            Ok((sa, g1)) => Ok((ExprV::Neg(Box::new(sa), s), g1)),
        },
        Expr::Call(qn, args, s) => match callee(qn, s, st) {
            Err(x) => Err(x),
            Ok(sym) => match res_args(args, 0, st, binds, g) {
                Err(x) => Err(x),
                Ok((sargs, g1)) => Ok((ExprV::Call(sym, sargs, s), g1)),
            },
        },
        Expr::Let(qn, typ, val, body, s) => match res_type(typ, st.types) {
            Err(x) => Err(x),
            Ok(styp) => match res_expr(*val, st, binds, next_id(g)) {
                Err(x) => Err(x),
                Ok((sv, g2)) => match res_expr(*body, st, binds.insert(qn.name@, g), g2) {
                    Err(x) => Err(x),
                    Ok((sb, g3)) => Ok((ExprV::Let(SymbolV { name: qn.name@, id: g }, styp, Box::new(sv), Box::new(sb), s), g3)),
                },
            },
        },
        Expr::Ite(c, a, b, s) => match res_expr(*c, st, binds, g) {
            Err(x) => Err(x),
            Ok((sc, g1)) => match res_expr(*a, st, binds, g1) {
                Err(x) => Err(x),
                Ok((sa, g2)) => match res_expr(*b, st, binds, g2) {
                    Err(x) => Err(x),
                    Ok((sb, g3)) => Ok((ExprV::Ite(Box::new(sc), Box::new(sa), Box::new(sb), s), g3)),
                },
            },
        },
        Expr::Match(scrut, cases, s) => match res_expr(*scrut, st, binds, g) {
            Err(x) => Err(x),
            Ok((ss, g1)) => match res_cases(cases, 0, st, binds, g1) {
                Err(x) => Err(x),
                Ok((sc, g2)) => Ok((ExprV::Match(Box::new(ss), sc, s), g2)),
            },
        },
        Expr::Error(a, s) => match res_expr(*a, st, binds, g) {
            Err(x) => Err(x),
            Ok((sa, g1)) => Ok((ExprV::Error(Box::new(sa), s), g1)),
        },
    }
}

/// A binary expression of kind `k` (in the order of `Expr`'s variants from `Plus` to
/// `Concat`, then `Sequence`) from its resolved operands.
pub open spec fn bin_res(k: int, l: Result<(SEV, u64), ReportV>, r: spec_fn(u64) -> Result<(SEV, u64), ReportV>) -> Result<(SEV, u64), ReportV> {
    match res_two(l, r) {
        Err(e) => Err(e),
        Ok((a, b, g)) => Ok((bin_v(k, a, b), g)),
    }
}

/// The binary expression of kind `k` (see `bin_res`).
pub open spec fn bin_v(k: int, a: SEV, b: SEV) -> SEV {
    let (ba, bb) = (Box::new(a), Box::new(b));
    if k == 0 {
        ExprV::Plus(ba, bb)
    } else if k == 1 {
        ExprV::Minus(ba, bb)
    } else if k == 2 {
        ExprV::Times(ba, bb)
    } else if k == 3 {
        ExprV::Div(ba, bb)
    } else if k == 4 {
        ExprV::Mod(ba, bb)
    } else if k == 5 {
        ExprV::LessThan(ba, bb)
    } else if k == 6 {
        ExprV::LessEquals(ba, bb)
    } else if k == 7 {
        ExprV::And(ba, bb)
    } else if k == 8 {
        ExprV::Or(ba, bb)
    } else if k == 9 {
        ExprV::Equals(ba, bb)
    } else if k == 10 {
        ExprV::Concat(ba, bb)
    } else {
        ExprV::Sequence(ba, bb)
    }
}

/// Resolves the arguments `args[i..]`, in order, each with the bindings `binds`.
pub open spec fn res_args(args: VecDeque<Expr<Name, NominalType>>, i: int, st: SymTableV, binds: Map<Seq<char>, SID>, g: u64) -> Result<(Seq<SEV>, u64), ReportV>
    decreases args, args@.len() - i,
{
    if 0 <= i < args@.len() {
        proof {
            assert(decreases_to!(args => args[i]));
        }
        match res_expr(args@[i], st, binds, g) {
            Err(x) => Err(x),
            Ok((a, g1)) => match res_args(args, i + 1, st, binds, g1) {
                Err(x) => Err(x),
                Ok((rest, g2)) => Ok((seq![a] + rest, g2)),
            },
        }
    } else {
        Ok((Seq::empty(), g))
    }
}

/// Resolves the cases `cases[i..]`, in order: each pattern with the bindings `binds`, each
/// body with those of its pattern added.
pub open spec fn res_cases(cases: VecDeque<(Pattern<Name>, Expr<Name, NominalType>)>, i: int, st: SymTableV, binds: Map<Seq<char>, SID>, g: u64) -> Result<(Seq<(SPV, SEV)>, u64), ReportV>
    decreases cases, cases@.len() - i,
{
    if 0 <= i < cases@.len() {
        match res_pat(cases@[i].0, st, binds, g) {
            Err(x) => Err(x),
            Ok((sp, nb, g1)) => {
                proof {
                    assert(decreases_to!(cases => cases[i]));
                    assert(decreases_to!(cases[i] => cases[i].1));
                }
                match res_expr(cases@[i].1, st, nb, g1) {
                    Err(x) => Err(x),
                    Ok((se, g2)) => match res_cases(cases, i + 1, st, binds, g2) {
                        Err(x) => Err(x),
                        Ok((rest, g3)) => Ok((seq![(sp, se)] + rest, g3)),
                    },
                }
            },
        }
    } else {
        Ok((Seq::empty(), g))
    }
}

// ---------------------------------------------------------------------------------------------
// Programs
// ---------------------------------------------------------------------------------------------

/// The type variables `tvs[j..]` of definition `dname` get fresh symbols after those in `acc`;
/// a name used twice is reported at `range`.
pub open spec fn tvars_loop(tvs: Seq<String>, j: int, acc: Seq<SymbolV>, g: u64, range: Span, dname: Seq<char>) -> Result<(Seq<SymbolV>, u64), ReportV>
    decreases tvs.len() - j,
{
    if j < 0 || j >= tvs.len() {
        Ok((acc, g))
    } else if exists|k: int| 0 <= k < acc.len() && acc[k].name == tvs[j]@ {
        Err(rerr(range, "A type variable named "@ + dname + " is already used in this abstract class."@))
    } else {
        tvars_loop(tvs, j + 1, acc.push(SymbolV { name: tvs[j]@, id: g }), next_id(g), range, dname)
    }
}

/// The arguments `args[k..]`, after those in `acc`: each type is resolved in `tt`, then the
/// name gets a fresh symbol.
pub open spec fn args_loop(args: Seq<(String, NominalType)>, k: int, tt: TypeTableV, acc: Seq<(SymbolV, TypeV)>, g: u64) -> Result<(Seq<(SymbolV, TypeV)>, u64), ReportV>
    decreases args.len() - k,
{
    if k < 0 || k >= args.len() {
        Ok((acc, g))
    } else {
        match res_type(args[k].1, tt) {
            Err(x) => Err(x),
            Ok(t) => args_loop(args, k + 1, tt, acc.push((SymbolV { name: args[k].0@, id: g }, t)), next_id(g)),
        }
    }
}

/// The abstract classes of `md` from the `j`-th: each gets a fresh identifier in the
/// module's map `cur` and its definition in `defs`.
pub open spec fn types_loop(md: NominalModule, j: int, cur: Map<Seq<char>, SID>, defs: Map<SID, AbstSV>, g: u64) -> Result<(Map<Seq<char>, SID>, Map<SID, AbstSV>, u64), ReportV>
    decreases md.abstract_defs@.len() - j,
{
    if j < 0 || j >= md.abstract_defs@.len() {
        Ok((cur, defs, g))
    } else {
        let d = md.abstract_defs@[j];
        if cur.contains_key(d.name@) {
            Err(rerr(d.range, "A type named `"@ + d.name@ + "` is already defined in the module `"@ + md.name@ + "`."@))
        } else {
            match tvars_loop(d.type_vars@, 0, Seq::empty(), next_id(g), d.range, d.name@) {
                Err(x) => Err(x),
                Ok((tvs, g2)) => types_loop(
                    md,
                    j + 1,
                    cur.insert(d.name@, g),
                    defs.insert(g, AbstSV { name: SymbolV { name: d.name@, id: g }, type_vars: tvs, range: d.range }),
                    g2,
                ),
            }
        }
    }
}

/// The first pass, from the `i`-th module: the names of the modules and of their types.
pub open spec fn types_pass(mods: Seq<NominalModule>, i: int, syms: SymsV, defs: Map<SID, AbstSV>, g: u64) -> Result<(SymsV, Map<SID, AbstSV>, u64), ReportV>
    decreases mods.len() - i,
{
    if i < 0 || i >= mods.len() {
        Ok((syms, defs, g))
    } else {
        let md = mods[i];
        if syms.contains_key(md.name@) {
            Err(rerr(md.range, "Module `"@ + md.name@ + "` already defined."@))
        } else {
            match types_loop(md, 0, Map::empty(), defs, g) {
                Err(x) => Err(x),
                Ok((cur, defs1, g1)) => types_pass(mods, i + 1, syms.insert(md.name@, cur), defs1, g1),
            }
        }
    }
}

/// The case classes of `md` from the `j`-th: each gets a fresh identifier, its parent and
/// its resolved arguments.
pub open spec fn classes_loop(md: NominalModule, j: int, tsyms: SymsV, tdefs: Map<SID, AbstSV>, cur: Map<Seq<char>, SID>, defs: Map<SID, ClassSV>, g: u64) -> Result<(Map<Seq<char>, SID>, Map<SID, ClassSV>, u64), ReportV>
    decreases md.class_defs@.len() - j,
{
    if j < 0 || j >= md.class_defs@.len() {
        Ok((cur, defs, g))
    } else {
        let d = md.class_defs@[j];
        let types = tsyms[md.name@];
        if cur.contains_key(d.name@) {
            Err(rerr(d.range, "A case class named `"@ + d.name@ + "` is already defined in the `"@ + md.name@ + "` module."@))
        } else if types.contains_key(d.name@) {
            Err(rerr(d.range, "Name collision between a type and class named `"@ + d.name@ + "` in the `"@ + md.name@ + "` module."@))
        } else if !types.contains_key(d.parent@) {
            Err(rerr(d.range, "Could not find a type named `"@ + d.parent@ + "` in the `"@ + md.name@ + "` module."@))
        } else {
            let pid = types[d.parent@];
            let tt = TypeTableV { cur_mod: md.name@, type_vars: tdefs[pid].type_vars, type_syms: tsyms, type_defs: tdefs };
            match args_loop(d.args@, 0, tt, Seq::empty(), next_id(g)) {
                Err(x) => Err(x),
                Ok((sargs, g2)) => classes_loop(
                    md,
                    j + 1,
                    tsyms,
                    tdefs,
                    cur.insert(d.name@, g),
                    defs.insert(g, ClassSV { name: SymbolV { name: d.name@, id: g }, args: sargs, parent: SymbolV { name: d.parent@, id: pid }, range: d.range }),
                    g2,
                ),
            }
        }
    }
}

/// The second pass, from the `i`-th module: the case classes.
pub open spec fn classes_pass(mods: Seq<NominalModule>, i: int, tsyms: SymsV, tdefs: Map<SID, AbstSV>, syms: SymsV, defs: Map<SID, ClassSV>, g: u64) -> Result<(SymsV, Map<SID, ClassSV>, u64), ReportV>
    decreases mods.len() - i,
{
    if i < 0 || i >= mods.len() {
        Ok((syms, defs, g))
    } else {
        match classes_loop(mods[i], 0, tsyms, tdefs, Map::empty(), defs, g) {
            Err(x) => Err(x),
            Ok((cur, defs1, g1)) => classes_pass(mods, i + 1, tsyms, tdefs, syms.insert(mods[i].name@, cur), defs1, g1),
        }
    }
}

/// The functions of `md` from the `j`-th get fresh identifiers.
pub open spec fn funs_loop(md: NominalModule, j: int, tsyms: SymsV, csyms: SymsV, cur: Map<Seq<char>, SID>, g: u64) -> Result<(Map<Seq<char>, SID>, u64), ReportV>
    decreases md.fun_defs@.len() - j,
{
    if j < 0 || j >= md.fun_defs@.len() {
        Ok((cur, g))
    } else {
        let d = md.fun_defs@[j];
        if cur.contains_key(d.name@) {
            Err(rerr(d.range, "A function `"@ + d.name@ + "` is already defined in the `"@ + md.name@ + "` module."@))
        } else if tsyms[md.name@].contains_key(d.name@) {
            Err(rerr(d.range, "Name collision between a type and function named `"@ + d.name@ + "` in the `"@ + md.name@ + "` module."@))
        } else if csyms[md.name@].contains_key(d.name@) {
            Err(rerr(d.range, "Name collision between a class and function named `"@ + d.name@ + "` in the `"@ + md.name@ + "` module."@))
        } else {
            funs_loop(md, j + 1, tsyms, csyms, cur.insert(d.name@, g), next_id(g))
        }
    }
}

/// The third pass, from the `i`-th module: the names of the functions.
pub open spec fn funs_pass(mods: Seq<NominalModule>, i: int, tsyms: SymsV, csyms: SymsV, syms: SymsV, g: u64) -> Result<(SymsV, u64), ReportV>
    decreases mods.len() - i,
{
    if i < 0 || i >= mods.len() {
        Ok((syms, g))
    } else {
        match funs_loop(mods[i], 0, tsyms, csyms, Map::empty(), g) {
            Err(x) => Err(x),
            Ok((cur, g1)) => funs_pass(mods, i + 1, tsyms, csyms, syms.insert(mods[i].name@, cur), g1),
        }
    }
}

/// The bindings of the arguments of a function, in order (a later one wins).
pub open spec fn arg_binds(args: Seq<(SymbolV, TypeV)>) -> Map<Seq<char>, SID>
    decreases args.len(),
{
    if args.len() == 0 {
        Map::empty()
    } else {
        arg_binds(args.drop_last()).insert(args.last().0.name, args.last().0.id)
    }
}

/// The tables that the last two passes look names up in.
pub struct PassTables {
    pub tsyms: SymsV,
    pub tdefs: Map<SID, AbstSV>,
    pub csyms: SymsV,
    pub cdefs: Map<SID, ClassSV>,
    pub fsyms: SymsV,
}

/// The symbol table of module `m`, with the type variables `tvs` and the function `fname`.
pub open spec fn scope(t: PassTables, m: Seq<char>, tvs: Seq<SymbolV>, fname: Option<(Seq<char>, SID)>) -> SymTableV {
    SymTableV {
        types: TypeTableV { cur_mod: m, type_vars: tvs, type_syms: t.tsyms, type_defs: t.tdefs },
        class_syms: t.csyms,
        class_defs: t.cdefs,
        fun_syms: t.fsyms,
        fname,
    }
}

/// The function definitions of `md` from the `j`-th, resolved.
pub open spec fn fundefs_loop(md: NominalModule, j: int, t: PassTables, defs: Map<SID, FunSV>, g: u64) -> Result<(Map<SID, FunSV>, u64), ReportV>
    decreases md.fun_defs@.len() - j,
{
    if j < 0 || j >= md.fun_defs@.len() {
        Ok((defs, g))
    } else {
        let d = md.fun_defs@[j];
        let sid = t.fsyms[md.name@][d.name@];
        match tvars_loop(d.type_vars@, 0, Seq::empty(), g, d.range, d.name@) {
            Err(x) => Err(x),
            Ok((tvs, g1)) => {
                let st = scope(t, md.name@, tvs, Some((d.name@, sid)));
                match args_loop(d.args@, 0, st.types, Seq::empty(), g1) {
                    Err(x) => Err(x),
                    Ok((sargs, g2)) => match res_type(d.rt, st.types) {
                        Err(x) => Err(x),
                        Ok(rt) => match res_expr(d.body, st, arg_binds(sargs), g2) {
                            Err(x) => Err(x),
                            Ok((body, g3)) => fundefs_loop(
                                md,
                                j + 1,
                                t,
                                defs.insert(sid, FunSV { name: SymbolV { name: d.name@, id: sid }, type_vars: tvs, args: sargs, rt, body, range: d.range }),
                                g3,
                            ),
                        },
                    },
                }
            },
        }
    }
}

/// The fourth pass, from the `i`-th module: the function definitions.
pub open spec fn fundefs_pass(mods: Seq<NominalModule>, i: int, t: PassTables, defs: Map<SID, FunSV>, g: u64) -> Result<(Map<SID, FunSV>, u64), ReportV>
    decreases mods.len() - i,
{
    if i < 0 || i >= mods.len() {
        Ok((defs, g))
    } else {
        match fundefs_loop(mods[i], 0, t, defs, g) {
            Err(x) => Err(x),
            Ok((defs1, g1)) => fundefs_pass(mods, i + 1, t, defs1, g1),
        }
    }
}

/// The last pass, from the `i`-th module: the main expressions, after those in `acc`.
pub open spec fn exprs_pass(mods: Seq<NominalModule>, i: int, t: PassTables, acc: Seq<SEV>, g: u64) -> Result<(Seq<SEV>, u64), ReportV>
    decreases mods.len() - i,
{
    if i < 0 || i >= mods.len() {
        Ok((acc, g))
    } else {
        match mods[i].expr {
            None => exprs_pass(mods, i + 1, t, acc, g),
            Some(e) => match res_expr(e, scope(t, mods[i].name@, Seq::empty(), None), Map::empty(), g) {
                Err(x) => Err(x),
                Ok((se, g1)) => exprs_pass(mods, i + 1, t, acc.push(se), g1),
            },
        }
    }
}

/// Resolves the modules `mods` into one program; `g` is the generator's next identifier.
pub open spec fn resolve_program(mods: Seq<NominalModule>, g: u64) -> Result<(ProgramV, u64), ReportV> {
    match types_pass(mods, 0, Map::empty(), Map::empty(), g) {
        Err(x) => Err(x),
        Ok((tsyms, tdefs, g1)) => match classes_pass(mods, 0, tsyms, tdefs, Map::empty(), Map::empty(), g1) {
            Err(x) => Err(x),
            Ok((csyms, cdefs, g2)) => match funs_pass(mods, 0, tsyms, csyms, Map::empty(), g2) {
                Err(x) => Err(x),
                Ok((fsyms, g3)) => {
                    let t = PassTables { tsyms, tdefs, csyms, cdefs, fsyms };
                    match fundefs_pass(mods, 0, t, Map::empty(), g3) {
                        Err(x) => Err(x),
                        Ok((fdefs, g4)) => match exprs_pass(mods, 0, t, Seq::empty(), g4) {
                            Err(x) => Err(x),
                            Ok((es, g5)) => Ok((ProgramV { table: TableSV { type_defs: tdefs, class_defs: cdefs, fun_defs: fdefs }, exprs: es }, g5)),
                        },
                    }
                },
            },
        },
    }
}

} // verus!
