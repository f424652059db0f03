//! Resolving whole programs, pass by pass: the modules and their types, the case classes,
//! the names of the functions, the function definitions, and the main expressions.
use std::collections::{HashMap, VecDeque};
use vstd::prelude::*;
use crate::ast::{
    DefinitionTable, NominalModule, NominalType, SID, Symbol, SymbolGenerator, SymbolV,
    SymbolicAbstDef, SymbolicClassDef, SymbolicFunDef, SymbolicProgram, SymbolicType, TypeV,
    AbstSV, ClassSV, FunSV, exprs_view, lemma_exprs_view, sym_args_view, symbols_view,
};
use crate::diagnostics::{Report, ReportV, Span};
use crate::name_analyzer::rules::{
    PassTables, SymsV, TypeTableV, arg_binds, args_loop, classes_loop, classes_pass,
    exprs_pass, fundefs_loop, fundefs_pass, funs_loop, funs_pass, rerr, res_type,
    resolve_program, scope, sym_table_ok, syms_defined, tvars_loop, type_table_ok, types_loop,
    types_pass,
};
use crate::name_analyzer::table::{ModuleSyms, NameMap, SymbolTable, TypeTable};
use crate::name_analyzer::{SExpr, error, resolve_expr, resolve_type, st_view, tt_view};
use crate::text::cat3;
use crate::name_analyzer::wellformed::lemma_res_expr_wf;
use crate::typecheck::{expr_wf, exprv_wf, lemma_expr_wf_view, program_wf};

verus! {

broadcast use {vstd::std_specs::vecdeque::group_vec_dequeue_axioms, vstd::std_specs::hash::group_hash_axioms};

/// The models of the abstract classes.
pub open spec fn tdefs_view(m: Map<SID, SymbolicAbstDef>) -> Map<SID, AbstSV> {
    m.map_values(|d: SymbolicAbstDef| d@)
}

/// The models of the case classes.
pub open spec fn cdefs_view(m: Map<SID, SymbolicClassDef>) -> Map<SID, ClassSV> {
    m.map_values(|d: SymbolicClassDef| d@)
}

/// Gives the type variables `tvs` of definition `dname` fresh symbols, in order; a name used
/// twice is reported at `range`.
fn resolve_type_vars(tvs: &VecDeque<String>, range: Span, dname: &String, sg: &mut SymbolGenerator) -> (r: Result<VecDeque<Symbol>, Report>)
    ensures
        match (r, tvars_loop(tvs@, 0, Seq::empty(), old(sg).next_id, range, dname@)) {
            (Ok(v), Ok((sv, g))) => symbols_view(v@) == sv && final(sg).next_id == g,
            (Err(e), Err(f)) => e@ == f,
            _ => false,
        },
{
    let mut out: VecDeque<Symbol> = VecDeque::new();
    let mut j: usize = 0;
    proof {
        assert(symbols_view(out@) =~= Seq::<SymbolV>::empty());
    }
    while j < tvs.len()
        invariant
            j <= tvs@.len(),
            tvars_loop(tvs@, 0, Seq::empty(), old(sg).next_id, range, dname@)
                == tvars_loop(tvs@, j as int, symbols_view(out@), sg.next_id, range, dname@),
        decreases tvs.len() - j,
    {
        let tv = &tvs[j];
        let mut k: usize = 0;
        while k < out.len()
            invariant
                k <= out@.len(),
                j < tvs@.len(),
                tvars_loop(tvs@, 0, Seq::empty(), old(sg).next_id, range, dname@)
                    == tvars_loop(tvs@, j as int, symbols_view(out@), sg.next_id, range, dname@),
                tv == tvs@[j as int],
                forall|l: int| 0 <= l < k ==> symbols_view(out@)[l].name != tvs@[j as int]@,
            decreases out.len() - k,
        {
            if out[k].name == *tv {
                proof {
                    assert(symbols_view(out@)[k as int].name == tvs@[j as int]@);
                }
                proof {
                    reveal_strlit("A type variable named ");
                }
                return error(range, cat3("A type variable named ", dname.as_str(), " is already used in this abstract class."));
            }
            k += 1;
        }
        let ghost before = out@;
        let sym = sg.fresh(tv.clone());
        out.push_back(sym);
        proof {
            assert(symbols_view(out@) =~= symbols_view(before).push(SymbolV { name: tvs@[j as int]@, id: sym.id }));
        }
        j += 1;
    }
    Ok(out)
}

/// Resolves the arguments `args` of a definition in `table`: each type, then a fresh symbol
/// for the name.
fn resolve_decl_args(args: &VecDeque<(String, NominalType)>, table: &TypeTable, sg: &mut SymbolGenerator) -> (r: Result<VecDeque<(Symbol, SymbolicType)>, Report>)
    requires
        type_table_ok(tt_view(*table)),
    ensures
        match (r, args_loop(args@, 0, tt_view(*table), Seq::empty(), old(sg).next_id)) {
            (Ok(v), Ok((sv, g))) => sym_args_view(v@) == sv && final(sg).next_id == g,
            (Err(e), Err(f)) => e@ == f,
            _ => false,
        },
{
    let ghost tt = tt_view(*table);
    let mut out: VecDeque<(Symbol, SymbolicType)> = VecDeque::new();
    let mut k: usize = 0;
    proof {
        assert(sym_args_view(out@) =~= Seq::<(SymbolV, TypeV)>::empty());
    }
    while k < args.len()
        invariant
            k <= args@.len(),
            tt == tt_view(*table),
            type_table_ok(tt),
            args_loop(args@, 0, tt, Seq::empty(), old(sg).next_id)
                == args_loop(args@, k as int, tt, sym_args_view(out@), sg.next_id),
        decreases args.len() - k,
    {
        let t = match resolve_type(&args[k].1, table) {
            Ok(t) => t,
            Err(e) => return Err(e),
        };
        let ghost before = out@;
        let sym = sg.fresh(args[k].0.clone());
        let ghost pair = (sym, t);
        out.push_back((sym, t));
        proof {
            assert(sym_args_view(out@) =~= sym_args_view(before).push((pair.0@, pair.1@)));
        }
        k += 1;
    }
    Ok(out)
}

/// The first pass: every module gets its map of type names, and every abstract class a fresh
/// identifier and its definition.
pub fn types_pass_exec(mods: &VecDeque<NominalModule>, sg: &mut SymbolGenerator) -> (r: Result<(ModuleSyms, HashMap<SID, SymbolicAbstDef>), Report>)
    ensures
        match (r, types_pass(mods@, 0, Map::empty(), Map::empty(), old(sg).next_id)) {
            (Ok((syms, defs)), Ok((ss, ds, g))) => syms@ == ss && tdefs_view(defs@) == ds && final(sg).next_id == g,
            (Err(e), Err(f)) => e@ == f,
            _ => false,
        },
        r matches Ok((syms, defs)) ==> syms_defined(syms@, defs@)
            && (forall|k: int| 0 <= k < mods@.len() ==> #[trigger] syms@.contains_key(mods@[k].name@))
            && (forall|k: int, l: int| 0 <= k < l < mods@.len() ==> mods@[k].name@ != mods@[l].name@),
{
    let mut syms: ModuleSyms = NameMap::new();
    let mut defs: HashMap<SID, SymbolicAbstDef> = HashMap::new();
    let mut i: usize = 0;
    proof {
        assert(tdefs_view(defs@) =~= Map::<SID, AbstSV>::empty());
    }
    while i < mods.len()
        invariant
            i <= mods@.len(),
            types_pass(mods@, 0, Map::empty(), Map::empty(), old(sg).next_id)
                == types_pass(mods@, i as int, syms@, tdefs_view(defs@), sg.next_id),
            syms_defined(syms@, defs@),
            forall|k: int| 0 <= k < i ==> #[trigger] syms@.contains_key(mods@[k].name@),
            forall|k: int, l: int| 0 <= k < l < i ==> mods@[k].name@ != mods@[l].name@,
        decreases mods.len() - i,
    {
        let md = &mods[i];
        if syms.contains_key(&md.name) {
            return error(md.range, cat3("Module `", md.name.as_str(), "` already defined."));
        }
        let ghost (d0, g0) = (tdefs_view(defs@), sg.next_id);
        let mut cur: NameMap<SID> = NameMap::new();
        let mut j: usize = 0;
        while j < md.abstract_defs.len()
            invariant
                j <= md.abstract_defs@.len(),
                i < mods@.len(),
                *md == mods@[i as int],
                !syms@.contains_key(md.name@),
                types_pass(mods@, 0, Map::empty(), Map::empty(), old(sg).next_id)
                    == types_pass(mods@, i as int, syms@, d0, g0),
                forall|k: int| 0 <= k < i ==> #[trigger] syms@.contains_key(mods@[k].name@),
                forall|k: int, l: int| 0 <= k < l < i ==> mods@[k].name@ != mods@[l].name@,
                types_loop(*md, 0, Map::empty(), d0, g0) == types_loop(*md, j as int, cur@, tdefs_view(defs@), sg.next_id),
                syms_defined(syms@, defs@),
                forall|n: Seq<char>| #[trigger] cur@.contains_key(n) ==> defs@.contains_key(cur@[n]),
            decreases md.abstract_defs.len() - j,
        {
            let d = &md.abstract_defs[j];
            if cur.contains_key(&d.name) {
                return error(d.range, crate::name_analyzer::cat5("A type named `", d.name.as_str(), "` is already defined in the module `", md.name.as_str(), "`."));
            }
            let sid = sg.fresh_id();
            let tvs = match resolve_type_vars(&d.type_vars, d.range, &d.name, sg) {
                Ok(v) => v,
                Err(e) => return Err(e),
            };
            cur.insert(d.name.clone(), sid);
            let ghost before = defs@;
            let def = SymbolicAbstDef { name: Symbol::new(&d.name, sid), type_vars: tvs, range: d.range };
            let ghost dv = def@;
            defs.insert(sid, def);
            proof {
                assert(tdefs_view(defs@) =~= tdefs_view(before).insert(sid, dv));
            }
            j += 1;
        }
        syms.insert(md.name.clone(), cur);
        i += 1;
    }
    Ok((syms, defs))
}

/// The second pass: every module gets its map of case class names, and every case class a
/// fresh identifier and its definition, with its parent and its resolved arguments.
pub fn classes_pass_exec(
    mods: &VecDeque<NominalModule>,
    tsyms: &ModuleSyms,
    tdefs: &HashMap<SID, SymbolicAbstDef>,
    sg: &mut SymbolGenerator,
) -> (r: Result<(ModuleSyms, HashMap<SID, SymbolicClassDef>), Report>)
    requires
        syms_defined(tsyms@, tdefs@),
        forall|k: int| 0 <= k < mods@.len() ==> #[trigger] tsyms@.contains_key(mods@[k].name@),
    ensures
        match (r, classes_pass(mods@, 0, tsyms@, tdefs_view(tdefs@), Map::empty(), Map::empty(), old(sg).next_id)) {
            (Ok((syms, defs)), Ok((ss, ds, g))) => syms@ == ss && cdefs_view(defs@) == ds && final(sg).next_id == g,
            (Err(e), Err(f)) => e@ == f,
            _ => false,
        },
        r matches Ok((syms, defs)) ==> syms_defined(syms@, defs@)
            && (forall|k: int| 0 <= k < mods@.len() ==> #[trigger] syms@.contains_key(mods@[k].name@))
            && (forall|id: SID| #[trigger] defs@.contains_key(id) ==> tdefs@.contains_key(defs@[id].parent.id)),
{
    let ghost (ts, td) = (tsyms@, tdefs_view(tdefs@));
    let mut syms: ModuleSyms = NameMap::new();
    let mut defs: HashMap<SID, SymbolicClassDef> = HashMap::new();
    let mut i: usize = 0;
    proof {
        assert(cdefs_view(defs@) =~= Map::<SID, ClassSV>::empty());
    }
    while i < mods.len()
        invariant
            i <= mods@.len(),
            ts == tsyms@,
            td == tdefs_view(tdefs@),
            syms_defined(tsyms@, tdefs@),
            forall|k: int| 0 <= k < mods@.len() ==> #[trigger] tsyms@.contains_key(mods@[k].name@),
            classes_pass(mods@, 0, ts, td, Map::empty(), Map::empty(), old(sg).next_id)
                == classes_pass(mods@, i as int, ts, td, syms@, cdefs_view(defs@), sg.next_id),
            syms_defined(syms@, defs@),
            forall|k: int| 0 <= k < i ==> #[trigger] syms@.contains_key(mods@[k].name@),
            forall|id: SID| #[trigger] defs@.contains_key(id) ==> tdefs@.contains_key(defs@[id].parent.id),
        decreases mods.len() - i,
    {
        let md = &mods[i];
        let types = match tsyms.get(&md.name) {
            Some(m) => m,
            None => vstd::pervasive::unreached(),
        };
        let ghost (d0, g0) = (cdefs_view(defs@), sg.next_id);
        let mut cur: NameMap<SID> = NameMap::new();
        let mut j: usize = 0;
        while j < md.class_defs.len()
            invariant
                j <= md.class_defs@.len(),
                i < mods@.len(),
                *md == mods@[i as int],
                ts == tsyms@,
                td == tdefs_view(tdefs@),
                types@ == ts[md.name@],
                syms_defined(tsyms@, tdefs@),
                forall|k: int| 0 <= k < mods@.len() ==> #[trigger] tsyms@.contains_key(mods@[k].name@),
                classes_pass(mods@, 0, ts, td, Map::empty(), Map::empty(), old(sg).next_id)
                    == classes_pass(mods@, i as int, ts, td, syms@, d0, g0),
                classes_loop(*md, 0, ts, td, Map::empty(), d0, g0) == classes_loop(*md, j as int, ts, td, cur@, cdefs_view(defs@), sg.next_id),
                syms_defined(syms@, defs@),
                forall|n: Seq<char>| #[trigger] cur@.contains_key(n) ==> defs@.contains_key(cur@[n]),
                forall|k: int| 0 <= k < i ==> #[trigger] syms@.contains_key(mods@[k].name@),
                forall|id: SID| #[trigger] defs@.contains_key(id) ==> tdefs@.contains_key(defs@[id].parent.id),
            decreases md.class_defs.len() - j,
        {
            let d = &md.class_defs[j];
            if cur.contains_key(&d.name) {
                return error(d.range, crate::name_analyzer::cat5("A case class named `", d.name.as_str(), "` is already defined in the `", md.name.as_str(), "` module."));
            }
            if types.contains_key(&d.name) {
                return error(d.range, crate::name_analyzer::cat5("Name collision between a type and class named `", d.name.as_str(), "` in the `", md.name.as_str(), "` module."));
            }
            let sid = sg.fresh_id();
            let pid = match types.get(&d.parent) {
                Some(x) => *x,
                None => return error(d.range, crate::name_analyzer::cat5("Could not find a type named `", d.parent.as_str(), "` in the `", md.name.as_str(), "` module.")),
            };
            let parent = crate::name_analyzer::abst_def(tdefs, pid);
            let table = TypeTable::new(&md.name, &parent.type_vars, tsyms, tdefs);
            proof {
                assert(tt_view(table) == TypeTableV { cur_mod: md.name@, type_vars: td[pid].type_vars, type_syms: ts, type_defs: td });
            }
            let sargs = match resolve_decl_args(&d.args, &table, sg) {
                Ok(v) => v,
                Err(e) => return Err(e),
            };
            cur.insert(d.name.clone(), sid);
            let ghost before = defs@;
            let def = SymbolicClassDef { name: Symbol::new(&d.name, sid), args: sargs, parent: Symbol::new(&d.parent, pid), range: d.range };
            let ghost dv = def@;
            proof {
                assert(tsyms@.contains_key(md.name@) && tsyms@[md.name@].contains_key(d.parent@));
                assert(tdefs@.contains_key(tsyms@[md.name@][d.parent@]));
            }
            defs.insert(sid, def);
            proof {
                assert(cdefs_view(defs@) =~= cdefs_view(before).insert(sid, dv));
            }
            j += 1;
        }
        syms.insert(md.name.clone(), cur);
        i += 1;
    }
    Ok((syms, defs))
}

/// The third pass: every module gets its map of function names, each with a fresh
/// identifier.
pub fn funs_pass_exec(
    mods: &VecDeque<NominalModule>,
    tsyms: &ModuleSyms,
    csyms: &ModuleSyms,
    sg: &mut SymbolGenerator,
) -> (r: Result<ModuleSyms, Report>)
    requires
        forall|k: int| 0 <= k < mods@.len() ==> #[trigger] tsyms@.contains_key(mods@[k].name@),
        forall|k: int| 0 <= k < mods@.len() ==> #[trigger] csyms@.contains_key(mods@[k].name@),
        forall|k: int, l: int| 0 <= k < l < mods@.len() ==> mods@[k].name@ != mods@[l].name@,
    ensures
        match (r, funs_pass(mods@, 0, tsyms@, csyms@, Map::empty(), old(sg).next_id)) {
            (Ok(syms), Ok((ss, g))) => syms@ == ss && final(sg).next_id == g,
            (Err(e), Err(f)) => e@ == f,
            _ => false,
        },
        r matches Ok(syms) ==> (forall|k: int| 0 <= k < mods@.len() ==> #[trigger] syms@.contains_key(mods@[k].name@))
            && (forall|k: int, l: int| 0 <= k < mods@.len() && 0 <= l < mods@[k].fun_defs@.len()
                ==> #[trigger] syms@[mods@[k].name@].contains_key(mods@[k].fun_defs@[l].name@)),
{
    let mut syms: ModuleSyms = NameMap::new();
    let mut i: usize = 0;
    while i < mods.len()
        invariant
            i <= mods@.len(),
            forall|k: int| 0 <= k < mods@.len() ==> #[trigger] tsyms@.contains_key(mods@[k].name@),
            forall|k: int| 0 <= k < mods@.len() ==> #[trigger] csyms@.contains_key(mods@[k].name@),
            forall|k: int, l: int| 0 <= k < l < mods@.len() ==> mods@[k].name@ != mods@[l].name@,
            funs_pass(mods@, 0, tsyms@, csyms@, Map::empty(), old(sg).next_id)
                == funs_pass(mods@, i as int, tsyms@, csyms@, syms@, sg.next_id),
            forall|k: int| 0 <= k < i ==> #[trigger] syms@.contains_key(mods@[k].name@),
            forall|k: int, l: int| 0 <= k < i && 0 <= l < mods@[k].fun_defs@.len()
                ==> #[trigger] syms@[mods@[k].name@].contains_key(mods@[k].fun_defs@[l].name@),
        decreases mods.len() - i,
    {
        let md = &mods[i];
        let types = match tsyms.get(&md.name) {
            Some(m) => m,
            None => vstd::pervasive::unreached(),
        };
        let classes = match csyms.get(&md.name) {
            Some(m) => m,
            None => vstd::pervasive::unreached(),
        };
        let ghost g0 = sg.next_id;
        let mut cur: NameMap<SID> = NameMap::new();
        let mut j: usize = 0;
        while j < md.fun_defs.len()
            invariant
                j <= md.fun_defs@.len(),
                i < mods@.len(),
                *md == mods@[i as int],
                types@ == tsyms@[md.name@],
                classes@ == csyms@[md.name@],
                funs_pass(mods@, 0, tsyms@, csyms@, Map::empty(), old(sg).next_id)
                    == funs_pass(mods@, i as int, tsyms@, csyms@, syms@, g0),
                funs_loop(*md, 0, tsyms@, csyms@, Map::empty(), g0) == funs_loop(*md, j as int, tsyms@, csyms@, cur@, sg.next_id),
                forall|l: int| 0 <= l < j ==> #[trigger] cur@.contains_key(md.fun_defs@[l].name@),
            decreases md.fun_defs.len() - j,
        {
            let d = &md.fun_defs[j];
            if cur.contains_key(&d.name) {
                return error(d.range, crate::name_analyzer::cat5("A function `", d.name.as_str(), "` is already defined in the `", md.name.as_str(), "` module."));
            }
            if types.contains_key(&d.name) {
                return error(d.range, crate::name_analyzer::cat5("Name collision between a type and function named `", d.name.as_str(), "` in the `", md.name.as_str(), "` module."));
            }
            if classes.contains_key(&d.name) {
                return error(d.range, crate::name_analyzer::cat5("Name collision between a class and function named `", d.name.as_str(), "` in the `", md.name.as_str(), "` module."));
            }
            let id = sg.fresh_id();
            cur.insert(d.name.clone(), id);
            j += 1;
        }
        let ghost before = syms@;
        syms.insert(md.name.clone(), cur);
        proof {
            assert forall|k: int, l: int| 0 <= k < i + 1 && 0 <= l < mods@[k].fun_defs@.len()
                implies #[trigger] syms@[mods@[k].name@].contains_key(mods@[k].fun_defs@[l].name@) by {
                if k < i {
                    assert(mods@[k].name@ != mods@[i as int].name@);
                    assert(syms@[mods@[k].name@] == before[mods@[k].name@]);
                }
            }
        }
        i += 1;
    }
    Ok(syms)
}

/// The models of the function definitions.
pub open spec fn fdefs_view(m: Map<SID, SymbolicFunDef>) -> Map<SID, FunSV> {
    m.map_values(|d: SymbolicFunDef| d@)
}

/// The tables of the last two passes, by their models.
pub open spec fn pass_tables(
    tsyms: ModuleSyms,
    tdefs: HashMap<SID, SymbolicAbstDef>,
    csyms: ModuleSyms,
    cdefs: HashMap<SID, SymbolicClassDef>,
    fsyms: ModuleSyms,
) -> PassTables {
    PassTables { tsyms: tsyms@, tdefs: tdefs_view(tdefs@), csyms: csyms@, cdefs: cdefs_view(cdefs@), fsyms: fsyms@ }
}

/// What the last two passes need of their tables, for the modules `mods`.
pub open spec fn tables_ok(
    mods: Seq<NominalModule>,
    tsyms: ModuleSyms,
    tdefs: HashMap<SID, SymbolicAbstDef>,
    csyms: ModuleSyms,
    cdefs: HashMap<SID, SymbolicClassDef>,
    fsyms: ModuleSyms,
) -> bool {
    &&& syms_defined(tsyms@, tdefs@)
    &&& syms_defined(csyms@, cdefs@)
    &&& forall|k: int| 0 <= k < mods.len() ==> #[trigger] tsyms@.contains_key(mods[k].name@)
    &&& forall|k: int| 0 <= k < mods.len() ==> #[trigger] csyms@.contains_key(mods[k].name@)
    &&& forall|k: int| 0 <= k < mods.len() ==> #[trigger] fsyms@.contains_key(mods[k].name@)
    &&& forall|k: int, l: int| 0 <= k < mods.len() && 0 <= l < mods[k].fun_defs@.len()
        ==> #[trigger] fsyms@[mods[k].name@].contains_key(mods[k].fun_defs@[l].name@)
}

/// The symbol table of module `m` is fit for resolving expressions.
proof fn lemma_scope_ok(
    mods: Seq<NominalModule>,
    tsyms: ModuleSyms,
    tdefs: HashMap<SID, SymbolicAbstDef>,
    csyms: ModuleSyms,
    cdefs: HashMap<SID, SymbolicClassDef>,
    fsyms: ModuleSyms,
    k: int,
    tvs: Seq<SymbolV>,
    fname: Option<(Seq<char>, SID)>,
)
    requires
        tables_ok(mods, tsyms, tdefs, csyms, cdefs, fsyms),
        0 <= k < mods.len(),
    ensures
        sym_table_ok(scope(pass_tables(tsyms, tdefs, csyms, cdefs, fsyms), mods[k].name@, tvs, fname)),
{
    let t = pass_tables(tsyms, tdefs, csyms, cdefs, fsyms);
    assert(tsyms@.contains_key(mods[k].name@));
    assert(csyms@.contains_key(mods[k].name@));
    assert(fsyms@.contains_key(mods[k].name@));
    assert forall|m: Seq<char>, n: Seq<char>| #![trigger t.tsyms[m][n]]
        t.tsyms.contains_key(m) && t.tsyms[m].contains_key(n) implies t.tdefs.contains_key(t.tsyms[m][n]) by {
        assert(tdefs@.contains_key(tsyms@[m][n]));
    }
    assert forall|m: Seq<char>, n: Seq<char>| #![trigger t.csyms[m][n]]
        t.csyms.contains_key(m) && t.csyms[m].contains_key(n) implies t.cdefs.contains_key(t.csyms[m][n]) by {
        assert(cdefs@.contains_key(csyms@[m][n]));
    }
}

/// The fourth pass: every function definition is resolved: its type variables, its
/// arguments, its return type, and its body with the arguments in scope.
pub fn fundefs_pass_exec(
    mods: &VecDeque<NominalModule>,
    tsyms: &ModuleSyms,
    tdefs: &HashMap<SID, SymbolicAbstDef>,
    csyms: &ModuleSyms,
    cdefs: &HashMap<SID, SymbolicClassDef>,
    fsyms: &ModuleSyms,
    sg: &mut SymbolGenerator,
) -> (r: Result<HashMap<SID, SymbolicFunDef>, Report>)
    requires
        tables_ok(mods@, *tsyms, *tdefs, *csyms, *cdefs, *fsyms),
    ensures
        match (r, fundefs_pass(mods@, 0, pass_tables(*tsyms, *tdefs, *csyms, *cdefs, *fsyms), Map::empty(), old(sg).next_id)) {
            (Ok(defs), Ok((ds, g))) => fdefs_view(defs@) == ds && final(sg).next_id == g,
            (Err(e), Err(f)) => e@ == f,
            _ => false,
        },
        r matches Ok(defs) ==> forall|id: SID| #[trigger] defs@.contains_key(id) ==> exprv_wf(defs@[id].body@, cdefs@.dom()),
{
    let ghost t = pass_tables(*tsyms, *tdefs, *csyms, *cdefs, *fsyms);
    let mut defs: HashMap<SID, SymbolicFunDef> = HashMap::new();
    proof {
        assert(fdefs_view(defs@) =~= Map::<SID, FunSV>::empty());
    }
    let mut i: usize = 0;
    while i < mods.len()
        invariant
            i <= mods@.len(),
            t == pass_tables(*tsyms, *tdefs, *csyms, *cdefs, *fsyms),
            tables_ok(mods@, *tsyms, *tdefs, *csyms, *cdefs, *fsyms),
            fundefs_pass(mods@, 0, t, Map::empty(), old(sg).next_id) == fundefs_pass(mods@, i as int, t, fdefs_view(defs@), sg.next_id),
            forall|id: SID| #[trigger] defs@.contains_key(id) ==> exprv_wf(defs@[id].body@, cdefs@.dom()),
        decreases mods.len() - i,
    {
        let md = &mods[i];
        let funs = match fsyms.get(&md.name) {
            Some(m) => m,
            None => vstd::pervasive::unreached(),
        };
        let ghost (d0, g0) = (fdefs_view(defs@), sg.next_id);
        let mut j: usize = 0;
        while j < md.fun_defs.len()
            invariant
                j <= md.fun_defs@.len(),
                i < mods@.len(),
                *md == mods@[i as int],
                t == pass_tables(*tsyms, *tdefs, *csyms, *cdefs, *fsyms),
                tables_ok(mods@, *tsyms, *tdefs, *csyms, *cdefs, *fsyms),
                funs@ == fsyms@[md.name@],
                fundefs_pass(mods@, 0, t, Map::empty(), old(sg).next_id) == fundefs_pass(mods@, i as int, t, d0, g0),
                fundefs_loop(*md, 0, t, d0, g0) == fundefs_loop(*md, j as int, t, fdefs_view(defs@), sg.next_id),
                forall|id: SID| #[trigger] defs@.contains_key(id) ==> exprv_wf(defs@[id].body@, cdefs@.dom()),
            decreases md.fun_defs.len() - j,
        {
            let d = &md.fun_defs[j];
            proof {
                assert(fsyms@[mods@[i as int].name@].contains_key(mods@[i as int].fun_defs@[j as int].name@));
            }
            let sid = match funs.get(&d.name) {
                Some(x) => *x,
                None => vstd::pervasive::unreached(),
            };
            let tvs = match resolve_type_vars(&d.type_vars, d.range, &d.name, sg) {
                Ok(v) => v,
                Err(e) => return Err(e),
            };
            let ghost tvv = symbols_view(tvs@);
            proof {
                lemma_scope_ok(mods@, *tsyms, *tdefs, *csyms, *cdefs, *fsyms, i as int, tvv, Some((d.name@, sid)));
            }
            let table = SymbolTable::new(&md.name, &tvs, tsyms, tdefs, csyms, cdefs, fsyms, Some((d.name.clone(), sid)));
            let ttable = TypeTable::from(&table);
            proof {
                assert(st_view(table) == scope(t, md.name@, tvv, Some((d.name@, sid))));
                assert(tt_view(ttable) == st_view(table).types);
            }
            let sargs = match resolve_decl_args(&d.args, &ttable, sg) {
                Ok(v) => v,
                Err(e) => return Err(e),
            };
            let rt = match resolve_type(&d.rt, &ttable) {
                Ok(v) => v,
                Err(e) => return Err(e),
            };
            let mut binds: NameMap<SID> = NameMap::new();
            let mut k: usize = 0;
            let ghost av = sym_args_view(sargs@);
            proof {
                assert(av.take(0) =~= Seq::<(SymbolV, TypeV)>::empty());
            }
            while k < sargs.len()
                invariant
                    k <= sargs@.len(),
                    av == sym_args_view(sargs@),
                    binds@ == arg_binds(av.take(k as int)),
                decreases sargs.len() - k,
            {
                binds.insert(sargs[k].0.name.clone(), sargs[k].0.id);
                proof {
                    assert(av.take(k + 1).drop_last() =~= av.take(k as int));
                }
                k += 1;
            }
            proof {
                assert(av.take(k as int) =~= av);
            }
            let ghost (bv, gb) = (binds@, sg.next_id);
            let body = match resolve_expr(&d.body, &table, binds, sg) {
                Ok(v) => v,
                Err(e) => return Err(e),
            };
            proof {
                lemma_res_expr_wf(d.body, st_view(table), bv, gb);
                assert(st_view(table).class_defs.dom() =~= cdefs@.dom());
            }
            let ghost before = defs@;
            let def = SymbolicFunDef { name: Symbol::new(&d.name, sid), type_vars: tvs, args: sargs, rt, body, range: d.range };
            let ghost dv = def@;
            defs.insert(sid, def);
            proof {
                assert(fdefs_view(defs@) =~= fdefs_view(before).insert(sid, dv));
            }
            j += 1;
        }
        i += 1;
    }
    Ok(defs)
}

/// The last pass: the main expression of every module that has one, resolved in that
/// module with nothing in scope.
pub fn exprs_pass_exec(
    mods: &VecDeque<NominalModule>,
    tsyms: &ModuleSyms,
    tdefs: &HashMap<SID, SymbolicAbstDef>,
    csyms: &ModuleSyms,
    cdefs: &HashMap<SID, SymbolicClassDef>,
    fsyms: &ModuleSyms,
    sg: &mut SymbolGenerator,
) -> (r: Result<VecDeque<SExpr>, Report>)
    requires
        tables_ok(mods@, *tsyms, *tdefs, *csyms, *cdefs, *fsyms),
    ensures
        match (r, exprs_pass(mods@, 0, pass_tables(*tsyms, *tdefs, *csyms, *cdefs, *fsyms), Seq::empty(), old(sg).next_id)) {
            (Ok(es), Ok((ev, g))) => exprs_view(es, 0) == ev && final(sg).next_id == g,
            (Err(e), Err(f)) => e@ == f,
            _ => false,
        },
        r matches Ok(es) ==> forall|i: int| 0 <= i < es@.len() ==> exprv_wf(#[trigger] es@[i]@, cdefs@.dom()),
{
    let ghost t = pass_tables(*tsyms, *tdefs, *csyms, *cdefs, *fsyms);
    let mut out: VecDeque<SExpr> = VecDeque::new();
    let no_vars: VecDeque<Symbol> = VecDeque::new();
    let mut i: usize = 0;
    while i < mods.len()
        invariant
            i <= mods@.len(),
            t == pass_tables(*tsyms, *tdefs, *csyms, *cdefs, *fsyms),
            tables_ok(mods@, *tsyms, *tdefs, *csyms, *cdefs, *fsyms),
            no_vars@.len() == 0,
            exprs_pass(mods@, 0, t, Seq::empty(), old(sg).next_id) == exprs_pass(mods@, i as int, t, exprs_view(out, 0), sg.next_id),
            forall|k: int| 0 <= k < out@.len() ==> exprv_wf(#[trigger] out@[k]@, cdefs@.dom()),
        decreases mods.len() - i,
    {
        let md = &mods[i];
        match &md.expr {
            None => {},
            Some(e) => {
                proof {
                    lemma_scope_ok(mods@, *tsyms, *tdefs, *csyms, *cdefs, *fsyms, i as int, Seq::empty(), None);
                    assert(symbols_view(no_vars@) =~= Seq::<SymbolV>::empty());
                }
                let table = SymbolTable::new(&md.name, &no_vars, tsyms, tdefs, csyms, cdefs, fsyms, None);
                proof {
                    assert(st_view(table) == scope(t, md.name@, Seq::empty(), None));
                }
                let empty: NameMap<SID> = NameMap::new();
                let ghost (bv, gb) = (empty@, sg.next_id);
                let x = match resolve_expr(e, &table, empty, sg) {
                    Ok(x) => x,
                    Err(err) => return Err(err),
                };
                proof {
                    lemma_res_expr_wf(*e, st_view(table), bv, gb);
                    assert(st_view(table).class_defs.dom() =~= cdefs@.dom());
                }
                let ghost before = out;
                out.push_back(x);
                proof {
                    lemma_exprs_view(before, 0);
                    lemma_exprs_view(out, 0);
                    assert(exprs_view(out, 0) =~= exprs_view(before, 0).push(x@));
                }
            },
        }
        i += 1;
    }
    Ok(out)
}

/// Resolves the modules `modules` into one program: every definition, variable and type
/// variable gets a fresh symbol from `sg`, and every use of a name the symbol it refers to.
pub fn resolve(modules: VecDeque<NominalModule>, sg: &mut SymbolGenerator) -> (r: Result<SymbolicProgram, Report>)
    ensures
        match (r, resolve_program(modules@, old(sg).next_id)) {
            (Ok(p), Ok((v, g))) => p@ == v && final(sg).next_id == g,
            (Err(e), Err(f)) => e@ == f,
            _ => false,
        },
        r matches Ok(p) ==> program_wf(p),
{
    let (tsyms, tdefs) = match types_pass_exec(&modules, sg) {
        Ok(x) => x,
        Err(e) => return Err(e),
    };
    let (csyms, cdefs) = match classes_pass_exec(&modules, &tsyms, &tdefs, sg) {
        Ok(x) => x,
        Err(e) => return Err(e),
    };
    let fsyms = match funs_pass_exec(&modules, &tsyms, &csyms, sg) {
        Ok(x) => x,
        Err(e) => return Err(e),
    };
    let fdefs = match fundefs_pass_exec(&modules, &tsyms, &tdefs, &csyms, &cdefs, &fsyms, sg) {
        Ok(x) => x,
        Err(e) => return Err(e),
    };
    let exprs = match exprs_pass_exec(&modules, &tsyms, &tdefs, &csyms, &cdefs, &fsyms, sg) {
        Ok(x) => x,
        Err(e) => return Err(e),
    };
    let p = SymbolicProgram { table: DefinitionTable { type_defs: tdefs, class_defs: cdefs, fun_defs: fdefs }, exprs };
    proof {
        lemma_resolved_wf(p);
    }
    Ok(p)
}

/// A program whose classes have their parents among its types, and whose function bodies and
/// expressions have well-formed models, is one the type checker can read.
proof fn lemma_resolved_wf(p: SymbolicProgram)
    requires
        forall|id: SID| #[trigger] p.table.class_defs@.contains_key(id)
            ==> p.table.type_defs@.contains_key(p.table.class_defs@[id].parent.id),
        forall|id: SID| #[trigger] p.table.fun_defs@.contains_key(id)
            ==> exprv_wf(p.table.fun_defs@[id].body@, p.table.class_defs@.dom()),
        forall|i: int| 0 <= i < p.exprs@.len() ==> exprv_wf(#[trigger] p.exprs@[i]@, p.table.class_defs@.dom()),
    ensures
        program_wf(p),
{
    assert forall|id: SID| #[trigger] p.table.fun_defs@.contains_key(id) implies expr_wf(p.table.fun_defs@[id].body, p.table) by {
        lemma_expr_wf_view(p.table.fun_defs@[id].body, p.table);
    }
    assert forall|i: int| 0 <= i < p.exprs@.len() implies expr_wf(#[trigger] p.exprs@[i], p.table) by {
        lemma_expr_wf_view(p.exprs@[i], p.table);
    }
}

} // verus!
