use std::collections::{HashMap, VecDeque};

use rac::ast::{Name, NominalModule, SymbolGenerator, SymbolicProgram};
use rac::diagnostics::{Report, Span, Stage};
use rac::name_analyzer::environ::{FullEnv, TypeEnv};
use rac::name_analyzer::program::resolve;
use rac::name_analyzer::table::{CallTable, ModuleSyms, NameMap, SymbolTable, TypeTable};
use rac::name_analyzer::resolve_call;
use rac::parser::definition::parse;
use rac::parser::tokeniter::TokenIter;

fn modules(srcs: &[&str]) -> VecDeque<NominalModule> {
    let mut out = VecDeque::new();
    for (i, src) in srcs.iter().enumerate() {
        let b = src.as_bytes();
        let mut ts = TokenIter::new(b, b.len(), i as u8);
        out.push_back(parse(b, &mut ts).expect("the test source parses"));
    }
    out
}

fn resolved(srcs: &[&str]) -> Result<SymbolicProgram, Report> {
    let mut sg = SymbolGenerator::new();
    resolve(modules(srcs), &mut sg)
}

fn resolve_err(srcs: &[&str]) -> String {
    let r = resolved(srcs).err().expect("expected a resolution error");
    assert_eq!(r.stage, Stage::Resolving);
    r.msg
}

#[test]
fn name_map_later_binding_wins() {
    let mut m: NameMap<u64> = NameMap::new();
    assert!(!m.contains_key(&"a".to_string()));
    m.insert("a".to_string(), 1);
    m.insert("b".to_string(), 2);
    m.insert("a".to_string(), 3);
    assert_eq!(m.get(&"a".to_string()), Some(&3));
    assert_eq!(m.get(&"b".to_string()), Some(&2));
    assert_eq!(m.get(&"c".to_string()), None);
    assert!(m.contains_key(&"b".to_string()));
}

#[test]
fn tables_take_their_part_of_the_symbol_table() {
    let cur = "M".to_string();
    let tvs = VecDeque::new();
    let tsyms: ModuleSyms = NameMap::new();
    let tdefs = HashMap::new();
    let mut csyms: ModuleSyms = NameMap::new();
    csyms.insert("M".to_string(), NameMap::new());
    let cdefs = HashMap::new();
    let mut fsyms: ModuleSyms = NameMap::new();
    let mut mfuns = NameMap::new();
    mfuns.insert("f".to_string(), 9);
    fsyms.insert("M".to_string(), mfuns);
    let st = SymbolTable::new(&cur, &tvs, &tsyms, &tdefs, &csyms, &cdefs, &fsyms, None);
    let tt = TypeTable::from(&st);
    assert_eq!(tt.cur_mod, "M");
    let ct = CallTable::from(&st);
    let sym = resolve_call(&Name::new(None, "f".to_string()), Span::new(0, 1, 0), &ct).unwrap();
    assert_eq!((sym.name.as_str(), sym.id), ("f", 9));
    let r = resolve_call(&Name::new(None, "g".to_string()), Span::new(0, 1, 0), &ct).err().unwrap();
    assert_eq!(r.msg, "No function or constructor named `g` in the `M` module.");
}

#[test]
fn type_environment_of_a_full_environment() {
    let cur = "M".to_string();
    let tvs = VecDeque::new();
    let mut binds: NameMap<u64> = NameMap::new();
    let by_mod: NameMap<VecDeque<u64>> = NameMap::new();
    let tdefs = HashMap::new();
    let full = FullEnv::new(&cur, &tvs, &mut binds, &by_mod, &tdefs);
    let te = TypeEnv::from(&full);
    assert_eq!(te.cur_mod, "M");
    assert!(te.type_vars.is_empty());
}

#[test]
fn duplicate_definitions_are_reported() {
    assert_eq!(
        resolve_err(&["object M abstract class T abstract class T end M"]),
        "A type named `T` is already defined in the module `M`."
    );
    assert_eq!(
        resolve_err(&["object M def f(): Int(32) := 1 end f def f(): Int(32) := 2 end f end M"]),
        "A function `f` is already defined in the `M` module."
    );
}

#[test]
fn name_collisions_are_reported() {
    assert_eq!(
        resolve_err(&["object M abstract class T def T(): Int(32) := 1 end T end M"]),
        "Name collision between a type and function named `T` in the `M` module."
    );
}

#[test]
fn unknown_parent_and_types_are_reported() {
    assert_eq!(
        resolve_err(&["object M case class C(x: Int(32)) extends T end M"]),
        "Could not find a type named `T` in the `M` module."
    );
    assert_eq!(
        resolve_err(&["object M def f(x: Q): Int(32) := 1 end f end M"]),
        "Could not find a type named `Q` in the `M` module."
    );
}

#[test]
fn unknown_calls_are_reported() {
    assert_eq!(
        resolve_err(&["object M g(1) end M"]),
        "No function or constructor named `g` in the `M` module."
    );
}

#[test]
fn constructor_pattern_arity_is_checked() {
    let src = "object M abstract class T case class C(x: Int(32)) extends T\n C(1) match { case C(a, b) => 1 } end M";
    assert_eq!(resolve_err(&[src]), "Constructor `C` takes 1 arguments, but was given 2.");
}

#[test]
fn qualified_references_resolve_across_modules() {
    let lib = "object L abstract class T case class C(x: Int(32)) extends T def mk(): L.T := L.C(1) end mk end L";
    let main = "object M L.mk() match { case L.C(n) => n } end M";
    let p = resolved(&[lib, main]).unwrap();
    assert_eq!(p.table.type_defs.len(), 1);
    assert_eq!(p.table.class_defs.len(), 1);
    assert_eq!(p.table.fun_defs.len(), 1);
    assert_eq!(p.exprs.len(), 1);
}
