//! Name-keyed maps, and the tables in which name resolution looks names up.
use std::collections::{HashMap, VecDeque};
use vstd::prelude::*;
use crate::ast::{SID, Symbol, SymbolV, SymbolicAbstDef, SymbolicClassDef};

verus! {

broadcast use vstd::std_specs::vec::group_vec_axioms;

/// A map from names to values: a list of bindings, in which a later binding of a name hides
/// an earlier one.
#[derive(Debug)]
pub struct NameMap<V> {
    entries: Vec<(String, V)>,
}

/// The map that a list of bindings denotes (a later binding wins).
pub open spec fn bindings_view<V: View>(es: Seq<(String, V)>) -> Map<Seq<char>, V::V>
    decreases es.len(),
{
    if es.len() == 0 {
        Map::empty()
    } else {
        bindings_view(es.drop_last()).insert(es.last().0@, es.last().1@)
    }
}

impl<V: View> View for NameMap<V> {
    type V = Map<Seq<char>, V::V>;

    closed spec fn view(&self) -> Map<Seq<char>, V::V> {
        bindings_view(self.entries@)
    }
}

impl<V: View> NameMap<V> {
    /// The empty map.
    pub fn new() -> (m: Self)
        ensures
            m@ == Map::<Seq<char>, V::V>::empty(),
    {
        NameMap { entries: Vec::new() }
    }

    /// Binds `name` to `value`.
    pub fn insert(&mut self, name: String, value: V)
        ensures
            final(self)@ == old(self)@.insert(name@, value@),
    {
        let ghost old_entries = self.entries@;
        self.entries.push((name, value));
        proof {
            assert(self.entries@.drop_last() =~= old_entries);
        }
    }

    /// The value bound to `name`, if any.
    pub fn get(&self, name: &String) -> (r: Option<&V>)
        ensures
            match r {
                Some(v) => self@.contains_key(name@) && self@[name@] == v@,
                None => !self@.contains_key(name@),
            },
    {
        let ghost es = self.entries@;
        let ghost k = name@;
        let mut i = self.entries.len();
        proof {
            assert(es.take(i as int) =~= es);
        }
        while i > 0
            invariant
                i <= es.len(),
                es == self.entries@,
                k == name@,
                bindings_view(es).contains_key(k) == bindings_view(es.take(i as int)).contains_key(k),
                bindings_view(es).contains_key(k) ==> bindings_view(es)[k] == bindings_view(es.take(i as int))[k],
            decreases i,
        {
            proof {
                assert(es.take(i as int).drop_last() =~= es.take(i - 1));
                assert(es.take(i as int).last() == es[i - 1]);
            }
            if self.entries[i - 1].0 == *name {
                return Some(&self.entries[i - 1].1);
            }
            i -= 1;
        }
        None
    }

    /// Whether `name` is bound.
    pub fn contains_key(&self, name: &String) -> (b: bool)
        ensures
            b == self@.contains_key(name@),
    {
        match self.get(name) {
            Some(_) => true,
            None => false,
        }
    }
}

impl NameMap<SID> {
    /// A copy of this map.
    pub fn duplicate(&self) -> (m: Self)
        ensures
            m@ == self@,
    {
        let mut entries: Vec<(String, SID)> = Vec::new();
        let mut i: usize = 0;
        while i < self.entries.len()
            invariant
                i <= self.entries@.len(),
                entries@ == self.entries@.take(i as int),
            decreases self.entries.len() - i,
        {
            let (n, v) = (self.entries[i].0.clone(), self.entries[i].1);
            entries.push((n, v));
            proof {
                assert(entries@ =~= self.entries@.take(i + 1));
            }
            i += 1;
        }
        proof {
            assert(entries@ =~= self.entries@);
        }
        NameMap { entries }
    }
}

/// The symbols of a module's names: module name, then name, to identifier.
pub type ModuleSyms = NameMap<NameMap<SID>>;

/// What resolving a type looks up: the current module, the type variables in scope, the
/// type names of every module and the abstract classes.
pub struct TypeTable<'a> {
    pub cur_mod: &'a String,
    pub type_vars: &'a VecDeque<Symbol>,
    pub type_syms: &'a ModuleSyms,
    pub type_defs: &'a HashMap<SID, SymbolicAbstDef>,
}

impl<'a> TypeTable<'a> {
    pub fn new(
        cur_mod: &'a String,
        type_vars: &'a VecDeque<Symbol>,
        type_syms: &'a ModuleSyms,
        type_defs: &'a HashMap<SID, SymbolicAbstDef>,
    ) -> (t: Self)
        ensures
            t.cur_mod == cur_mod,
            t.type_vars == type_vars,
            t.type_syms == type_syms,
            t.type_defs == type_defs,
    {
        Self { cur_mod, type_vars, type_syms, type_defs }
    }
}

/// What resolving a call looks up: the current module and the class and function names of
/// every module.
pub struct CallTable<'a> {
    pub cur_mod: &'a String,
    pub class_syms: &'a ModuleSyms,
    pub fun_syms: &'a ModuleSyms,
}

impl<'a> CallTable<'a> {
    pub fn new(cur_mod: &'a String, class_syms: &'a ModuleSyms, fun_syms: &'a ModuleSyms) -> (t: Self)
        ensures
            t.cur_mod == cur_mod,
            t.class_syms == class_syms,
            t.fun_syms == fun_syms,
    {
        Self { cur_mod, class_syms, fun_syms }
    }
}

/// Everything that resolving an expression looks up; `fname` is the function whose body is
/// resolved, if any, with its identifier.
pub struct SymbolTable<'a> {
    pub cur_mod: &'a String,
    pub type_vars: &'a VecDeque<Symbol>,
    pub type_syms: &'a ModuleSyms,
    pub type_defs: &'a HashMap<SID, SymbolicAbstDef>,
    pub class_syms: &'a ModuleSyms,
    pub class_defs: &'a HashMap<SID, SymbolicClassDef>,
    pub fun_syms: &'a ModuleSyms,
    pub fname: Option<(String, SID)>,
}

impl<'a> SymbolTable<'a> {
    pub fn new(
        cur_mod: &'a String,
        type_vars: &'a VecDeque<Symbol>,
        type_syms: &'a ModuleSyms,
        type_defs: &'a HashMap<SID, SymbolicAbstDef>,
        class_syms: &'a ModuleSyms,
        class_defs: &'a HashMap<SID, SymbolicClassDef>,
        fun_syms: &'a ModuleSyms,
        fname: Option<(String, SID)>,
    ) -> (t: Self)
        ensures
            t.cur_mod == cur_mod,
            t.type_vars == type_vars,
            t.type_syms == type_syms,
            t.type_defs == type_defs,
            t.class_syms == class_syms,
            t.class_defs == class_defs,
            t.fun_syms == fun_syms,
            t.fname == fname,
    {
        Self { cur_mod, type_vars, type_syms, type_defs, class_syms, class_defs, fun_syms, fname }
    }
}

impl<'a> From<&SymbolTable<'a>> for TypeTable<'a> {
    /// The part of the table that resolving a type looks up.
    fn from(value: &SymbolTable<'a>) -> (t: Self) {
        TypeTable::new(value.cur_mod, value.type_vars, value.type_syms, value.type_defs)
    }
}

impl<'a> vstd::std_specs::convert::FromSpecImpl<&SymbolTable<'a>> for TypeTable<'a> {
    open spec fn obeys_from_spec() -> bool {
        true
    }

    open spec fn from_spec(value: &SymbolTable<'a>) -> Self {
        TypeTable {
            cur_mod: value.cur_mod,
            type_vars: value.type_vars,
            type_syms: value.type_syms,
            type_defs: value.type_defs,
        }
    }
}

impl<'a> From<&SymbolTable<'a>> for CallTable<'a> {
    /// The part of the table that resolving a call looks up.
    fn from(value: &SymbolTable<'a>) -> (t: Self) {
        CallTable::new(value.cur_mod, value.class_syms, value.fun_syms)
    }
}

impl<'a> vstd::std_specs::convert::FromSpecImpl<&SymbolTable<'a>> for CallTable<'a> {
    open spec fn obeys_from_spec() -> bool {
        true
    }

    open spec fn from_spec(value: &SymbolTable<'a>) -> Self {
        CallTable { cur_mod: value.cur_mod, class_syms: value.class_syms, fun_syms: value.fun_syms }
    }
}

} // verus!
