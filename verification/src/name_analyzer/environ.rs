//! Environments of name resolution: the current module, the type variables in scope, the
//! types of each module and the abstract classes; the full environment adds the names bound
//! to variables.
use std::collections::{HashMap, VecDeque};
use vstd::prelude::*;
use crate::ast::{SID, Symbol, SymbolicAbstDef};
use crate::name_analyzer::table::NameMap;

verus! {

/// What resolving a type needs to see.
pub struct TypeEnv<'a> {
    pub cur_mod: &'a String,
    pub type_vars: &'a VecDeque<Symbol>,
    pub types_by_mod: &'a NameMap<VecDeque<SID>>,
    pub type_defs: &'a HashMap<SID, SymbolicAbstDef>,
}

impl<'a> TypeEnv<'a> {
    pub fn new(
        cur_mod: &'a String,
        type_vars: &'a VecDeque<Symbol>,
        types_by_mod: &'a NameMap<VecDeque<SID>>,
        type_defs: &'a HashMap<SID, SymbolicAbstDef>,
    ) -> (e: Self)
        ensures
            e.cur_mod == cur_mod,
            e.type_vars == type_vars,
            e.types_by_mod == types_by_mod,
            e.type_defs == type_defs,
    {
        Self { cur_mod, type_vars, types_by_mod, type_defs }
    }
}

/// What resolving an expression needs to see: a type environment and the variables bound.
pub struct FullEnv<'a> {
    pub cur_mod: &'a String,
    pub type_vars: &'a VecDeque<Symbol>,
    pub binds: &'a mut NameMap<SID>,
    pub types_by_mod: &'a NameMap<VecDeque<SID>>,
    pub type_defs: &'a HashMap<SID, SymbolicAbstDef>,
}

impl<'a> FullEnv<'a> {
    pub fn new(
        cur_mod: &'a String,
        type_vars: &'a VecDeque<Symbol>,
        binds: &'a mut NameMap<SID>,
        types_by_mod: &'a NameMap<VecDeque<SID>>,
        type_defs: &'a HashMap<SID, SymbolicAbstDef>,
    ) -> (e: Self)
        ensures
            e.cur_mod == cur_mod,
            e.type_vars == type_vars,
            *e.binds == *old(binds),
            e.types_by_mod == types_by_mod,
            e.type_defs == type_defs,
    {
        Self { cur_mod, type_vars, binds, types_by_mod, type_defs }
    }

}

impl<'a> From<&FullEnv<'a>> for TypeEnv<'a> {
    /// The type environment that a full environment contains.
    fn from(value: &FullEnv<'a>) -> (e: Self) {
        TypeEnv::new(value.cur_mod, value.type_vars, value.types_by_mod, value.type_defs)
    }
}

impl<'a> vstd::std_specs::convert::FromSpecImpl<&FullEnv<'a>> for TypeEnv<'a> {
    open spec fn obeys_from_spec() -> bool {
        true
    }

    open spec fn from_spec(value: &FullEnv<'a>) -> Self {
        TypeEnv {
            cur_mod: value.cur_mod,
            type_vars: value.type_vars,
            types_by_mod: value.types_by_mod,
            type_defs: value.type_defs,
        }
    }
}

} // verus!
