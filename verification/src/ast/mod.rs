//! Abstract syntax trees: the nominal tree built by the parser and the symbolic tree
//! built by name resolution, sharing one expression and one pattern structure.
pub mod environ;
pub mod show;

use std::collections::HashMap;
use std::collections::VecDeque;
use vstd::prelude::*;
use crate::diagnostics::{Span, MID, join, spec_join};
use crate::text::{nat_digits, nat_to_string};

verus! {

broadcast use vstd::std_specs::vecdeque::group_vec_dequeue_axioms;

/// Unique identifier of a resolved symbol.
pub type SID = u64;

// ---------------------------------------------------------------------------------------------
// Nominal tree
// ---------------------------------------------------------------------------------------------

/// A possibly qualified name, `owner.name` or `name`.
#[derive(Debug)]
pub struct Name {
    pub owner: Option<String>,
    pub name: String,
}

impl Name {
    pub fn new(owner: Option<String>, name: String) -> (n: Self)
        ensures
            n.owner == owner,
            n.name == name,
    {
        Self { owner, name }
    }
}

/// A type as written in the source.
#[derive(Debug)]
pub enum NominalType {
    IntType(Span),
    BoolType(Span),
    StringType(Span),
    UnitType(Span),
    /// A (possibly qualified) class name with its type arguments.
    IdType(Name, VecDeque<NominalType>, Span),
}

/// The argument list of a definition: names with their types.
pub type NomArgList = VecDeque<(String, NominalType)>;

/// `abstract class name`.
#[derive(Debug)]
pub struct NominalAbstDef {
    pub name: String,
    pub type_vars: VecDeque<String>,
    pub range: Span,
}

/// `case class name(args) extends parent`.
#[derive(Debug)]
pub struct NominalClassDef {
    pub name: String,
    pub args: NomArgList,
    pub parent: String,
    pub range: Span,
}

/// `def name(args): rt := body end name`.
#[derive(Debug)]
pub struct NominalFunDef {
    pub name: String,
    pub type_vars: VecDeque<String>,
    pub args: NomArgList,
    pub rt: NominalType,
    pub body: Expr<Name, NominalType>,
    pub range: Span,
}

/// `object name defs [expr] end name`; `range` is the span of the module's name.
#[derive(Debug)]
pub struct NominalModule {
    pub name: String,
    pub id: MID,
    pub range: Span,
    pub abstract_defs: VecDeque<NominalAbstDef>,
    pub class_defs: VecDeque<NominalClassDef>,
    pub fun_defs: VecDeque<NominalFunDef>,
    pub expr: Option<Expr<Name, NominalType>>,
}

// ---------------------------------------------------------------------------------------------
// Symbolic tree
// ---------------------------------------------------------------------------------------------

/// A resolved name: the source name and the unique identifier it was given.
#[derive(Debug, PartialEq, Eq, Hash)]
pub struct Symbol {
    pub name: String,
    pub id: SID,
}

impl Symbol {
    pub fn new(name: &String, id: SID) -> (s: Self)
        ensures
            s.name@ == name@,
            s.id == id,
    {
        Self { name: name.clone(), id }
    }

    /// A copy of this symbol.
    pub fn duplicate(&self) -> (s: Self)
        ensures
            s == *self,
    {
        Symbol { name: self.name.clone(), id: self.id }
    }
}

/// A resolved type.
#[derive(Debug)]
pub enum SymbolicType {
    IntType,
    BoolType,
    StringType,
    UnitType,
    /// A user-defined class type with its type arguments.
    ClassType(Symbol, VecDeque<SymbolicType>),
    /// A type variable.
    Var(Symbol),
}

/// The argument list of a resolved definition.
pub type SymArgList = VecDeque<(Symbol, SymbolicType)>;

/// The model of a resolved type: names by their characters.
pub enum TypeV {
    Int,
    Bool,
    Str,
    Unit,
    Class(Seq<char>, SID, Seq<TypeV>),
    Var(Seq<char>, SID),
}

/// The models of `ps[i..]`.
pub open spec fn params_view(ps: VecDeque<SymbolicType>, i: int) -> Seq<TypeV>
    decreases ps, ps@.len() - i,
{
    if 0 <= i < ps@.len() {
        seq![type_view(ps@[i])] + params_view(ps, i + 1)
    } else {
        Seq::empty()
    }
}

/// The model of a resolved type.
pub open spec fn type_view(t: SymbolicType) -> TypeV
    decreases t, 0nat,
{
    match t {
        SymbolicType::IntType => TypeV::Int,
        SymbolicType::BoolType => TypeV::Bool,
        SymbolicType::StringType => TypeV::Str,
        SymbolicType::UnitType => TypeV::Unit,
        SymbolicType::ClassType(s, ps) => TypeV::Class(s.name@, s.id, params_view(ps, 0)),
        SymbolicType::Var(s) => TypeV::Var(s.name@, s.id),
    }
}

impl View for SymbolicType {
    type V = TypeV;

    open spec fn view(&self) -> TypeV {
        type_view(*self)
    }
}

/// `params_view` has one model per parameter, in order.
pub proof fn lemma_params_view(ps: VecDeque<SymbolicType>, i: int)
    requires
        0 <= i <= ps@.len(),
    ensures
        params_view(ps, i).len() == ps@.len() - i,
        forall|j: int| 0 <= j < ps@.len() - i ==> #[trigger] params_view(ps, i)[j] == type_view(ps@[i + j]),
    decreases ps@.len() - i,
{
    if i < ps@.len() {
        lemma_params_view(ps, i + 1);
        assert forall|j: int| 0 <= j < ps@.len() - i implies #[trigger] params_view(ps, i)[j] == type_view(ps@[i + j]) by {
            if j > 0 {
                assert(params_view(ps, i)[j] == params_view(ps, i + 1)[j - 1]);
            }
        }
    }
}

/// The text of a symbol: its name, `_`, and its identifier.
pub open spec fn symbol_text(name: Seq<char>, id: SID) -> Seq<char> {
    name + seq!['_'] + nat_digits(id as nat)
}

/// The text of a resolved type, as in messages (type arguments are not shown).
pub open spec fn type_text(t: TypeV) -> Seq<char> {
    match t {
        TypeV::Int => "Int(32)"@,
        TypeV::Bool => "Boolean"@,
        TypeV::Str => "String"@,
        TypeV::Unit => "Unit"@,
        TypeV::Class(n, id, _) => symbol_text(n, id),
        TypeV::Var(n, id) => seq!['\''] + symbol_text(n, id),
    }
}

impl Symbol {
    /// The text of this symbol (see `symbol_text`).
    pub fn show(&self) -> (s: String)
        ensures
            s@ == symbol_text(self.name@, self.id),
    {
        let mut s = self.name.clone();
        proof {
            reveal_strlit("_");
        }
        s.append("_");
        s.append(nat_to_string(self.id).as_str());
        s
    }
}

impl SymbolicType {
    /// The text of this type (see `type_text`).
    pub fn show(&self) -> (s: String)
        ensures
            s@ == type_text(self@),
    {
        proof {
            reveal_strlit("Int(32)");
            reveal_strlit("Boolean");
            reveal_strlit("String");
            reveal_strlit("Unit");
            reveal_strlit("'");
        }
        match self {
            SymbolicType::IntType => "Int(32)".to_owned(),
            SymbolicType::BoolType => "Boolean".to_owned(),
            SymbolicType::StringType => "String".to_owned(),
            SymbolicType::UnitType => "Unit".to_owned(),
            SymbolicType::ClassType(name, _) => name.show(),
            SymbolicType::Var(name) => {
                let mut s = "'".to_owned();
                s.append(name.show().as_str());
                s
            },
        }
    }
}

/// A copy of a resolved type.
pub fn copy_type(t: &SymbolicType) -> (r: SymbolicType)
    ensures
        r@ == t@,
    decreases t,
{
    match t {
        SymbolicType::IntType => SymbolicType::IntType,
        SymbolicType::BoolType => SymbolicType::BoolType,
        SymbolicType::StringType => SymbolicType::StringType,
        SymbolicType::UnitType => SymbolicType::UnitType,
        SymbolicType::Var(s) => SymbolicType::Var(s.duplicate()),
        SymbolicType::ClassType(s, ps) => {
            let mut out: VecDeque<SymbolicType> = VecDeque::new();
            let mut i: usize = 0;
            while i < ps.len()
                invariant
                    i <= ps@.len(),
                    out@.len() == i,
                    forall|j: int| 0 <= j < i ==> type_view(#[trigger] out@[j]) == type_view(ps@[j]),
                    *t == SymbolicType::ClassType(*s, *ps),
                decreases ps.len() - i,
            {
                proof {
                    assert(decreases_to!(*t => (*t)->ClassType_1));
                    assert(decreases_to!(*ps => ps@[i as int]));
                }
                let c = copy_type(&ps[i]);
                out.push_back(c);
                i += 1;
            }
            proof {
                lemma_params_view(*ps, 0);
                lemma_params_view(out, 0);
                assert(params_view(out, 0) =~= params_view(*ps, 0));
            }
            SymbolicType::ClassType(s.duplicate(), out)
        },
    }
}

/// The identifier that follows `g` (identifiers wrap around after `u64::MAX`).
pub open spec fn next_id(g: u64) -> u64 {
    if g == u64::MAX { 0 } else { (g + 1) as u64 }
}

/// The name of the type variable with identifier `id`: `'a:` followed by `id` in decimal.
pub open spec fn fresh_var_name(id: u64) -> Seq<char> {
    seq!['\'', 'a', ':'] + nat_digits(id as nat)
}

/// Hands out symbols with consecutive identifiers.
pub struct SymbolGenerator {
    pub next_id: SID,
}

impl SymbolGenerator {
    pub fn new() -> (g: Self)
        ensures
            g.next_id == 0,
    {
        SymbolGenerator { next_id: 0 }
    }

    /// The next identifier.
    pub fn fresh_id(&mut self) -> (id: SID)
        ensures
            id == old(self).next_id,
            final(self).next_id == next_id(old(self).next_id),
    {
        let id = self.next_id;
        self.next_id = if self.next_id == u64::MAX { 0 } else { self.next_id + 1 };
        id
    }

    /// A symbol named `name` with the next identifier.
    pub fn fresh(&mut self, name: String) -> (s: Symbol)
        ensures
            s.name == name,
            s.id == old(self).next_id,
            final(self).next_id == next_id(old(self).next_id),
    {
        let id = self.fresh_id();
        Symbol { name, id }
    }

    /// A type variable with the next identifier, named after it.
    pub fn fresh_type_var(&mut self) -> (t: SymbolicType)
        ensures
            t@ == TypeV::Var(fresh_var_name(old(self).next_id), old(self).next_id),
            final(self).next_id == next_id(old(self).next_id),
    {
        let mut name = "'a:".to_owned();
        proof {
            reveal_strlit("'a:");
        }
        name.append(nat_to_string(self.next_id).as_str());
        let s = self.fresh(name);
        proof {
            assert(s.name@ =~= fresh_var_name(old(self).next_id));
        }
        SymbolicType::Var(s)
    }
}

/// The generator's next identifier once `k` identifiers have been handed out from `g`; each
/// call of `fresh_id`, `fresh` or `fresh_type_var` hands out the next identifier and moves
/// it on with `next_id`, so the `k`-th call (from zero) hands out `id_after(g, k)`.
pub open spec fn id_after(g: u64, k: nat) -> u64
    decreases k,
{
    if k == 0 {
        g
    } else {
        next_id(id_after(g, (k - 1) as nat))
    }
}

/// Successive calls on one generator hand out consecutive identifiers `g`, `g + 1`, ...,
/// as long as they stay within `u64`.
pub proof fn law_ids_consecutive(g: u64, k: nat)
    requires
        g + k <= u64::MAX,
    ensures
        id_after(g, k) == g + k,
    decreases k,
{
    if k > 0 {
        law_ids_consecutive(g, (k - 1) as nat);
    }
}

/// No two calls on one generator hand out the same identifier, as long as the identifiers
/// stay within `u64`.
pub proof fn law_ids_distinct(g: u64, i: nat, j: nat)
    requires
        i < j,
        g + j <= u64::MAX,
    ensures
        id_after(g, i) != id_after(g, j),
{
    law_ids_consecutive(g, i);
    law_ids_consecutive(g, j);
}

/// Two identifiers handed out in a row differ, unless all identifiers were used up in between.
pub proof fn law_fresh_ids_distinct(g: u64)
    ensures
        next_id(g) != g,
{
}

/// A resolved `abstract class`.
#[derive(Debug)]
pub struct SymbolicAbstDef {
    pub name: Symbol,
    pub type_vars: VecDeque<Symbol>,
    pub range: Span,
}

/// A resolved `case class`.
#[derive(Debug)]
pub struct SymbolicClassDef {
    pub name: Symbol,
    pub args: SymArgList,
    pub parent: Symbol,
    pub range: Span,
}

/// A resolved function definition.
#[derive(Debug)]
pub struct SymbolicFunDef {
    pub name: Symbol,
    pub type_vars: VecDeque<Symbol>,
    pub args: SymArgList,
    pub rt: SymbolicType,
    pub body: Expr<Symbol, SymbolicType>,
    pub range: Span,
}

/// All resolved definitions of a program, by identifier.
#[derive(Debug)]
pub struct DefinitionTable {
    pub type_defs: HashMap<SID, SymbolicAbstDef>,
    pub class_defs: HashMap<SID, SymbolicClassDef>,
    pub fun_defs: HashMap<SID, SymbolicFunDef>,
}

/// A resolved program: its definitions and the main expressions of its modules.
#[derive(Debug)]
pub struct SymbolicProgram {
    pub table: DefinitionTable,
    pub exprs: VecDeque<Expr<Symbol, SymbolicType>>,
}

// ---------------------------------------------------------------------------------------------
// Expressions and patterns
// ---------------------------------------------------------------------------------------------

/// Expressions, shared by the nominal (`N = Name`) and symbolic (`N = Symbol`) trees.
#[derive(Debug)]
pub enum Expr<N, T> {
    /// The span is that of the variable.
    Variable(N, Span),
    /// Literals carry their own span.
    IntLiteral(i32, Span),
    BoolLiteral(bool, Span),
    StringLiteral(String, Span),
    UnitLiteral(Span),
    /// Binary operators: the range is the join of the operands' ranges.
    Plus(Box<Expr<N, T>>, Box<Expr<N, T>>),
    Minus(Box<Expr<N, T>>, Box<Expr<N, T>>),
    Times(Box<Expr<N, T>>, Box<Expr<N, T>>),
    Div(Box<Expr<N, T>>, Box<Expr<N, T>>),
    Mod(Box<Expr<N, T>>, Box<Expr<N, T>>),
    LessThan(Box<Expr<N, T>>, Box<Expr<N, T>>),
    LessEquals(Box<Expr<N, T>>, Box<Expr<N, T>>),
    And(Box<Expr<N, T>>, Box<Expr<N, T>>),
    Or(Box<Expr<N, T>>, Box<Expr<N, T>>),
    Equals(Box<Expr<N, T>>, Box<Expr<N, T>>),
    Concat(Box<Expr<N, T>>, Box<Expr<N, T>>),
    /// Unary operators: the span is that of the operator.
    Not(Box<Expr<N, T>>, Span),
    Neg(Box<Expr<N, T>>, Span),
    /// Function or constructor call: the span covers the whole call.
    Call(N, VecDeque<Expr<N, T>>, Span),
    /// `lhs; rhs`: the range is the join of the operands' ranges.
    Sequence(Box<Expr<N, T>>, Box<Expr<N, T>>),
    /// `val name: T = value; body`: the span covers the declaration.
    Let(N, T, Box<Expr<N, T>>, Box<Expr<N, T>>, Span),
    /// `if (c) then a else b end if`: the span covers the whole expression.
    Ite(Box<Expr<N, T>>, Box<Expr<N, T>>, Box<Expr<N, T>>, Span),
    /// `scrut match { cases }`: the span is that of the closing curly bracket.
    Match(Box<Expr<N, T>>, VecDeque<(Pattern<N>, Expr<N, T>)>, Span),
    /// `error(msg)`: the span covers the whole expression.
    Error(Box<Expr<N, T>>, Span),
}

/// The true range of an expression.
pub open spec fn spec_range<N, T>(e: Expr<N, T>) -> Span
    decreases e,
{
    match e {
        Expr::Variable(_, s) => s,
        Expr::IntLiteral(_, s) => s,
        Expr::BoolLiteral(_, s) => s,
        Expr::StringLiteral(_, s) => s,
        Expr::UnitLiteral(s) => s,
        Expr::Plus(l, r) => spec_join(spec_range(*l), spec_range(*r)),
        Expr::Minus(l, r) => spec_join(spec_range(*l), spec_range(*r)),
        Expr::Times(l, r) => spec_join(spec_range(*l), spec_range(*r)),
        Expr::Div(l, r) => spec_join(spec_range(*l), spec_range(*r)),
        Expr::Mod(l, r) => spec_join(spec_range(*l), spec_range(*r)),
        Expr::LessThan(l, r) => spec_join(spec_range(*l), spec_range(*r)),
        Expr::LessEquals(l, r) => spec_join(spec_range(*l), spec_range(*r)),
        Expr::And(l, r) => spec_join(spec_range(*l), spec_range(*r)),
        Expr::Or(l, r) => spec_join(spec_range(*l), spec_range(*r)),
        Expr::Equals(l, r) => spec_join(spec_range(*l), spec_range(*r)),
        Expr::Concat(l, r) => spec_join(spec_range(*l), spec_range(*r)),
        Expr::Not(a, s) => spec_join(s, spec_range(*a)),
        Expr::Neg(a, s) => spec_join(s, spec_range(*a)),
        Expr::Call(_, _, s) => s,
        Expr::Sequence(l, r) => spec_join(spec_range(*l), spec_range(*r)),
        Expr::Let(_, _, _, _, s) => s,
        Expr::Ite(_, _, _, s) => s,
        Expr::Match(scrut, _, s) => spec_join(spec_range(*scrut), s),
        Expr::Error(_, s) => s,
    }
}

/// Computes the true range of an expression.
pub fn range<N, T>(e: &Expr<N, T>) -> (s: Span)
    ensures
        s == spec_range(*e),
    decreases e,
{
    match e {
        Expr::Variable(_, s) => *s,
        Expr::IntLiteral(_, s) => *s,
        Expr::BoolLiteral(_, s) => *s,
        Expr::StringLiteral(_, s) => *s,
        Expr::UnitLiteral(s) => *s,
        Expr::Plus(l, r) => join(range(l), range(r)),
        Expr::Minus(l, r) => join(range(l), range(r)),
        Expr::Times(l, r) => join(range(l), range(r)),
        Expr::Div(l, r) => join(range(l), range(r)),
        Expr::Mod(l, r) => join(range(l), range(r)),
        Expr::LessThan(l, r) => join(range(l), range(r)),
        Expr::LessEquals(l, r) => join(range(l), range(r)),
        Expr::And(l, r) => join(range(l), range(r)),
        Expr::Or(l, r) => join(range(l), range(r)),
        Expr::Equals(l, r) => join(range(l), range(r)),
        Expr::Concat(l, r) => join(range(l), range(r)),
        Expr::Not(a, s) => join(*s, range(a)),
        Expr::Neg(a, s) => join(*s, range(a)),
        Expr::Call(_, _, s) => *s,
        Expr::Sequence(l, r) => join(range(l), range(r)),
        Expr::Let(_, _, _, _, s) => *s,
        Expr::Ite(_, _, _, s) => *s,
        Expr::Match(scrut, _, s) => join(range(scrut), *s),
        Expr::Error(_, s) => *s,
    }
}

/// Match patterns, shared by the nominal and symbolic trees.
#[derive(Debug)]
pub enum Pattern<N> {
    Wildcard(Span),
    IdPattern(N, Span),
    BoolPattern(bool, Span),
    StringPattern(String, Span),
    IntPattern(i32, Span),
    UnitPattern(Span),
    ClassPattern(N, VecDeque<Pattern<N>>, Span),
}


// ---------------------------------------------------------------------------------------------
// Models of the trees: strings by their characters, lists by sequences
// ---------------------------------------------------------------------------------------------

/// The model of a name.
pub struct NameV {
    pub owner: Option<Seq<char>>,
    pub name: Seq<char>,
}

impl View for Name {
    type V = NameV;

    open spec fn view(&self) -> NameV {
        NameV {
            owner: match self.owner {
                Some(o) => Some(o@),
                None => None,
            },
            name: self.name@,
        }
    }
}

/// The model of a symbol.
pub struct SymbolV {
    pub name: Seq<char>,
    pub id: SID,
}

impl View for Symbol {
    type V = SymbolV;

    open spec fn view(&self) -> SymbolV {
        SymbolV { name: self.name@, id: self.id }
    }
}

/// The model of a type as written.
pub enum NTypeV {
    Int(Span),
    Bool(Span),
    Str(Span),
    Unit(Span),
    Id(NameV, Seq<NTypeV>, Span),
}

/// The models of `ps[i..]`.
pub open spec fn ntypes_view(ps: VecDeque<NominalType>, i: int) -> Seq<NTypeV>
    decreases ps, ps@.len() - i,
{
    if 0 <= i < ps@.len() {
        seq![ntype_view(ps@[i])] + ntypes_view(ps, i + 1)
    } else {
        Seq::empty()
    }
}

pub open spec fn ntype_view(t: NominalType) -> NTypeV
    decreases t, 0nat,
{
    match t {
        NominalType::IntType(s) => NTypeV::Int(s),
        NominalType::BoolType(s) => NTypeV::Bool(s),
        NominalType::StringType(s) => NTypeV::Str(s),
        NominalType::UnitType(s) => NTypeV::Unit(s),
        NominalType::IdType(n, ps, s) => NTypeV::Id(n@, ntypes_view(ps, 0), s),
    }
}

impl View for NominalType {
    type V = NTypeV;

    open spec fn view(&self) -> NTypeV {
        ntype_view(*self)
    }
}

/// The model of a pattern.
pub enum PatV<NV> {
    Wildcard(Span),
    IdPattern(NV, Span),
    BoolPattern(bool, Span),
    StringPattern(Seq<char>, Span),
    IntPattern(i32, Span),
    UnitPattern(Span),
    ClassPattern(NV, Seq<PatV<NV>>, Span),
}

/// The models of `ps[i..]`.
pub open spec fn pats_view<N: View>(ps: VecDeque<Pattern<N>>, i: int) -> Seq<PatV<N::V>>
    decreases ps, ps@.len() - i,
{
    if 0 <= i < ps@.len() {
        seq![pat_view(ps@[i])] + pats_view(ps, i + 1)
    } else {
        Seq::empty()
    }
}

pub open spec fn pat_view<N: View>(p: Pattern<N>) -> PatV<N::V>
    decreases p, 0nat,
{
    match p {
        Pattern::Wildcard(s) => PatV::Wildcard(s),
        Pattern::IdPattern(n, s) => PatV::IdPattern(n@, s),
        Pattern::BoolPattern(b, s) => PatV::BoolPattern(b, s),
        Pattern::StringPattern(t, s) => PatV::StringPattern(t@, s),
        Pattern::IntPattern(i, s) => PatV::IntPattern(i, s),
        Pattern::UnitPattern(s) => PatV::UnitPattern(s),
        Pattern::ClassPattern(n, ps, s) => PatV::ClassPattern(n@, pats_view(ps, 0), s),
    }
}

impl<N: View> View for Pattern<N> {
    type V = PatV<N::V>;

    open spec fn view(&self) -> PatV<N::V> {
        pat_view(*self)
    }
}

/// The model of an expression.
pub enum ExprV<NV, TV> {
    Variable(NV, Span),
    IntLiteral(i32, Span),
    BoolLiteral(bool, Span),
    StringLiteral(Seq<char>, Span),
    UnitLiteral(Span),
    Plus(Box<ExprV<NV, TV>>, Box<ExprV<NV, TV>>),
    Minus(Box<ExprV<NV, TV>>, Box<ExprV<NV, TV>>),
    Times(Box<ExprV<NV, TV>>, Box<ExprV<NV, TV>>),
    Div(Box<ExprV<NV, TV>>, Box<ExprV<NV, TV>>),
    Mod(Box<ExprV<NV, TV>>, Box<ExprV<NV, TV>>),
    LessThan(Box<ExprV<NV, TV>>, Box<ExprV<NV, TV>>),
    LessEquals(Box<ExprV<NV, TV>>, Box<ExprV<NV, TV>>),
    And(Box<ExprV<NV, TV>>, Box<ExprV<NV, TV>>),
    Or(Box<ExprV<NV, TV>>, Box<ExprV<NV, TV>>),
    Equals(Box<ExprV<NV, TV>>, Box<ExprV<NV, TV>>),
    Concat(Box<ExprV<NV, TV>>, Box<ExprV<NV, TV>>),
    Not(Box<ExprV<NV, TV>>, Span),
    Neg(Box<ExprV<NV, TV>>, Span),
    Call(NV, Seq<ExprV<NV, TV>>, Span),
    Sequence(Box<ExprV<NV, TV>>, Box<ExprV<NV, TV>>),
    Let(NV, TV, Box<ExprV<NV, TV>>, Box<ExprV<NV, TV>>, Span),
    Ite(Box<ExprV<NV, TV>>, Box<ExprV<NV, TV>>, Box<ExprV<NV, TV>>, Span),
    Match(Box<ExprV<NV, TV>>, Seq<(PatV<NV>, ExprV<NV, TV>)>, Span),
    Error(Box<ExprV<NV, TV>>, Span),
}

/// The models of `es[i..]`.
pub open spec fn exprs_view<N: View, T: View>(es: VecDeque<Expr<N, T>>, i: int) -> Seq<ExprV<N::V, T::V>>
    decreases es, es@.len() - i,
{
    if 0 <= i < es@.len() {
        seq![expr_view(es@[i])] + exprs_view(es, i + 1)
    } else {
        Seq::empty()
    }
}

/// The models of the cases `cs[i..]`.
pub open spec fn cases_view<N: View, T: View>(cs: VecDeque<(Pattern<N>, Expr<N, T>)>, i: int) -> Seq<(PatV<N::V>, ExprV<N::V, T::V>)>
    decreases cs, cs@.len() - i,
{
    if 0 <= i < cs@.len() {
        seq![(pat_view(cs@[i].0), expr_view(cs@[i].1))] + cases_view(cs, i + 1)
    } else {
        Seq::empty()
    }
}

pub open spec fn expr_view<N: View, T: View>(e: Expr<N, T>) -> ExprV<N::V, T::V>
    decreases e, 0nat,
{
    match e {
        Expr::Variable(n, s) => ExprV::Variable(n@, s),
        Expr::IntLiteral(i, s) => ExprV::IntLiteral(i, s),
        Expr::BoolLiteral(b, s) => ExprV::BoolLiteral(b, s),
        Expr::StringLiteral(t, s) => ExprV::StringLiteral(t@, s),
        Expr::UnitLiteral(s) => ExprV::UnitLiteral(s),
        Expr::Plus(l, r) => ExprV::Plus(Box::new(expr_view(*l)), Box::new(expr_view(*r))),
        Expr::Minus(l, r) => ExprV::Minus(Box::new(expr_view(*l)), Box::new(expr_view(*r))),
        Expr::Times(l, r) => ExprV::Times(Box::new(expr_view(*l)), Box::new(expr_view(*r))),
        Expr::Div(l, r) => ExprV::Div(Box::new(expr_view(*l)), Box::new(expr_view(*r))),
        Expr::Mod(l, r) => ExprV::Mod(Box::new(expr_view(*l)), Box::new(expr_view(*r))),
        Expr::LessThan(l, r) => ExprV::LessThan(Box::new(expr_view(*l)), Box::new(expr_view(*r))),
        Expr::LessEquals(l, r) => ExprV::LessEquals(Box::new(expr_view(*l)), Box::new(expr_view(*r))),
        Expr::And(l, r) => ExprV::And(Box::new(expr_view(*l)), Box::new(expr_view(*r))),
        Expr::Or(l, r) => ExprV::Or(Box::new(expr_view(*l)), Box::new(expr_view(*r))),
        Expr::Equals(l, r) => ExprV::Equals(Box::new(expr_view(*l)), Box::new(expr_view(*r))),
        Expr::Concat(l, r) => ExprV::Concat(Box::new(expr_view(*l)), Box::new(expr_view(*r))),
        Expr::Not(a, s) => ExprV::Not(Box::new(expr_view(*a)), s),
        Expr::Neg(a, s) => ExprV::Neg(Box::new(expr_view(*a)), s),
        Expr::Call(n, args, s) => ExprV::Call(n@, exprs_view(args, 0), s),
        Expr::Sequence(l, r) => ExprV::Sequence(Box::new(expr_view(*l)), Box::new(expr_view(*r))),
        Expr::Let(n, t, v, b, s) => ExprV::Let(n@, t@, Box::new(expr_view(*v)), Box::new(expr_view(*b)), s),
        Expr::Ite(c, a, b, s) => ExprV::Ite(Box::new(expr_view(*c)), Box::new(expr_view(*a)), Box::new(expr_view(*b)), s),
        Expr::Match(sc, cs, s) => ExprV::Match(Box::new(expr_view(*sc)), cases_view(cs, 0), s),
        Expr::Error(a, s) => ExprV::Error(Box::new(expr_view(*a)), s),
    }
}

/// `exprs_view` has one model per expression, in order.
pub proof fn lemma_exprs_view<N: View, T: View>(es: VecDeque<Expr<N, T>>, i: int)
    requires
        0 <= i <= es@.len(),
    ensures
        exprs_view(es, i).len() == es@.len() - i,
        forall|j: int| 0 <= j < es@.len() - i ==> #[trigger] exprs_view(es, i)[j] == expr_view(es@[i + j]),
    decreases es@.len() - i,
{
    if i < es@.len() {
        lemma_exprs_view(es, i + 1);
        assert forall|j: int| 0 <= j < es@.len() - i implies #[trigger] exprs_view(es, i)[j] == expr_view(es@[i + j]) by {
            if j > 0 {
                assert(exprs_view(es, i)[j] == exprs_view(es, i + 1)[j - 1]);
            }
        }
    }
}

/// `pats_view` has one model per pattern, in order.
pub proof fn lemma_pats_view<N: View>(ps: VecDeque<Pattern<N>>, i: int)
    requires
        0 <= i <= ps@.len(),
    ensures
        pats_view(ps, i).len() == ps@.len() - i,
        forall|j: int| 0 <= j < ps@.len() - i ==> #[trigger] pats_view(ps, i)[j] == pat_view(ps@[i + j]),
    decreases ps@.len() - i,
{
    if i < ps@.len() {
        lemma_pats_view(ps, i + 1);
        assert forall|j: int| 0 <= j < ps@.len() - i implies #[trigger] pats_view(ps, i)[j] == pat_view(ps@[i + j]) by {
            if j > 0 {
                assert(pats_view(ps, i)[j] == pats_view(ps, i + 1)[j - 1]);
            }
        }
    }
}

/// `cases_view` has one model per case, in order.
pub proof fn lemma_cases_view<N: View, T: View>(cs: VecDeque<(Pattern<N>, Expr<N, T>)>, i: int)
    requires
        0 <= i <= cs@.len(),
    ensures
        cases_view(cs, i).len() == cs@.len() - i,
        forall|j: int| 0 <= j < cs@.len() - i ==> #[trigger] cases_view(cs, i)[j] == (pat_view(cs@[i + j].0), expr_view(cs@[i + j].1)),
    decreases cs@.len() - i,
{
    if i < cs@.len() {
        lemma_cases_view(cs, i + 1);
        assert forall|j: int| 0 <= j < cs@.len() - i implies #[trigger] cases_view(cs, i)[j] == (pat_view(cs@[i + j].0), expr_view(cs@[i + j].1)) by {
            if j > 0 {
                assert(cases_view(cs, i)[j] == cases_view(cs, i + 1)[j - 1]);
            }
        }
    }
}

impl<N: View, T: View> View for Expr<N, T> {
    type V = ExprV<N::V, T::V>;

    open spec fn view(&self) -> ExprV<N::V, T::V> {
        expr_view(*self)
    }
}


/// The models of argument lists as written.
pub open spec fn nom_args_view(args: Seq<(String, NominalType)>) -> Seq<(Seq<char>, NTypeV)> {
    args.map_values(|a: (String, NominalType)| (a.0@, a.1@))
}

/// The model of an `abstract class` definition.
pub struct AbstDefV {
    pub name: Seq<char>,
    pub type_vars: Seq<Seq<char>>,
    pub range: Span,
}

/// The model of a `case class` definition.
pub struct ClassDefV {
    pub name: Seq<char>,
    pub args: Seq<(Seq<char>, NTypeV)>,
    pub parent: Seq<char>,
    pub range: Span,
}

/// The model of a function definition.
pub struct FunDefV {
    pub name: Seq<char>,
    pub type_vars: Seq<Seq<char>>,
    pub args: Seq<(Seq<char>, NTypeV)>,
    pub rt: NTypeV,
    pub body: ExprV<NameV, NTypeV>,
    pub range: Span,
}

impl View for NominalAbstDef {
    type V = AbstDefV;

    open spec fn view(&self) -> AbstDefV {
        AbstDefV { name: self.name@, type_vars: self.type_vars@.map_values(|s: String| s@), range: self.range }
    }
}

impl View for NominalClassDef {
    type V = ClassDefV;

    open spec fn view(&self) -> ClassDefV {
        ClassDefV { name: self.name@, args: nom_args_view(self.args@), parent: self.parent@, range: self.range }
    }
}

impl View for NominalFunDef {
    type V = FunDefV;

    open spec fn view(&self) -> FunDefV {
        FunDefV {
            name: self.name@,
            type_vars: self.type_vars@.map_values(|s: String| s@),
            args: nom_args_view(self.args@),
            rt: self.rt@,
            body: self.body@,
            range: self.range,
        }
    }
}

/// The model of a module.
pub struct ModuleV {
    pub name: Seq<char>,
    pub id: MID,
    pub range: Span,
    pub abstract_defs: Seq<AbstDefV>,
    pub class_defs: Seq<ClassDefV>,
    pub fun_defs: Seq<FunDefV>,
    pub expr: Option<ExprV<NameV, NTypeV>>,
}

impl View for NominalModule {
    type V = ModuleV;

    open spec fn view(&self) -> ModuleV {
        ModuleV {
            name: self.name@,
            id: self.id,
            range: self.range,
            abstract_defs: self.abstract_defs@.map_values(|d: NominalAbstDef| d@),
            class_defs: self.class_defs@.map_values(|d: NominalClassDef| d@),
            fun_defs: self.fun_defs@.map_values(|d: NominalFunDef| d@),
            expr: match self.expr {
                Some(e) => Some(e@),
                None => None,
            },
        }
    }
}

/// The model of a resolved `abstract class`.
pub struct AbstSV {
    pub name: SymbolV,
    pub type_vars: Seq<SymbolV>,
    pub range: Span,
}

/// The model of a resolved `case class`.
pub struct ClassSV {
    pub name: SymbolV,
    pub args: Seq<(SymbolV, TypeV)>,
    pub parent: SymbolV,
    pub range: Span,
}

/// The model of a resolved function definition.
pub struct FunSV {
    pub name: SymbolV,
    pub type_vars: Seq<SymbolV>,
    pub args: Seq<(SymbolV, TypeV)>,
    pub rt: TypeV,
    pub body: ExprV<SymbolV, TypeV>,
    pub range: Span,
}

/// The models of a list of symbols.
pub open spec fn symbols_view(s: Seq<Symbol>) -> Seq<SymbolV> {
    s.map_values(|x: Symbol| x@)
}

/// The models of a resolved argument list.
pub open spec fn sym_args_view(s: Seq<(Symbol, SymbolicType)>) -> Seq<(SymbolV, TypeV)> {
    s.map_values(|a: (Symbol, SymbolicType)| (a.0@, a.1@))
}

impl View for SymbolicAbstDef {
    type V = AbstSV;

    open spec fn view(&self) -> AbstSV {
        AbstSV { name: self.name@, type_vars: symbols_view(self.type_vars@), range: self.range }
    }
}

impl View for SymbolicClassDef {
    type V = ClassSV;

    open spec fn view(&self) -> ClassSV {
        ClassSV { name: self.name@, args: sym_args_view(self.args@), parent: self.parent@, range: self.range }
    }
}

impl View for SymbolicFunDef {
    type V = FunSV;

    open spec fn view(&self) -> FunSV {
        FunSV {
            name: self.name@,
            type_vars: symbols_view(self.type_vars@),
            args: sym_args_view(self.args@),
            rt: self.rt@,
            body: self.body@,
            range: self.range,
        }
    }
}

/// The model of a definition table.
pub struct TableSV {
    pub type_defs: Map<SID, AbstSV>,
    pub class_defs: Map<SID, ClassSV>,
    pub fun_defs: Map<SID, FunSV>,
}

impl View for DefinitionTable {
    type V = TableSV;

    open spec fn view(&self) -> TableSV {
        TableSV {
            type_defs: self.type_defs@.map_values(|d: SymbolicAbstDef| d@),
            class_defs: self.class_defs@.map_values(|d: SymbolicClassDef| d@),
            fun_defs: self.fun_defs@.map_values(|d: SymbolicFunDef| d@),
        }
    }
}

/// The model of a resolved program.
pub struct ProgramV {
    pub table: TableSV,
    pub exprs: Seq<ExprV<SymbolV, TypeV>>,
}

impl View for SymbolicProgram {
    type V = ProgramV;

    open spec fn view(&self) -> ProgramV {
        ProgramV { table: self.table@, exprs: exprs_view(self.exprs, 0) }
    }
}

} // verus!
