//! The tree-walking interpreter, specified by a big-step evaluation function (`eval`).
//!
//! Evaluation is bounded by a depth budget (`fuel`): every nested evaluation uses one unit,
//! and the public entry points start with `u64::MAX` units.
pub mod value;
pub mod builtin;
pub mod environ;

use std::collections::VecDeque;
use vstd::prelude::*;
use crate::ast::{DefinitionTable, Expr, Pattern, SID, Symbol, SymbolicProgram, SymbolicType, range, spec_range};
use crate::ast::environ::{Environment, insert_all, scopes_lookup};
use crate::diagnostics::{Report, ReportV, Span, Stage, join, spec_join};
use crate::interpreter::builtin::{Builtin, Console, ConsoleV, print_int, print_string, read_int, read_string, spec_builtin};
use crate::interpreter::value::{Value, ValueV, copy_value, value_eq, lemma_args_view_boxed, boxed_views, show_value};
use crate::ast::show::expr_text;
use crate::text::{cat, cat3};

verus! {

broadcast use {
    vstd::std_specs::vecdeque::group_vec_dequeue_axioms,
    vstd::std_specs::vec::group_vec_axioms,
    vstd::std_specs::hash::group_hash_axioms,
};

/// A resolved expression.
pub type SExpr = Expr<Symbol, SymbolicType>;

// ---------------------------------------------------------------------------------------------
// The model of the interpreter's state
// ---------------------------------------------------------------------------------------------

/// The model of an environment of values.
pub open spec fn env_view(scopes: Seq<Map<SID, Value>>) -> Seq<Map<SID, ValueV>> {
    scopes.map_values(|m: Map<SID, Value>| m.map_values(|v: Value| v@))
}

/// The state threaded through evaluation: the environment and the console.
pub struct St {
    pub env: Seq<Map<SID, ValueV>>,
    pub io: ConsoleV,
}

pub open spec fn env_define_many(env: Seq<Map<SID, ValueV>>, pairs: Seq<(SID, ValueV)>) -> Seq<Map<SID, ValueV>> {
    if env.len() == 0 { env } else { env.update(env.len() - 1, insert_all(env.last(), pairs)) }
}

pub open spec fn env_push(env: Seq<Map<SID, ValueV>>) -> Seq<Map<SID, ValueV>> {
    env.push(Map::empty())
}

pub open spec fn env_pop(env: Seq<Map<SID, ValueV>>) -> Seq<Map<SID, ValueV>> {
    if env.len() > 1 { env.drop_last() } else { env }
}

/// Enters a new scope holding `pairs`.
pub open spec fn enter(st: St, pairs: Seq<(SID, ValueV)>) -> St {
    St { env: env_define_many(env_push(st.env), pairs), ..st }
}

/// Leaves the innermost scope.
pub open spec fn leave(st: St) -> St {
    St { env: env_pop(st.env), ..st }
}

// ---------------------------------------------------------------------------------------------
// Big-step semantics
// ---------------------------------------------------------------------------------------------

/// A report of the interpreting stage.
pub open spec fn ierr(range: Span, msg: Seq<char>) -> ReportV {
    ReportV { stage: Stage::Interpreting, range, msg }
}

/// Integer operators.
#[derive(Clone, Copy, PartialEq, Eq, Structural)]
pub enum ArithOp {
    Add,
    Sub,
    Mul,
    Div,
    Rem,
}

/// Division rounding towards zero, as on machine integers.
pub open spec fn tdiv(a: int, b: int) -> int {
    if a >= 0 && b > 0 {
        a / b
    } else if a >= 0 && b < 0 {
        -(a / -b)
    } else if a < 0 && b > 0 {
        -((-a) / b)
    } else {
        (-a) / (-b)
    }
}

/// The remainder of `tdiv`, which has the sign of the dividend.
pub open spec fn trem(a: int, b: int) -> int {
    a - b * tdiv(a, b)
}

/// The result of an integer operator: both operands must be integers, the divisor must not be
/// zero and the exact result must fit in an `i32`; otherwise the whole expression is in error.
pub open spec fn arith(op: ArithOp, a: ValueV, b: ValueV, whole: Span) -> Result<ValueV, ReportV> {
    match (a, b) {
        (ValueV::Int(x), ValueV::Int(y)) => {
            let (x, y) = (x as int, y as int);
            if (op == ArithOp::Div || op == ArithOp::Rem) && y == 0 {
                Err(ierr(whole, "Division by zero."@))
            } else {
                let r = match op {
                    ArithOp::Add => x + y,
                    ArithOp::Sub => x - y,
                    ArithOp::Mul => x * y,
                    ArithOp::Div => tdiv(x, y),
                    ArithOp::Rem => trem(x, y),
                };
                if i32::MIN <= r <= i32::MAX && !(op == ArithOp::Rem && x == i32::MIN && y == -1) {
                    Ok(ValueV::Int(r as i32))
                } else {
                    Err(ierr(whole, "Integer overflow."@))
                }
            }
        },
        _ => Err(ierr(whole, "Unsupported operands of an integer operator."@)),
    }
}

/// The message for a value of the wrong kind.
pub open spec fn found(expected: Seq<char>, v: ValueV) -> Seq<char> {
    "Expected "@ + expected + ", found `"@ + show_value(v) + "`."@
}

/// `a < b` (or `a <= b` when `or_equal`) on integers; false on anything else.
pub open spec fn less(a: ValueV, b: ValueV, or_equal: bool) -> bool {
    match (a, b) {
        (ValueV::Int(x), ValueV::Int(y)) => if or_equal { x <= y } else { x < y },
        _ => false,
    }
}

/// The bindings made by matching `v` against `p`, if it matches.
pub open spec fn spec_match(v: ValueV, p: Pattern<Symbol>) -> Option<Seq<(SID, ValueV)>>
    decreases p, 0nat,
{
    match p {
        Pattern::Wildcard(_) => Some(Seq::empty()),
        Pattern::IdPattern(sym, _) => Some(seq![(sym.id, v)]),
        Pattern::BoolPattern(b2, _) => match v {
            ValueV::Bool(b) => if b == b2 { Some(Seq::empty()) } else { None },
            _ => None,
        },
        Pattern::IntPattern(i2, _) => match v {
            ValueV::Int(i) => if i == i2 { Some(Seq::empty()) } else { None },
            _ => None,
        },
        Pattern::StringPattern(s2, _) => match v {
            ValueV::Str(s) => if s == s2@ { Some(Seq::empty()) } else { None },
            _ => None,
        },
        Pattern::UnitPattern(_) => match v {
            ValueV::Unit => Some(Seq::empty()),
            _ => None,
        },
        Pattern::ClassPattern(sym, pats, _) => match v {
            ValueV::CaseClass(name, id, args) => if name == sym.name@ && id == sym.id {
                match_list(args, pats, 0)
            } else {
                None
            },
            _ => None,
        },
    }
}

/// Matches `args[i..]` against `pats[i..]` pairwise (up to the shorter of the two) and
/// concatenates the bindings, if every pair matches.
pub open spec fn match_list(args: Seq<ValueV>, pats: VecDeque<Pattern<Symbol>>, i: int) -> Option<Seq<(SID, ValueV)>>
    decreases pats, pats@.len() - i,
{
    if i < 0 || i >= args.len() || i >= pats@.len() {
        Some(Seq::empty())
    } else {
        match (spec_match(args[i], pats@[i]), match_list(args, pats, i + 1)) {
            (Some(b1), Some(b2)) => Some(b1 + b2),
            _ => None,
        }
    }
}

/// The arguments of a function definition paired with values (up to the shorter of the two).
pub open spec fn bind_args(params: Seq<(Symbol, SymbolicType)>, vals: Seq<ValueV>) -> Seq<(SID, ValueV)> {
    let n = if params.len() < vals.len() { params.len() } else { vals.len() };
    Seq::new(n, |i: int| (params[i].0.id, vals[i]))
}

/// The standard function that a call to `name` denotes, if any.
pub open spec fn builtin_of(name: Seq<char>) -> Option<Builtin> {
    if name == "Std.printInt"@ {
        Some(Builtin::PrintInt)
    } else if name == "Std.printString"@ {
        Some(Builtin::PrintString)
    } else if name == "Std.readString"@ {
        Some(Builtin::ReadString)
    } else if name == "Std.readInt"@ {
        Some(Builtin::ReadInt)
    } else {
        None
    }
}

/// Evaluates `e` with a depth budget of `fuel` in state `st`: the value, or the span of the
/// error, and the state after evaluation.
pub open spec fn eval(fuel: nat, e: SExpr, st: St, t: DefinitionTable) -> (Result<ValueV, ReportV>, St)
    decreases fuel, 0nat, 0nat,
{
    if fuel == 0 {
        (Err(ierr(spec_range(e), "Evaluation depth exhausted."@)), st)
    } else {
        let f = (fuel - 1) as nat;
        match e {
            Expr::BoolLiteral(b, _) => (Ok(ValueV::Bool(b)), st),
            Expr::IntLiteral(i, _) => (Ok(ValueV::Int(i)), st),
            Expr::StringLiteral(s, _) => (Ok(ValueV::Str(s@)), st),
            Expr::UnitLiteral(_) => (Ok(ValueV::Unit), st),
            Expr::Variable(n, s) => match scopes_lookup(st.env, n.id) {
                Some(v) => (Ok(v), st),
                None => (Err(ierr(s, "Variable `"@ + n.name@ + "` not found in scope."@)), st),
            },
            Expr::Plus(l, r) => eval_arith(f, ArithOp::Add, *l, *r, spec_range(e), st, t),
            Expr::Minus(l, r) => eval_arith(f, ArithOp::Sub, *l, *r, spec_range(e), st, t),
            Expr::Times(l, r) => eval_arith(f, ArithOp::Mul, *l, *r, spec_range(e), st, t),
            Expr::Div(l, r) => eval_arith(f, ArithOp::Div, *l, *r, spec_range(e), st, t),
            Expr::Mod(l, r) => eval_arith(f, ArithOp::Rem, *l, *r, spec_range(e), st, t),
            Expr::LessEquals(l, r) => eval_less(f, *l, *r, true, st, t),
            Expr::LessThan(l, r) => eval_less(f, *l, *r, false, st, t),
            Expr::Equals(l, r) => eval_equals(f, *l, *r, st, t),
            Expr::And(l, r) => eval_and(f, *l, *r, st, t),
            Expr::Or(l, r) => eval_or(f, *l, *r, st, t),
            Expr::Concat(l, r) => eval_concat(f, *l, *r, st, t),
            Expr::Not(a, _) => eval_not(f, *a, st, t),
            Expr::Neg(a, _) => eval_neg(f, *a, spec_range(e), st, t),
            Expr::Call(name, args, span) => eval_call(f, name, args, span, st, t),
            Expr::Sequence(a, b) => eval_sequence(f, *a, *b, st, t),
            Expr::Let(name, _, val, body, _) => eval_let(f, name.id, *val, *body, st, t),
            Expr::Ite(c, a, b, _) => eval_ite(f, *c, *a, *b, st, t),
            Expr::Match(scrut, cases, span) => eval_match(f, *scrut, cases, span, st, t),
            Expr::Error(msg, span) => eval_error(f, *msg, span, st, t),
        }
    }
}

/// Evaluates `l` then `r`.
pub open spec fn eval_pair(fuel: nat, l: SExpr, r: SExpr, st: St, t: DefinitionTable) -> (Result<(ValueV, ValueV), ReportV>, St)
    decreases fuel, 1nat, 0nat,
{
    let (a, st1) = eval(fuel, l, st, t);
    match a {
        Err(s) => (Err(s), st1),
        Ok(a) => {
            let (b, st2) = eval(fuel, r, st1, t);
            match b {
                Err(s) => (Err(s), st2),
                Ok(b) => (Ok((a, b)), st2),
            }
        },
    }
}

/// Evaluates `l` and `r` and applies the integer operator `op`.
pub open spec fn eval_arith(fuel: nat, op: ArithOp, l: SExpr, r: SExpr, whole: Span, st: St, t: DefinitionTable) -> (Result<ValueV, ReportV>, St)
    decreases fuel, 2nat, 0nat,
{
    let (p, st1) = eval_pair(fuel, l, r, st, t);
    match p {
        Ok((a, b)) => (arith(op, a, b, whole), st1),
        Err(s) => (Err(s), st1),
    }
}

/// Evaluates `l` and `r` and compares them.
pub open spec fn eval_less(fuel: nat, l: SExpr, r: SExpr, or_equal: bool, st: St, t: DefinitionTable) -> (Result<ValueV, ReportV>, St)
    decreases fuel, 2nat, 0nat,
{
    let (p, st1) = eval_pair(fuel, l, r, st, t);
    match p {
        Ok((a, b)) => (Ok(ValueV::Bool(less(a, b, or_equal))), st1),
        Err(s) => (Err(s), st1),
    }
}

/// Evaluates `l` and `r` and tests them for equality.
pub open spec fn eval_equals(fuel: nat, l: SExpr, r: SExpr, st: St, t: DefinitionTable) -> (Result<ValueV, ReportV>, St)
    decreases fuel, 2nat, 0nat,
{
    let (p, st1) = eval_pair(fuel, l, r, st, t);
    match p {
        Ok((a, b)) => (Ok(ValueV::Bool(a == b)), st1),
        Err(s) => (Err(s), st1),
    }
}

/// `l && r`: `r` is evaluated unless `l` is `false`.
pub open spec fn eval_and(fuel: nat, l: SExpr, r: SExpr, st: St, t: DefinitionTable) -> (Result<ValueV, ReportV>, St)
    decreases fuel, 2nat, 0nat,
{
    let (a, st1) = eval(fuel, l, st, t);
    match a {
        Err(s) => (Err(s), st1),
        Ok(ValueV::Bool(false)) => (Ok(ValueV::Bool(false)), st1),
        Ok(_) => eval(fuel, r, st1, t),
    }
}

/// `l || r`: `r` is evaluated unless `l` is `true`.
pub open spec fn eval_or(fuel: nat, l: SExpr, r: SExpr, st: St, t: DefinitionTable) -> (Result<ValueV, ReportV>, St)
    decreases fuel, 2nat, 0nat,
{
    let (a, st1) = eval(fuel, l, st, t);
    match a {
        Err(s) => (Err(s), st1),
        Ok(ValueV::Bool(true)) => (Ok(ValueV::Bool(true)), st1),
        Ok(_) => eval(fuel, r, st1, t),
    }
}

/// `l ++ r` on strings; a non-string operand is an error at the range of `l`.
pub open spec fn eval_concat(fuel: nat, l: SExpr, r: SExpr, st: St, t: DefinitionTable) -> (Result<ValueV, ReportV>, St)
    decreases fuel, 2nat, 0nat,
{
    let (a, st1) = eval(fuel, l, st, t);
    match a {
        Err(s) => (Err(s), st1),
        Ok(ValueV::Str(s1)) => {
            let (b, st2) = eval(fuel, r, st1, t);
            match b {
                Err(s) => (Err(s), st2),
                Ok(ValueV::Str(s2)) => (Ok(ValueV::Str(s1 + s2)), st2),
                Ok(v) => (Err(ierr(spec_range(l), found("a string"@, v))), st2),
            }
        },
        Ok(v) => (Err(ierr(spec_range(l), found("a string"@, v))), st1),
    }
}

/// `!a` on booleans.
pub open spec fn eval_not(fuel: nat, a: SExpr, st: St, t: DefinitionTable) -> (Result<ValueV, ReportV>, St)
    decreases fuel, 2nat, 0nat,
{
    let (v, st1) = eval(fuel, a, st, t);
    match v {
        Err(s) => (Err(s), st1),
        Ok(ValueV::Bool(b)) => (Ok(ValueV::Bool(!b)), st1),
        Ok(v) => (Err(ierr(spec_range(a), found("a boolean"@, v))), st1),
    }
}

/// `-a` on integers; negating the least `i32` is an error at the whole expression.
pub open spec fn eval_neg(fuel: nat, a: SExpr, whole: Span, st: St, t: DefinitionTable) -> (Result<ValueV, ReportV>, St)
    decreases fuel, 2nat, 0nat,
{
    let (v, st1) = eval(fuel, a, st, t);
    match v {
        Err(s) => (Err(s), st1),
        Ok(ValueV::Int(i)) => if i == i32::MIN {
            (Err(ierr(whole, "Integer overflow."@)), st1)
        } else {
            (Ok(ValueV::Int((-i) as i32)), st1)
        },
        Ok(v) => (Err(ierr(spec_range(a), found("an integer"@, v))), st1),
    }
}

/// A call: a standard function, a function (its body in a new scope binding its arguments),
/// or a constructor; the arguments are evaluated first, in order.
pub open spec fn eval_call(fuel: nat, name: Symbol, args: VecDeque<SExpr>, span: Span, st: St, t: DefinitionTable) -> (Result<ValueV, ReportV>, St)
    decreases fuel, 2nat, 0nat,
{
    let (vs, st1) = eval_args(fuel, args, 0, Seq::empty(), st, t);
    match builtin_of(name.name@) {
        Some(b) => match vs {
            Err(s) => (Err(s), st1),
            Ok(vals) => {
                let (r, io) = spec_builtin(b, vals, span, st1.io);
                (r, St { io, ..st1 })
            },
        },
        None => if t.fun_defs@.contains_key(name.id) {
            match vs {
                Err(s) => (Err(s), st1),
                Ok(vals) => {
                    let def = t.fun_defs@[name.id];
                    let (r, st2) = eval(fuel, def.body, enter(st1, bind_args(def.args@, vals)), t);
                    (r, leave(st2))
                },
            }
        } else if t.class_defs@.contains_key(name.id) {
            match vs {
                Err(s) => (Err(s), st1),
                Ok(vals) => {
                    let def = t.class_defs@[name.id];
                    (Ok(ValueV::CaseClass(def.name.name@, def.name.id, vals)), st1)
                },
            }
        } else {
            (Err(ierr(span, "Unresolved call."@)), st)
        },
    }
}

/// `a; b`.
pub open spec fn eval_sequence(fuel: nat, a: SExpr, b: SExpr, st: St, t: DefinitionTable) -> (Result<ValueV, ReportV>, St)
    decreases fuel, 2nat, 0nat,
{
    let (v, st1) = eval(fuel, a, st, t);
    match v {
        Err(s) => (Err(s), st1),
        Ok(_) => eval(fuel, b, st1, t),
    }
}

/// `val id = val; body`: `body` in a new scope binding `id`.
pub open spec fn eval_let(fuel: nat, id: SID, val: SExpr, body: SExpr, st: St, t: DefinitionTable) -> (Result<ValueV, ReportV>, St)
    decreases fuel, 2nat, 0nat,
{
    let (v, st1) = eval(fuel, val, st, t);
    match v {
        Err(s) => (Err(s), st1),
        Ok(v) => {
            let (r, st2) = eval(fuel, body, enter(st1, seq![(id, v)]), t);
            (r, leave(st2))
        },
    }
}

/// `if (c) then a else b`.
pub open spec fn eval_ite(fuel: nat, c: SExpr, a: SExpr, b: SExpr, st: St, t: DefinitionTable) -> (Result<ValueV, ReportV>, St)
    decreases fuel, 2nat, 0nat,
{
    let (v, st1) = eval(fuel, c, st, t);
    match v {
        Err(s) => (Err(s), st1),
        Ok(ValueV::Bool(true)) => eval(fuel, a, st1, t),
        Ok(ValueV::Bool(false)) => eval(fuel, b, st1, t),
        Ok(v) => (Err(ierr(spec_range(c), found("a boolean"@, v))), st1),
    }
}

/// `scrut match { cases }`: with no matching case, the error covers the whole match.
pub open spec fn eval_match(fuel: nat, scrut: SExpr, cases: VecDeque<(Pattern<Symbol>, SExpr)>, span: Span, st: St, t: DefinitionTable) -> (Result<ValueV, ReportV>, St)
    decreases fuel, 2nat, 0nat,
{
    let (v, st1) = eval(fuel, scrut, st, t);
    match v {
        Err(s) => (Err(s), st1),
        Ok(v) => eval_cases(fuel, v, cases, 0, spec_join(spec_range(scrut), span), st1, t),
    }
}

/// `error(msg)`: always an error, at the whole expression once `msg` is a string.
pub open spec fn eval_error(fuel: nat, msg: SExpr, span: Span, st: St, t: DefinitionTable) -> (Result<ValueV, ReportV>, St)
    decreases fuel, 2nat, 0nat,
{
    let (v, st1) = eval(fuel, msg, st, t);
    match v {
        Err(s) => (Err(s), st1),
        Ok(ValueV::Str(m)) => (Err(ierr(span, "Error: "@ + m)), st1),
        Ok(_) => (Err(ierr(spec_range(msg), "Expected a boolean, found `"@ + expr_text(msg, 0) + "`."@)), st1),
    }
}

/// Evaluates `args[i..]` in order after the values `acc` of `args[..i]`, stopping at the first error.
pub open spec fn eval_args(fuel: nat, args: VecDeque<SExpr>, i: int, acc: Seq<ValueV>, st: St, t: DefinitionTable) -> (Result<Seq<ValueV>, ReportV>, St)
    decreases fuel, 1nat, args@.len() - i,
{
    if i < 0 || i >= args@.len() {
        (Ok(acc), st)
    } else {
        let (v, st1) = eval(fuel, args@[i], st, t);
        match v {
            Err(s) => (Err(s), st1),
            Ok(v) => eval_args(fuel, args, i + 1, acc.push(v), st1, t),
        }
    }
}

/// Tries the cases `cases[i..]` in order on the value `v`; the first that matches is
/// evaluated in a new scope holding its bindings; if none matches, the error is at `err`.
pub open spec fn eval_cases(fuel: nat, v: ValueV, cases: VecDeque<(Pattern<Symbol>, SExpr)>, i: int, err: Span, st: St, t: DefinitionTable) -> (Result<ValueV, ReportV>, St)
    decreases fuel, 1nat, cases@.len() - i,
{
    if i < 0 || i >= cases@.len() {
        (Err(ierr(err, "Match error: no case pattern matches value `"@ + show_value(v) + "`."@)), st)
    } else {
        match spec_match(v, cases@[i].0) {
            Some(binds) => {
                let (r, st2) = eval(fuel, cases@[i].1, enter(st, binds), t);
                (r, leave(st2))
            },
            None => eval_cases(fuel, v, cases, i + 1, err, st, t),
        }
    }
}

// ---------------------------------------------------------------------------------------------
// The model of an environment of values follows the environment's operations
// ---------------------------------------------------------------------------------------------

/// The models of binding pairs.
pub open spec fn pairs_view(pairs: Seq<(SID, Value)>) -> Seq<(SID, ValueV)> {
    pairs.map_values(|p: (SID, Value)| (p.0, p.1@))
}

proof fn lemma_insert_all_view(m: Map<SID, Value>, pairs: Seq<(SID, Value)>)
    ensures
        insert_all(m, pairs).map_values(|v: Value| v@) == insert_all(
            m.map_values(|v: Value| v@),
            pairs_view(pairs),
        ),
    decreases pairs.len(),
{
    if pairs.len() > 0 {
        lemma_insert_all_view(m, pairs.drop_last());
        assert(pairs_view(pairs.drop_last()) =~= pairs_view(pairs).drop_last());
        assert(insert_all(m, pairs).map_values(|v: Value| v@) =~= insert_all(
            m.map_values(|v: Value| v@),
            pairs_view(pairs),
        ));
    }
}

proof fn lemma_view_define_many(e1: Seq<Map<SID, Value>>, e2: Seq<Map<SID, Value>>, pairs: Seq<(SID, Value)>)
    requires
        e1.len() == 0 ==> e2 == e1,
        e1.len() > 0 ==> e2 == e1.update(e1.len() - 1, insert_all(e1.last(), pairs)),
    ensures
        env_view(e2) == env_define_many(env_view(e1), pairs_view(pairs)),
{
    if e1.len() > 0 {
        lemma_insert_all_view(e1.last(), pairs);
        assert(env_view(e2) =~= env_define_many(env_view(e1), pairs_view(pairs)));
    }
}

proof fn lemma_view_push(e1: Seq<Map<SID, Value>>)
    ensures
        env_view(e1.push(Map::empty())) == env_push(env_view(e1)),
{
    assert(Map::<SID, Value>::empty().map_values(|v: Value| v@) =~= Map::<SID, ValueV>::empty());
    assert(env_view(e1.push(Map::empty())) =~= env_push(env_view(e1)));
}

proof fn lemma_view_pop(e1: Seq<Map<SID, Value>>)
    ensures
        e1.len() > 1 ==> env_view(e1.drop_last()) == env_pop(env_view(e1)),
        e1.len() <= 1 ==> env_view(e1) == env_pop(env_view(e1)),
{
    assert(e1.len() > 1 ==> env_view(e1.drop_last()) =~= env_pop(env_view(e1)));
}

proof fn lemma_view_lookup(e: Seq<Map<SID, Value>>, id: SID)
    ensures
        scopes_lookup(env_view(e), id) == match scopes_lookup(e, id) {
            Some(v) => Some(v@),
            None => None::<ValueV>,
        },
    decreases e.len(),
{
    if e.len() > 0 {
        assert(env_view(e.drop_last()) =~= env_view(e).drop_last());
        lemma_view_lookup(e.drop_last(), id);
    }
}


// ---------------------------------------------------------------------------------------------
// Execution
// ---------------------------------------------------------------------------------------------

/// The state model of an environment and a console.
pub open spec fn st_of(env: Environment<Value>, io: Console) -> St {
    St { env: env_view(env@), io: io@ }
}

/// The model of an evaluation result: the value, or the report.
pub open spec fn res_view(r: Result<Value, Report>) -> Result<ValueV, ReportV> {
    match r {
        Ok(v) => Ok(v@),
        Err(e) => Err(e@),
    }
}

/// The models of a vector of values.
pub open spec fn vals_view(vs: Seq<Value>) -> Seq<ValueV> {
    vs.map_values(|v: Value| v@)
}

fn report(range: Span, msg: String) -> (r: Report)
    ensures
        r@ == ierr(range, msg@),
{
    Report { stage: Stage::Interpreting, range, msg }
}

/// The message for a value of the wrong kind (see `found`).
fn found_msg(expected: &str, v: &Value) -> (s: String)
    ensures
        s@ == found(expected@, v@),
{
    let mut s = cat3("Expected ", expected, ", found `");
    s.append(v.show().as_str());
    s.append("`.");
    s
}

/// Applies an integer operator (see `arith`).
fn arith_exec(op: ArithOp, a: &Value, b: &Value, whole: Span) -> (r: Result<Value, Report>)
    ensures
        res_view(r) == arith(op, a@, b@, whole),
        r matches Err(e) ==> e.stage == Stage::Interpreting,
{
    match (a, b) {
        (Value::Int(x), Value::Int(y)) => {
            let x = *x as i64;
            let y = *y as i64;
            if (op == ArithOp::Div || op == ArithOp::Rem) && y == 0 {
                return Err(report(whole, "Division by zero.".to_owned()));
            }
            let r: i64 = match op {
                ArithOp::Add => x + y,
                ArithOp::Sub => x - y,
                ArithOp::Mul => {
                    proof {
                        assert(-4611686018427387904 <= x * y <= 4611686018427387904) by (nonlinear_arith)
                            requires -2147483648 <= x <= 2147483647, -2147483648 <= y <= 2147483647;
                    }
                    x * y
                },
                ArithOp::Div | ArithOp::Rem => {
                    let ua: i64 = if x < 0 { -x } else { x };
                    let ub: i64 = if y < 0 { -y } else { y };
                    let q: i64 = ua / ub;
                    let m: i64 = ua % ub;
                    proof {
                        assert(ua == q * ub + m) by (nonlinear_arith)
                            requires ua >= 0, ub > 0, q == ua / ub, m == ua % ub;
                        assert(0 <= q <= ua) by (nonlinear_arith)
                            requires ua >= 0, ub > 0, q == ua / ub;
                    }
                    if op == ArithOp::Div {
                        if (x < 0) != (y < 0) { -q } else { q }
                    } else {
                        proof {
                            let xi = x as int;
                            let yi = y as int;
                            let qi: int = if (x < 0) != (y < 0) { -(q as int) } else { q as int };
                            assert(tdiv(xi, yi) == qi);
                            assert(trem(xi, yi) == if x < 0 { -(m as int) } else { m as int }) by (nonlinear_arith)
                                requires ua == q * ub + m, ua == (if x < 0 { -xi } else { xi }),
                                    ub == (if y < 0 { -yi } else { yi }), yi != 0,
                                    tdiv(xi, yi) == qi, qi == (if (x < 0) != (y < 0) { -(q as int) } else { q as int }),
                                    trem(xi, yi) == xi - yi * tdiv(xi, yi);
                        }
                        if x < 0 { -m } else { m }
                    }
                },
            };
            if -2147483648 <= r && r <= 2147483647 && !(op == ArithOp::Rem && x == -2147483648 && y == -1) {
                Ok(Value::Int(r as i32))
            } else {
                Err(report(whole, "Integer overflow.".to_owned()))
            }
        },
        _ => Err(report(whole, "Unsupported operands of an integer operator.".to_owned())),
    }
}


/// Matches `scrutinee` against `pattern`: the bindings it makes, if it matches (see `spec_match`).
pub fn match_and_bind(scrutinee: &Value, pattern: &Pattern<Symbol>) -> (r: Option<Vec<(SID, Value)>>)
    ensures
        r is Some <==> spec_match(scrutinee@, *pattern) is Some,
        r matches Some(b) ==> pairs_view(b@) == spec_match(scrutinee@, *pattern).unwrap(),
    decreases pattern,
{
    match pattern {
        Pattern::Wildcard(_) => {
            let v: Vec<(SID, Value)> = Vec::new();
            assert(pairs_view(v@) =~= Seq::<(SID, ValueV)>::empty());
            Some(v)
        },
        Pattern::IdPattern(sym, _) => {
            let mut v: Vec<(SID, Value)> = Vec::new();
            v.push((sym.id, copy_value(scrutinee)));
            assert(pairs_view(v@) =~= seq![(sym.id, scrutinee@)]);
            Some(v)
        },
        _ => {
            let matched = match (scrutinee, pattern) {
                (Value::Bool(b), Pattern::BoolPattern(b2, _)) => *b == *b2,
                (Value::Int(i), Pattern::IntPattern(i2, _)) => *i == *i2,
                (Value::String(s), Pattern::StringPattern(s2, _)) => *s == *s2,
                (Value::Unit, Pattern::UnitPattern(_)) => true,
                _ => false,
            };
            if matched {
                let v: Vec<(SID, Value)> = Vec::new();
                assert(pairs_view(v@) =~= Seq::<(SID, ValueV)>::empty());
                return Some(v);
            }
            match (scrutinee, pattern) {
                (Value::CaseClassValue(n, args), Pattern::ClassPattern(id, pats, _)) => {
                    if !(n.id == id.id && n.name == id.name) {
                        return None;
                    }
                    let ghost av = scrutinee@->CaseClass_2;
                    proof {
                        crate::interpreter::value::lemma_args_view(*args, 0);
                    }
                    assert(spec_match(scrutinee@, *pattern) == match_list(av, *pats, 0));
                    let mut acc: Vec<(SID, Value)> = Vec::new();
                    let mut i: usize = 0;
                    while i < args.len() && i < pats.len()
                        invariant
                            av == crate::interpreter::value::args_view(*args, 0),
                            av.len() == args@.len(),
                            forall|j: int| 0 <= j < args@.len() ==> #[trigger] av[j] == crate::interpreter::value::value_view(*args@[j]),
                            i <= args@.len(),
                            (match_list(av, *pats, 0) is Some) == (match_list(av, *pats, i as int) is Some),
                            match_list(av, *pats, i as int) is Some ==> match_list(av, *pats, 0).unwrap()
                                == pairs_view(acc@) + match_list(av, *pats, i as int).unwrap(),
                            *pattern == Pattern::ClassPattern(*id, *pats, pattern->ClassPattern_2),
                            spec_match(scrutinee@, *pattern) == match_list(av, *pats, 0),
                        decreases args.len() - i,
                    {
                        proof {
                            assert(decreases_to!(*pattern => pattern->ClassPattern_1));
                            assert(decreases_to!(*pats => pats@[i as int]));
                        }
                        match match_and_bind(&args[i], &pats[i]) {
                            None => {
                                assert(match_list(av, *pats, i as int) is None);
                                return None;
                            },
                            Some(b) => {
                                let ghost old_acc = acc@;
                                let mut b = b;
                                acc.append(&mut b);
                                proof {
                                    assert(pairs_view(acc@) =~= pairs_view(old_acc) + spec_match(av[i as int], pats@[i as int]).unwrap());
                                    if match_list(av, *pats, i + 1) is Some {
                                        assert(match_list(av, *pats, 0).unwrap() =~= pairs_view(acc@) + match_list(av, *pats, i + 1).unwrap());
                                    }
                                }
                            },
                        }
                        i += 1;
                    }
                    assert(match_list(av, *pats, i as int) == Some(Seq::<(SID, ValueV)>::empty()));
                    assert(pairs_view(acc@) + Seq::<(SID, ValueV)>::empty() =~= pairs_view(acc@));
                    Some(acc)
                },
                _ => None,
            }
        },
    }
}


/// The model of the result of evaluating a pair of expressions.
pub open spec fn pair_view(r: Result<(Value, Value), Report>) -> Result<(ValueV, ValueV), ReportV> {
    match r {
        Ok((a, b)) => Ok((a@, b@)),
        Err(e) => Err(e@),
    }
}

/// The model of the result of evaluating a list of expressions.
pub open spec fn list_view(r: Result<Vec<Value>, Report>) -> Result<Seq<ValueV>, ReportV> {
    match r {
        Ok(vs) => Ok(vals_view(vs@)),
        Err(e) => Err(e@),
    }
}

fn eval_pair_exec(
    l: &SExpr,
    r: &SExpr,
    env: &mut Environment<Value>,
    t: &DefinitionTable,
    io: &mut Console,
    fuel: u64,
) -> (res: Result<(Value, Value), Report>)
    ensures
        (pair_view(res), st_of(*final(env), *final(io))) == eval_pair(fuel as nat, *l, *r, st_of(*old(env), *old(io)), *t),
        res matches Err(x) ==> x.stage == Stage::Interpreting,
    decreases fuel, 1nat,
{
    let a = match eval_expr(l, env, t, io, fuel) {
        Ok(x) => x,
        Err(x) => { return Err(x); },
    };
    let b = match eval_expr(r, env, t, io, fuel) {
        Ok(x) => x,
        Err(x) => { return Err(x); },
    };
    Ok((a, b))
}

fn eval_args_exec(
    args: &VecDeque<SExpr>,
    env: &mut Environment<Value>,
    t: &DefinitionTable,
    io: &mut Console,
    fuel: u64,
) -> (res: Result<Vec<Value>, Report>)
    ensures
        (list_view(res), st_of(*final(env), *final(io))) == eval_args(fuel as nat, *args, 0, Seq::empty(), st_of(*old(env), *old(io)), *t),
        res matches Err(x) ==> x.stage == Stage::Interpreting,
    decreases fuel, 1nat,
{
    let mut vals: Vec<Value> = Vec::new();
    let mut i: usize = 0;
    assert(vals_view(vals@) =~= Seq::<ValueV>::empty());
    while i < args.len()
        invariant
            i <= args@.len(),
            eval_args(fuel as nat, *args, 0, Seq::empty(), st_of(*old(env), *old(io)), *t)
                == eval_args(fuel as nat, *args, i as int, vals_view(vals@), st_of(*env, *io), *t),
        decreases args.len() - i,
    {
        let v = match eval_expr(&args[i], env, t, io, fuel) {
            Ok(x) => x,
            Err(x) => { return Err(x); },
        };
        let ghost before = vals@;
        vals.push(v);
        assert(vals_view(vals@) =~= vals_view(before).push(v@));
        i += 1;
    }
    Ok(vals)
}

fn eval_cases_exec(
    v: &Value,
    cases: &VecDeque<(Pattern<Symbol>, SExpr)>,
    err: Span,
    env: &mut Environment<Value>,
    t: &DefinitionTable,
    io: &mut Console,
    fuel: u64,
) -> (res: Result<Value, Report>)
    ensures
        (res_view(res), st_of(*final(env), *final(io))) == eval_cases(fuel as nat, v@, *cases, 0, err, st_of(*old(env), *old(io)), *t),
        res matches Err(x) ==> x.stage == Stage::Interpreting,
    decreases fuel, 1nat,
{
    let mut i: usize = 0;
    while i < cases.len()
        invariant
            i <= cases@.len(),
            *env == *old(env),
            *io == *old(io),
            eval_cases(fuel as nat, v@, *cases, 0, err, st_of(*old(env), *old(io)), *t)
                == eval_cases(fuel as nat, v@, *cases, i as int, err, st_of(*env, *io), *t),
        decreases cases.len() - i,
    {
        match match_and_bind(v, &cases[i].0) {
            Some(binds) => {
                let ghost e0 = env@;
                env.push_scope();
                proof { lemma_view_push(e0); }
                let ghost e1 = env@;
                let ghost bv = binds@;
                env.define_many(binds);
                proof { lemma_view_define_many(e1, env@, bv); }
                let ret = eval_expr(&cases[i].1, env, t, io, fuel);
                let ghost e2 = env@;
                env.pop_scope();
                proof { lemma_view_pop(e2); }
                return ret;
            },
            None => {},
        }
        i += 1;
    }
    Err(report(err, cat3("Match error: no case pattern matches value `", v.show().as_str(), "`.")))
}

/// Moves values into boxes.
fn box_all(vals: Vec<Value>) -> (r: Vec<Box<Value>>)
    ensures
        crate::interpreter::value::args_view(r, 0) == vals_view(vals@),
{
    let ghost all = vals@;
    let mut rest = vals;
    let mut out: Vec<Box<Value>> = Vec::new();
    let total = rest.len();
    while rest.len() > 0
        invariant
            out@.len() + rest@.len() == all.len(),
            all.len() == total,
            rest@ == all.skip(out@.len() as int),
            forall|j: int| 0 <= j < out@.len() ==> *#[trigger] out@[j] == all[j],
        decreases rest.len(),
    {
        let v = rest.remove(0);
        let ghost n = out@.len();
        out.push(Box::new(v));
        assert(rest@ =~= all.skip(out@.len() as int));
    }
    proof {
        lemma_args_view_boxed(out);
        assert(boxed_views(out@) =~= vals_view(all));
    }
    out
}

/// Pairs the argument symbols of a definition with values (up to the shorter of the two).
fn bind_exec(params: &VecDeque<(Symbol, SymbolicType)>, vals: Vec<Value>) -> (r: Vec<(SID, Value)>)
    ensures
        pairs_view(r@) == bind_args(params@, vals_view(vals@)),
{
    let ghost all = vals@;
    let mut rest = vals;
    let mut out: Vec<(SID, Value)> = Vec::new();
    let mut i: usize = 0;
    let total = rest.len();
    while i < params.len() && rest.len() > 0
        invariant
            i + rest@.len() == all.len(),
            all.len() == total,
            i <= params@.len(),
            rest@ == all.skip(i as int),
            out@.len() == i,
            forall|j: int| 0 <= j < i ==> #[trigger] out@[j] == (params@[j].0.id, all[j]),
        decreases rest.len(),
    {
        let v = rest.remove(0);
        out.push((params[i].0.id, v));
        i += 1;
        assert(rest@ =~= all.skip(i as int));
    }
    assert(pairs_view(out@) =~= bind_args(params@, vals_view(all)));
    out
}

fn arith_case(
    op: ArithOp,
    l: &SExpr,
    r: &SExpr,
    whole: Span,
    env: &mut Environment<Value>,
    t: &DefinitionTable,
    io: &mut Console,
    fuel: u64,
) -> (res: Result<Value, Report>)
    ensures
        (res_view(res), st_of(*final(env), *final(io))) == eval_arith(fuel as nat, op, *l, *r, whole, st_of(*old(env), *old(io)), *t),
        res matches Err(x) ==> x.stage == Stage::Interpreting,
    decreases fuel, 2nat,
{
    let (a, b) = match eval_pair_exec(l, r, env, t, io, fuel) {
        Ok(p) => p,
        Err(x) => { return Err(x); },
    };
    arith_exec(op, &a, &b, whole)
}

fn less_case(
    l: &SExpr,
    r: &SExpr,
    or_equal: bool,
    env: &mut Environment<Value>,
    t: &DefinitionTable,
    io: &mut Console,
    fuel: u64,
) -> (res: Result<Value, Report>)
    ensures
        (res_view(res), st_of(*final(env), *final(io))) == eval_less(fuel as nat, *l, *r, or_equal, st_of(*old(env), *old(io)), *t),
        res matches Err(x) ==> x.stage == Stage::Interpreting,
    decreases fuel, 2nat,
{
    let (a, b) = match eval_pair_exec(l, r, env, t, io, fuel) {
        Ok(p) => p,
        Err(x) => { return Err(x); },
    };
    match (a, b) {
        (Value::Int(x), Value::Int(y)) => Ok(Value::Bool(if or_equal { x <= y } else { x < y })),
        _ => Ok(Value::Bool(false)),
    }
}

fn equals_case(
    l: &SExpr,
    r: &SExpr,
    env: &mut Environment<Value>,
    t: &DefinitionTable,
    io: &mut Console,
    fuel: u64,
) -> (res: Result<Value, Report>)
    ensures
        (res_view(res), st_of(*final(env), *final(io))) == eval_equals(fuel as nat, *l, *r, st_of(*old(env), *old(io)), *t),
        res matches Err(x) ==> x.stage == Stage::Interpreting,
    decreases fuel, 2nat,
{
    let (a, b) = match eval_pair_exec(l, r, env, t, io, fuel) {
        Ok(p) => p,
        Err(x) => { return Err(x); },
    };
    Ok(Value::Bool(value_eq(&a, &b)))
}

fn and_case(
    l: &SExpr,
    r: &SExpr,
    env: &mut Environment<Value>,
    t: &DefinitionTable,
    io: &mut Console,
    fuel: u64,
) -> (res: Result<Value, Report>)
    ensures
        (res_view(res), st_of(*final(env), *final(io))) == eval_and(fuel as nat, *l, *r, st_of(*old(env), *old(io)), *t),
        res matches Err(x) ==> x.stage == Stage::Interpreting,
    decreases fuel, 2nat,
{
    let a = match eval_expr(l, env, t, io, fuel) {
        Ok(x) => x,
        Err(x) => { return Err(x); },
    };
    match a {
        Value::Bool(false) => Ok(Value::Bool(false)),
        _ => eval_expr(r, env, t, io, fuel),
    }
}

fn or_case(
    l: &SExpr,
    r: &SExpr,
    env: &mut Environment<Value>,
    t: &DefinitionTable,
    io: &mut Console,
    fuel: u64,
) -> (res: Result<Value, Report>)
    ensures
        (res_view(res), st_of(*final(env), *final(io))) == eval_or(fuel as nat, *l, *r, st_of(*old(env), *old(io)), *t),
        res matches Err(x) ==> x.stage == Stage::Interpreting,
    decreases fuel, 2nat,
{
    let a = match eval_expr(l, env, t, io, fuel) {
        Ok(x) => x,
        Err(x) => { return Err(x); },
    };
    match a {
        Value::Bool(true) => Ok(Value::Bool(true)),
        _ => eval_expr(r, env, t, io, fuel),
    }
}

fn concat_case(
    l: &SExpr,
    r: &SExpr,
    env: &mut Environment<Value>,
    t: &DefinitionTable,
    io: &mut Console,
    fuel: u64,
) -> (res: Result<Value, Report>)
    ensures
        (res_view(res), st_of(*final(env), *final(io))) == eval_concat(fuel as nat, *l, *r, st_of(*old(env), *old(io)), *t),
        res matches Err(x) ==> x.stage == Stage::Interpreting,
    decreases fuel, 2nat,
{
    let a = match eval_expr(l, env, t, io, fuel) {
        Ok(x) => x,
        Err(x) => { return Err(x); },
    };
    let s1 = match a {
        Value::String(s1) => s1,
        other => {
            return Err(report(range(l), found_msg("a string", &other)));
        },
    };
    let b = match eval_expr(r, env, t, io, fuel) {
        Ok(x) => x,
        Err(x) => { return Err(x); },
    };
    let s2 = match b {
        Value::String(s2) => s2,
        other => {
            return Err(report(range(l), found_msg("a string", &other)));
        },
    };
    let mut s = s1;
    s.append(s2.as_str());
    Ok(Value::String(s))
}

fn not_case(
    a: &SExpr,
    env: &mut Environment<Value>,
    t: &DefinitionTable,
    io: &mut Console,
    fuel: u64,
) -> (res: Result<Value, Report>)
    ensures
        (res_view(res), st_of(*final(env), *final(io))) == eval_not(fuel as nat, *a, st_of(*old(env), *old(io)), *t),
        res matches Err(x) ==> x.stage == Stage::Interpreting,
    decreases fuel, 2nat,
{
    let v = match eval_expr(a, env, t, io, fuel) {
        Ok(x) => x,
        Err(x) => { return Err(x); },
    };
    match v {
        Value::Bool(b) => Ok(Value::Bool(!b)),
        other => Err(report(range(a), found_msg("a boolean", &other))),
    }
}

fn neg_case(
    a: &SExpr,
    whole: Span,
    env: &mut Environment<Value>,
    t: &DefinitionTable,
    io: &mut Console,
    fuel: u64,
) -> (res: Result<Value, Report>)
    ensures
        (res_view(res), st_of(*final(env), *final(io))) == eval_neg(fuel as nat, *a, whole, st_of(*old(env), *old(io)), *t),
        res matches Err(x) ==> x.stage == Stage::Interpreting,
    decreases fuel, 2nat,
{
    let v = match eval_expr(a, env, t, io, fuel) {
        Ok(x) => x,
        Err(x) => { return Err(x); },
    };
    match v {
        Value::Int(i) => if i == i32::MIN {
            Err(report(whole, "Integer overflow.".to_owned()))
        } else {
            Ok(Value::Int(-i))
        },
        other => Err(report(range(a), found_msg("an integer", &other))),
    }
}

fn sequence_case(
    a: &SExpr,
    b: &SExpr,
    env: &mut Environment<Value>,
    t: &DefinitionTable,
    io: &mut Console,
    fuel: u64,
) -> (res: Result<Value, Report>)
    ensures
        (res_view(res), st_of(*final(env), *final(io))) == eval_sequence(fuel as nat, *a, *b, st_of(*old(env), *old(io)), *t),
        res matches Err(x) ==> x.stage == Stage::Interpreting,
    decreases fuel, 2nat,
{
    let _v = match eval_expr(a, env, t, io, fuel) {
        Ok(x) => x,
        Err(x) => { return Err(x); },
    };
    eval_expr(b, env, t, io, fuel)
}

fn let_case(
    id: SID,
    val: &SExpr,
    body: &SExpr,
    env: &mut Environment<Value>,
    t: &DefinitionTable,
    io: &mut Console,
    fuel: u64,
) -> (res: Result<Value, Report>)
    ensures
        (res_view(res), st_of(*final(env), *final(io))) == eval_let(fuel as nat, id, *val, *body, st_of(*old(env), *old(io)), *t),
        res matches Err(x) ==> x.stage == Stage::Interpreting,
    decreases fuel, 2nat,
{
    let v = match eval_expr(val, env, t, io, fuel) {
        Ok(x) => x,
        Err(x) => { return Err(x); },
    };
    let ghost vv = v@;
    let ghost e0 = env@;
    env.push_scope();
    proof { lemma_view_push(e0); }
    let ghost e1 = env@;
    let mut pairs: Vec<(SID, Value)> = Vec::new();
    pairs.push((id, v));
    let ghost pv = pairs@;
    assert(pairs_view(pv) =~= seq![(id, vv)]);
    env.define_many(pairs);
    proof { lemma_view_define_many(e1, env@, pv); }
    let res = eval_expr(body, env, t, io, fuel);
    let ghost e2 = env@;
    env.pop_scope();
    proof { lemma_view_pop(e2); }
    res
}

fn ite_case(
    c: &SExpr,
    a: &SExpr,
    b: &SExpr,
    env: &mut Environment<Value>,
    t: &DefinitionTable,
    io: &mut Console,
    fuel: u64,
) -> (res: Result<Value, Report>)
    ensures
        (res_view(res), st_of(*final(env), *final(io))) == eval_ite(fuel as nat, *c, *a, *b, st_of(*old(env), *old(io)), *t),
        res matches Err(x) ==> x.stage == Stage::Interpreting,
    decreases fuel, 2nat,
{
    let v = match eval_expr(c, env, t, io, fuel) {
        Ok(x) => x,
        Err(x) => { return Err(x); },
    };
    match v {
        Value::Bool(true) => eval_expr(a, env, t, io, fuel),
        Value::Bool(false) => eval_expr(b, env, t, io, fuel),
        other => Err(report(range(c), found_msg("a boolean", &other))),
    }
}

fn match_case(
    scrut: &SExpr,
    cases: &VecDeque<(Pattern<Symbol>, SExpr)>,
    span: Span,
    env: &mut Environment<Value>,
    t: &DefinitionTable,
    io: &mut Console,
    fuel: u64,
) -> (res: Result<Value, Report>)
    ensures
        (res_view(res), st_of(*final(env), *final(io))) == eval_match(fuel as nat, *scrut, *cases, span, st_of(*old(env), *old(io)), *t),
        res matches Err(x) ==> x.stage == Stage::Interpreting,
    decreases fuel, 2nat,
{
    let v = match eval_expr(scrut, env, t, io, fuel) {
        Ok(x) => x,
        Err(x) => { return Err(x); },
    };
    eval_cases_exec(&v, cases, join(range(scrut), span), env, t, io, fuel)
}

fn error_case(
    msg: &SExpr,
    span: Span,
    env: &mut Environment<Value>,
    t: &DefinitionTable,
    io: &mut Console,
    fuel: u64,
) -> (res: Result<Value, Report>)
    ensures
        (res_view(res), st_of(*final(env), *final(io))) == eval_error(fuel as nat, *msg, span, st_of(*old(env), *old(io)), *t),
        res matches Err(x) ==> x.stage == Stage::Interpreting,
    decreases fuel, 2nat,
{
    let v = match eval_expr(msg, env, t, io, fuel) {
        Ok(x) => x,
        Err(x) => { return Err(x); },
    };
    match v {
        Value::String(s) => Err(report(span, cat("Error: ", s.as_str()))),
        _ => Err(report(range(msg), cat3("Expected a boolean, found `", msg.show(0).as_str(), "`."))),
    }
}

fn call_case(
    name: &Symbol,
    args: &VecDeque<SExpr>,
    span: Span,
    env: &mut Environment<Value>,
    t: &DefinitionTable,
    io: &mut Console,
    fuel: u64,
) -> (res: Result<Value, Report>)
    ensures
        (res_view(res), st_of(*final(env), *final(io))) == eval_call(fuel as nat, *name, *args, span, st_of(*old(env), *old(io)), *t),
        res matches Err(x) ==> x.stage == Stage::Interpreting,
    decreases fuel, 2nat,
{
    proof {
        reveal_strlit("Std.printInt");
        reveal_strlit("Std.printString");
        reveal_strlit("Std.readString");
        reveal_strlit("Std.readInt");
    }
    let nm = name.name.as_str();
    let b = if crate::text::str_eq(nm, "Std.printInt") {
        Some(Builtin::PrintInt)
    } else if crate::text::str_eq(nm, "Std.printString") {
        Some(Builtin::PrintString)
    } else if crate::text::str_eq(nm, "Std.readString") {
        Some(Builtin::ReadString)
    } else if crate::text::str_eq(nm, "Std.readInt") {
        Some(Builtin::ReadInt)
    } else {
        None
    };
    assert(b == builtin_of(name.name@));
    match b {
        Some(b) => {
    let vals = match eval_args_exec(args, env, t, io, fuel) {
                Ok(x) => x,
                Err(x) => { return Err(x); },
            };
            return match b {
                Builtin::PrintInt => print_int(vals, span, io),
                Builtin::PrintString => print_string(vals, span, io),
                Builtin::ReadString => read_string(vals, span, io),
                Builtin::ReadInt => read_int(vals, span, io),
            };
        },
        None => {},
    }
    match t.fun_defs.get(&name.id) {
        Some(def) => {
    let vals = match eval_args_exec(args, env, t, io, fuel) {
                Ok(x) => x,
                Err(x) => { return Err(x); },
            };
            let pairs = bind_exec(&def.args, vals);
            let ghost e0 = env@;
            env.push_scope();
            proof { lemma_view_push(e0); }
            let ghost e1 = env@;
            let ghost pv = pairs@;
            env.define_many(pairs);
            proof { lemma_view_define_many(e1, env@, pv); }
            let ret = eval_expr(&def.body, env, t, io, fuel);
            let ghost e2 = env@;
            env.pop_scope();
            proof { lemma_view_pop(e2); }
            return ret;
        },
        None => {},
    }
    match t.class_defs.get(&name.id) {
        Some(def) => {
    let vals = match eval_args_exec(args, env, t, io, fuel) {
                Ok(x) => x,
                Err(x) => { return Err(x); },
            };
            let boxed = box_all(vals);
            Ok(Value::CaseClassValue(def.name.duplicate(), boxed))
        },
        None => Err(report(span, "Unresolved call.".to_owned())),
    }
}

/// Evaluates `e` with a depth budget of `fuel` (see `eval`).
fn eval_expr(
    e: &SExpr,
    env: &mut Environment<Value>,
    t: &DefinitionTable,
    io: &mut Console,
    fuel: u64,
) -> (res: Result<Value, Report>)
    ensures
        (res_view(res), st_of(*final(env), *final(io))) == eval(fuel as nat, *e, st_of(*old(env), *old(io)), *t),
        res matches Err(x) ==> x.stage == Stage::Interpreting,
    decreases fuel, 0nat,
{
    if fuel == 0 {
        return Err(report(range(e), "Evaluation depth exhausted.".to_owned()));
    }
    let f = fuel - 1;
    match e {
        Expr::BoolLiteral(b, _) => Ok(Value::Bool(*b)),
        Expr::IntLiteral(i, _) => Ok(Value::Int(*i)),
        Expr::StringLiteral(s, _) => Ok(Value::String(s.clone())),
        Expr::UnitLiteral(_) => Ok(Value::Unit),
        Expr::Variable(name, span) => {
            proof { lemma_view_lookup(env@, name.id); }
            match env.lookup(name.id) {
                Some(v) => Ok(v),
                None => Err(report(*span, cat3("Variable `", name.name.as_str(), "` not found in scope."))),
            }
        },
        Expr::Plus(l, r) => arith_case(ArithOp::Add, l, r, range(e), env, t, io, f),
        Expr::Minus(l, r) => arith_case(ArithOp::Sub, l, r, range(e), env, t, io, f),
        Expr::Times(l, r) => arith_case(ArithOp::Mul, l, r, range(e), env, t, io, f),
        Expr::Div(l, r) => arith_case(ArithOp::Div, l, r, range(e), env, t, io, f),
        Expr::Mod(l, r) => arith_case(ArithOp::Rem, l, r, range(e), env, t, io, f),
        Expr::LessEquals(l, r) => less_case(l, r, true, env, t, io, f),
        Expr::LessThan(l, r) => less_case(l, r, false, env, t, io, f),
        Expr::Equals(l, r) => equals_case(l, r, env, t, io, f),
        Expr::And(l, r) => and_case(l, r, env, t, io, f),
        Expr::Or(l, r) => or_case(l, r, env, t, io, f),
        Expr::Concat(l, r) => concat_case(l, r, env, t, io, f),
        Expr::Not(a, _) => not_case(a, env, t, io, f),
        Expr::Neg(a, _) => neg_case(a, range(e), env, t, io, f),
        Expr::Call(name, args, span) => call_case(name, args, *span, env, t, io, f),
        Expr::Sequence(a, b) => sequence_case(a, b, env, t, io, f),
        Expr::Let(name, _, val, body, _) => let_case(name.id, val, body, env, t, io, f),
        Expr::Ite(c, a, b, _) => ite_case(c, a, b, env, t, io, f),
        Expr::Match(scrut, cases, span) => match_case(scrut, cases, *span, env, t, io, f),
        Expr::Error(msg, span) => error_case(msg, *span, env, t, io, f),
    }
}


/// Evaluates `expr` in `env` (see `eval`, with a depth budget of `u64::MAX`).
pub fn interpret_expr(
    expr: &SExpr,
    env: &mut Environment<Value>,
    table: &DefinitionTable,
    io: &mut Console,
) -> (res: Result<Value, Report>)
    ensures
        (res_view(res), st_of(*final(env), *final(io))) == eval(u64::MAX as nat, *expr, st_of(*old(env), *old(io)), *table),
        res matches Err(x) ==> x.stage == Stage::Interpreting,
{
    eval_expr(expr, env, table, io, u64::MAX)
}

/// Evaluates `exprs[i..]` in order, each from the state the previous one left, until one
/// fails.
pub open spec fn run_exprs(exprs: Seq<SExpr>, i: int, st: St, t: DefinitionTable) -> (Result<(), ReportV>, St)
    decreases exprs.len() - i,
{
    if i < 0 || i >= exprs.len() {
        (Ok(()), st)
    } else {
        let (r, st1) = eval(u64::MAX as nat, exprs[i], st, t);
        match r {
            Err(s) => (Err(s), st1),
            Ok(_) => run_exprs(exprs, i + 1, st1, t),
        }
    }
}

/// Runs a program: evaluates its expressions in order, in an environment that starts without
/// any scope; the result is the first error, if any, and `io` holds what was read and printed.
pub fn interpret(program: &SymbolicProgram, io: &mut Console) -> (res: Result<(), Report>)
    ensures
        (match res {
            Ok(_) => Ok(()),
            Err(e) => Err(e@),
        }, final(io)@) == ({
            let (r, st) = run_exprs(program.exprs@, 0, St { env: Seq::empty(), io: old(io)@ }, program.table);
            (r, st.io)
        }),
        res matches Err(x) ==> x.stage == Stage::Interpreting,
{
    let mut env: Environment<Value> = Environment::new();
    assert(env_view(env@) =~= Seq::<Map<SID, ValueV>>::empty());
    let mut i: usize = 0;
    while i < program.exprs.len()
        invariant
            i <= program.exprs@.len(),
            run_exprs(program.exprs@, 0, St { env: Seq::empty(), io: old(io)@ }, program.table)
                == run_exprs(program.exprs@, i as int, st_of(env, *io), program.table),
        decreases program.exprs.len() - i,
    {
        match interpret_expr(&program.exprs[i], &mut env, &program.table, io) {
            Ok(_) => {},
            Err(x) => {
                return Err(x);
            },
        }
        i += 1;
    }
    Ok(())
}


// ---------------------------------------------------------------------------------------------
// The console only grows
// ---------------------------------------------------------------------------------------------

/// `b` continues `a`: the same input, read no less far, and what `a` had printed is still the
/// start of what `b` has printed.
pub open spec fn io_extends(a: ConsoleV, b: ConsoleV) -> bool {
    &&& b.input == a.input
    &&& a.next <= b.next
    &&& a.output.len() <= b.output.len()
    &&& b.output.subrange(0, a.output.len() as int) == a.output
}

proof fn lemma_io_extends_trans(a: ConsoleV, b: ConsoleV, c: ConsoleV)
    requires
        io_extends(a, b),
        io_extends(b, c),
    ensures
        io_extends(a, c),
{
    assert(c.output.subrange(0, a.output.len() as int) =~= c.output.subrange(0, b.output.len() as int).subrange(0, a.output.len() as int));
}

proof fn lemma_io_extends_refl(a: ConsoleV)
    ensures
        io_extends(a, a),
{
    assert(a.output.subrange(0, a.output.len() as int) =~= a.output);
}

proof fn lemma_builtin_io(b: Builtin, vals: Seq<ValueV>, span: Span, io: ConsoleV)
    ensures
        io_extends(io, spec_builtin(b, vals, span, io).1),
{
    lemma_io_extends_refl(io);
    let io2 = spec_builtin(b, vals, span, io).1;
    assert(io2.output.subrange(0, io.output.len() as int) =~= io.output);
}

proof fn lemma_pair_io(fuel: nat, l: SExpr, r: SExpr, st: St, t: DefinitionTable)
    ensures
        io_extends(st.io, eval_pair(fuel, l, r, st, t).1.io),
    decreases fuel, 1nat, 0nat,
{
    lemma_eval_io(fuel, l, st, t);
    let (a, st1) = eval(fuel, l, st, t);
    if a is Ok {
        lemma_eval_io(fuel, r, st1, t);
        lemma_io_extends_trans(st.io, st1.io, eval(fuel, r, st1, t).1.io);
    }
}

/// Evaluating `a` and then, where it succeeds, `b` from the state that `a` left.
proof fn lemma_two_io(fuel: nat, a: SExpr, b: SExpr, st: St, t: DefinitionTable)
    ensures
        io_extends(st.io, eval(fuel, a, st, t).1.io),
        io_extends(st.io, eval(fuel, b, eval(fuel, a, st, t).1, t).1.io),
    decreases fuel, 1nat, 0nat,
{
    lemma_eval_io(fuel, a, st, t);
    let st1 = eval(fuel, a, st, t).1;
    lemma_eval_io(fuel, b, st1, t);
    lemma_io_extends_trans(st.io, st1.io, eval(fuel, b, st1, t).1.io);
}

proof fn lemma_args_io(fuel: nat, args: VecDeque<SExpr>, i: int, acc: Seq<ValueV>, st: St, t: DefinitionTable)
    ensures
        io_extends(st.io, eval_args(fuel, args, i, acc, st, t).1.io),
    decreases fuel, 1nat, args@.len() - i,
{
    if i < 0 || i >= args@.len() {
        lemma_io_extends_refl(st.io);
    } else {
        lemma_eval_io(fuel, args@[i], st, t);
        let (v, st1) = eval(fuel, args@[i], st, t);
        if let Ok(v) = v {
            lemma_args_io(fuel, args, i + 1, acc.push(v), st1, t);
            lemma_io_extends_trans(st.io, st1.io, eval_args(fuel, args, i + 1, acc.push(v), st1, t).1.io);
        }
    }
}

proof fn lemma_cases_io(fuel: nat, v: ValueV, cases: VecDeque<(Pattern<Symbol>, SExpr)>, i: int, err: Span, st: St, t: DefinitionTable)
    ensures
        io_extends(st.io, eval_cases(fuel, v, cases, i, err, st, t).1.io),
    decreases fuel, 1nat, cases@.len() - i,
{
    if i < 0 || i >= cases@.len() {
        lemma_io_extends_refl(st.io);
    } else {
        match spec_match(v, cases@[i].0) {
            Some(binds) => {
                lemma_eval_io(fuel, cases@[i].1, enter(st, binds), t);
            },
            None => {
                lemma_cases_io(fuel, v, cases, i + 1, err, st, t);
            },
        }
    }
}

proof fn lemma_call_io(fuel: nat, name: Symbol, args: VecDeque<SExpr>, span: Span, st: St, t: DefinitionTable)
    ensures
        io_extends(st.io, eval_call(fuel, name, args, span, st, t).1.io),
    decreases fuel, 2nat, 0nat,
{
    lemma_args_io(fuel, args, 0, Seq::empty(), st, t);
    lemma_io_extends_refl(st.io);
    let (vs, st1) = eval_args(fuel, args, 0, Seq::empty(), st, t);
    if let Ok(vals) = vs {
        match builtin_of(name.name@) {
            Some(b) => {
                lemma_builtin_io(b, vals, span, st1.io);
                lemma_io_extends_trans(st.io, st1.io, spec_builtin(b, vals, span, st1.io).1);
            },
            None => if t.fun_defs@.contains_key(name.id) {
                let def = t.fun_defs@[name.id];
                let st2 = enter(st1, bind_args(def.args@, vals));
                lemma_eval_io(fuel, def.body, st2, t);
                lemma_io_extends_trans(st.io, st1.io, eval(fuel, def.body, st2, t).1.io);
            },
        }
    }
}

proof fn lemma_branch_io(fuel: nat, e: SExpr, st: St, t: DefinitionTable)
    requires
        fuel > 0,
    ensures
        io_extends(st.io, eval(fuel, e, st, t).1.io),
    decreases fuel, 0nat, 1nat,
{
    let f = (fuel - 1) as nat;
    match e {
        Expr::Plus(l, r) | Expr::Minus(l, r) | Expr::Times(l, r) | Expr::Div(l, r) | Expr::Mod(l, r)
        | Expr::LessEquals(l, r) | Expr::LessThan(l, r) | Expr::Equals(l, r) => {
            lemma_pair_io(f, *l, *r, st, t);
        },
        Expr::And(l, r) | Expr::Or(l, r) | Expr::Concat(l, r) | Expr::Sequence(l, r) => {
            lemma_two_io(f, *l, *r, st, t);
        },
        Expr::Not(a, _) | Expr::Neg(a, _) | Expr::Error(a, _) => {
            lemma_eval_io(f, *a, st, t);
        },
        Expr::Call(name, args, span) => {
            lemma_call_io(f, name, args, span, st, t);
        },
        Expr::Let(name, _, val, body, _) => {
            lemma_eval_io(f, *val, st, t);
            let (v, st1) = eval(f, *val, st, t);
            if let Ok(v) = v {
                let st2 = enter(st1, seq![(name.id, v)]);
                lemma_eval_io(f, *body, st2, t);
                lemma_io_extends_trans(st.io, st1.io, eval(f, *body, st2, t).1.io);
            }
        },
        Expr::Ite(c, a, b, _) => {
            lemma_two_io(f, *c, *a, st, t);
            lemma_two_io(f, *c, *b, st, t);
        },
        Expr::Match(scrut, cases, span) => {
            lemma_eval_io(f, *scrut, st, t);
            let (v, st1) = eval(f, *scrut, st, t);
            if let Ok(v) = v {
                let err = spec_join(spec_range(*scrut), span);
                lemma_cases_io(f, v, cases, 0, err, st1, t);
                lemma_io_extends_trans(st.io, st1.io, eval_cases(f, v, cases, 0, err, st1, t).1.io);
            }
        },
        _ => {
            lemma_io_extends_refl(st.io);
        },
    }
}

proof fn lemma_eval_io(fuel: nat, e: SExpr, st: St, t: DefinitionTable)
    ensures
        io_extends(st.io, eval(fuel, e, st, t).1.io),
    decreases fuel, 0nat, 2nat,
{
    if fuel == 0 {
        lemma_io_extends_refl(st.io);
    } else {
        lemma_branch_io(fuel, e, st, t);
    }
}

/// Evaluation only adds to the console: the input stays, reading never goes back, and what was
/// printed before stays printed, at the start of the output.
pub proof fn law_eval_keeps_console(fuel: nat, e: SExpr, st: St, t: DefinitionTable)
    ensures
        io_extends(st.io, eval(fuel, e, st, t).1.io),
{
    lemma_eval_io(fuel, e, st, t);
}

/// Running expressions one after the other only adds to the console.
pub proof fn law_run_keeps_console(exprs: Seq<SExpr>, i: int, st: St, t: DefinitionTable)
    ensures
        io_extends(st.io, run_exprs(exprs, i, st, t).1.io),
    decreases exprs.len() - i,
{
    if i < 0 || i >= exprs.len() {
        lemma_io_extends_refl(st.io);
    } else {
        lemma_eval_io(u64::MAX as nat, exprs[i], st, t);
        let (r, st1) = eval(u64::MAX as nat, exprs[i], st, t);
        if r is Ok {
            law_run_keeps_console(exprs, i + 1, st1, t);
            lemma_io_extends_trans(st.io, st1.io, run_exprs(exprs, i + 1, st1, t).1.io);
        }
    }
}


// ---------------------------------------------------------------------------------------------
// Evaluation leaves the scopes as it found them
// ---------------------------------------------------------------------------------------------

/// Entering a scope onto scopes that have one and leaving it gives back the scopes.
proof fn lemma_enter_leave(st: St, pairs: Seq<(SID, ValueV)>, st2: St)
    requires
        st.env.len() >= 1,
        st2.env == enter(st, pairs).env,
    ensures
        enter(st, pairs).env.len() >= 2,
        leave(st2).env == st.env,
{
    let e = env_push(st.env);
    assert(e.drop_last() =~= st.env);
    assert(env_define_many(e, pairs).drop_last() =~= st.env);
}

proof fn lemma_pair_env(fuel: nat, l: SExpr, r: SExpr, st: St, t: DefinitionTable)
    requires
        st.env.len() >= 1,
    ensures
        eval_pair(fuel, l, r, st, t).1.env == st.env,
    decreases fuel, 1nat, 0nat,
{
    lemma_eval_env(fuel, l, st, t);
    lemma_eval_env(fuel, r, eval(fuel, l, st, t).1, t);
}

/// Evaluating `a` and then, from the state that `a` left, `b`.
proof fn lemma_two_env(fuel: nat, a: SExpr, b: SExpr, st: St, t: DefinitionTable)
    requires
        st.env.len() >= 1,
    ensures
        eval(fuel, a, st, t).1.env == st.env,
        eval(fuel, b, eval(fuel, a, st, t).1, t).1.env == st.env,
    decreases fuel, 1nat, 0nat,
{
    lemma_eval_env(fuel, a, st, t);
    lemma_eval_env(fuel, b, eval(fuel, a, st, t).1, t);
}

proof fn lemma_args_env(fuel: nat, args: VecDeque<SExpr>, i: int, acc: Seq<ValueV>, st: St, t: DefinitionTable)
    requires
        st.env.len() >= 1,
    ensures
        eval_args(fuel, args, i, acc, st, t).1.env == st.env,
    decreases fuel, 1nat, args@.len() - i,
{
    if 0 <= i < args@.len() {
        lemma_eval_env(fuel, args@[i], st, t);
        let (v, st1) = eval(fuel, args@[i], st, t);
        if let Ok(v) = v {
            lemma_args_env(fuel, args, i + 1, acc.push(v), st1, t);
        }
    }
}

proof fn lemma_cases_env(fuel: nat, v: ValueV, cases: VecDeque<(Pattern<Symbol>, SExpr)>, i: int, err: Span, st: St, t: DefinitionTable)
    requires
        st.env.len() >= 1,
    ensures
        eval_cases(fuel, v, cases, i, err, st, t).1.env == st.env,
    decreases fuel, 1nat, cases@.len() - i,
{
    if 0 <= i < cases@.len() {
        match spec_match(v, cases@[i].0) {
            Some(binds) => {
                lemma_enter_leave(st, binds, enter(st, binds));
                lemma_eval_env(fuel, cases@[i].1, enter(st, binds), t);
                lemma_enter_leave(st, binds, eval(fuel, cases@[i].1, enter(st, binds), t).1);
            },
            None => {
                lemma_cases_env(fuel, v, cases, i + 1, err, st, t);
            },
        }
    }
}

proof fn lemma_call_env(fuel: nat, name: Symbol, args: VecDeque<SExpr>, span: Span, st: St, t: DefinitionTable)
    requires
        st.env.len() >= 1,
    ensures
        eval_call(fuel, name, args, span, st, t).1.env == st.env,
    decreases fuel, 2nat, 0nat,
{
    lemma_args_env(fuel, args, 0, Seq::empty(), st, t);
    let (vs, st1) = eval_args(fuel, args, 0, Seq::empty(), st, t);
    if let Ok(vals) = vs {
        if builtin_of(name.name@) is None && t.fun_defs@.contains_key(name.id) {
            let def = t.fun_defs@[name.id];
            let pairs = bind_args(def.args@, vals);
            lemma_enter_leave(st1, pairs, enter(st1, pairs));
            lemma_eval_env(fuel, def.body, enter(st1, pairs), t);
            lemma_enter_leave(st1, pairs, eval(fuel, def.body, enter(st1, pairs), t).1);
        }
    }
}

proof fn lemma_branch_env(fuel: nat, e: SExpr, st: St, t: DefinitionTable)
    requires
        fuel > 0,
        st.env.len() >= 1,
    ensures
        eval(fuel, e, st, t).1.env == st.env,
    decreases fuel, 0nat, 1nat,
{
    let f = (fuel - 1) as nat;
    match e {
        Expr::Plus(l, r) | Expr::Minus(l, r) | Expr::Times(l, r) | Expr::Div(l, r) | Expr::Mod(l, r)
        | Expr::LessEquals(l, r) | Expr::LessThan(l, r) | Expr::Equals(l, r) => {
            lemma_pair_env(f, *l, *r, st, t);
        },
        Expr::And(l, r) | Expr::Or(l, r) | Expr::Concat(l, r) | Expr::Sequence(l, r) => {
            lemma_two_env(f, *l, *r, st, t);
        },
        Expr::Not(a, _) | Expr::Neg(a, _) | Expr::Error(a, _) => {
            lemma_eval_env(f, *a, st, t);
        },
        Expr::Call(name, args, span) => {
            lemma_call_env(f, name, args, span, st, t);
        },
        Expr::Let(name, _, val, body, _) => {
            lemma_eval_env(f, *val, st, t);
            let (v, st1) = eval(f, *val, st, t);
            if let Ok(v) = v {
                let pairs = seq![(name.id, v)];
                lemma_enter_leave(st1, pairs, enter(st1, pairs));
                lemma_eval_env(f, *body, enter(st1, pairs), t);
                lemma_enter_leave(st1, pairs, eval(f, *body, enter(st1, pairs), t).1);
            }
        },
        Expr::Ite(c, a, b, _) => {
            lemma_two_env(f, *c, *a, st, t);
            lemma_two_env(f, *c, *b, st, t);
        },
        Expr::Match(scrut, cases, span) => {
            lemma_eval_env(f, *scrut, st, t);
            let (v, st1) = eval(f, *scrut, st, t);
            if let Ok(v) = v {
                lemma_cases_env(f, v, cases, 0, spec_join(spec_range(*scrut), span), st1, t);
            }
        },
        _ => {},
    }
}

proof fn lemma_eval_env(fuel: nat, e: SExpr, st: St, t: DefinitionTable)
    requires
        st.env.len() >= 1,
    ensures
        eval(fuel, e, st, t).1.env == st.env,
    decreases fuel, 0nat, 2nat,
{
    if fuel > 0 {
        lemma_branch_env(fuel, e, st, t);
    }
}

/// Evaluation in an environment with at least one scope leaves the scopes as it found them:
/// every scope entered for a `val`, a matching case or a call is left again, whether the
/// evaluation succeeds or fails.
pub proof fn law_eval_keeps_scopes(fuel: nat, e: SExpr, st: St, t: DefinitionTable)
    requires
        st.env.len() >= 1,
    ensures
        eval(fuel, e, st, t).1.env == st.env,
{
    lemma_eval_env(fuel, e, st, t);
}


// ---------------------------------------------------------------------------------------------
// What the operators compute
// ---------------------------------------------------------------------------------------------

/// The value of evaluating `e` for one step less than `fuel`, and the state after it.
pub open spec fn sub_eval(fuel: nat, e: SExpr, st: St, t: DefinitionTable) -> (Result<ValueV, ReportV>, St) {
    eval((fuel - 1) as nat, e, st, t)
}

/// On boolean operands, `l && r` is their conjunction, `l || r` their disjunction and `!a`
/// the negation (the right operand is evaluated after the left one, from the state it left).
pub proof fn law_eval_boolean_ops(fuel: nat, l: SExpr, r: SExpr, st: St, t: DefinitionTable, x: bool, y: bool, s: Span)
    requires
        fuel > 0,
        sub_eval(fuel, l, st, t).0 == Ok::<ValueV, ReportV>(ValueV::Bool(x)),
        sub_eval(fuel, r, sub_eval(fuel, l, st, t).1, t).0 == Ok::<ValueV, ReportV>(ValueV::Bool(y)),
    ensures
        eval(fuel, Expr::And(Box::new(l), Box::new(r)), st, t).0 == Ok::<ValueV, ReportV>(ValueV::Bool(x && y)),
        eval(fuel, Expr::Or(Box::new(l), Box::new(r)), st, t).0 == Ok::<ValueV, ReportV>(ValueV::Bool(x || y)),
        eval(fuel, Expr::Not(Box::new(l), s), st, t).0 == Ok::<ValueV, ReportV>(ValueV::Bool(!x)),
{
}

/// On integer operands, `+`, `-` and `*` give the sum, difference and product where it fits in
/// an `i32`; `/` and `%` give the quotient and remainder on a non-negative dividend and a
/// positive divisor, and fail on a zero divisor; `<`, `<=` compare; unary `-` negates.
pub proof fn law_eval_integer_ops(fuel: nat, l: SExpr, r: SExpr, st: St, t: DefinitionTable, x: i32, y: i32, s: Span)
    requires
        fuel > 0,
        sub_eval(fuel, l, st, t).0 == Ok::<ValueV, ReportV>(ValueV::Int(x)),
        sub_eval(fuel, r, sub_eval(fuel, l, st, t).1, t).0 == Ok::<ValueV, ReportV>(ValueV::Int(y)),
    ensures
        i32::MIN <= x + y <= i32::MAX ==> eval(fuel, Expr::Plus(Box::new(l), Box::new(r)), st, t).0
            == Ok::<ValueV, ReportV>(ValueV::Int((x + y) as i32)),
        i32::MIN <= x - y <= i32::MAX ==> eval(fuel, Expr::Minus(Box::new(l), Box::new(r)), st, t).0
            == Ok::<ValueV, ReportV>(ValueV::Int((x - y) as i32)),
        i32::MIN <= x * y <= i32::MAX ==> eval(fuel, Expr::Times(Box::new(l), Box::new(r)), st, t).0
            == Ok::<ValueV, ReportV>(ValueV::Int((x * y) as i32)),
        x >= 0 && y > 0 ==> eval(fuel, Expr::Div(Box::new(l), Box::new(r)), st, t).0
            == Ok::<ValueV, ReportV>(ValueV::Int((x / y) as i32)),
        x >= 0 && y > 0 ==> eval(fuel, Expr::Mod(Box::new(l), Box::new(r)), st, t).0
            == Ok::<ValueV, ReportV>(ValueV::Int((x % y) as i32)),
        y == 0 ==> eval(fuel, Expr::Div(Box::new(l), Box::new(r)), st, t).0 is Err,
        y == 0 ==> eval(fuel, Expr::Mod(Box::new(l), Box::new(r)), st, t).0 is Err,
        eval(fuel, Expr::LessThan(Box::new(l), Box::new(r)), st, t).0 == Ok::<ValueV, ReportV>(ValueV::Bool(x < y)),
        eval(fuel, Expr::LessEquals(Box::new(l), Box::new(r)), st, t).0 == Ok::<ValueV, ReportV>(ValueV::Bool(x <= y)),
        x != i32::MIN ==> eval(fuel, Expr::Neg(Box::new(l), s), st, t).0 == Ok::<ValueV, ReportV>(ValueV::Int((-x) as i32)),
{
    let f = (fuel - 1) as nat;
    assert(eval_pair(f, l, r, st, t).0 == Ok::<(ValueV, ValueV), ReportV>((ValueV::Int(x), ValueV::Int(y))));
    let e1 = Expr::Plus(Box::new(l), Box::new(r));
    let e2 = Expr::Minus(Box::new(l), Box::new(r));
    assert(eval(fuel, e1, st, t) == eval_arith(f, ArithOp::Add, l, r, spec_range(e1), st, t));
    assert(eval(fuel, e2, st, t) == eval_arith(f, ArithOp::Sub, l, r, spec_range(e2), st, t));
    if x >= 0 && y > 0 {
        assert(tdiv(x as int, y as int) == x / y);
        assert(trem(x as int, y as int) == x % y) by (nonlinear_arith)
            requires
                x >= 0,
                y > 0,
                tdiv(x as int, y as int) == x / y,
        {
        }
        assert(0 <= x / y <= x) by (nonlinear_arith)
            requires
                x >= 0,
                y > 0,
        {
        }
    }
}

/// `l == r` tells whether the two values are equal, and `l ++ r` joins two strings.
pub proof fn law_eval_equality_and_concat(fuel: nat, l: SExpr, r: SExpr, st: St, t: DefinitionTable, a: ValueV, b: ValueV)
    requires
        fuel > 0,
        sub_eval(fuel, l, st, t).0 == Ok::<ValueV, ReportV>(a),
        sub_eval(fuel, r, sub_eval(fuel, l, st, t).1, t).0 == Ok::<ValueV, ReportV>(b),
    ensures
        eval(fuel, Expr::Equals(Box::new(l), Box::new(r)), st, t).0 == Ok::<ValueV, ReportV>(ValueV::Bool(a == b)),
        a is Str && b is Str ==> eval(fuel, Expr::Concat(Box::new(l), Box::new(r)), st, t).0
            == Ok::<ValueV, ReportV>(ValueV::Str(a->Str_0 + b->Str_0)),
{
    let f = (fuel - 1) as nat;
    assert(eval_pair(f, l, r, st, t).0 == Ok::<(ValueV, ValueV), ReportV>((a, b)));
    assert(eval(fuel, Expr::Equals(Box::new(l), Box::new(r)), st, t) == eval_equals(f, l, r, st, t));
}

/// `if (c) then a else b` evaluates the branch that the condition's value selects, from the
/// state that the condition left; `a; b` evaluates `b` after `a` and gives its result.
pub proof fn law_eval_control(fuel: nat, c: SExpr, a: SExpr, b: SExpr, st: St, t: DefinitionTable, s: Span, x: bool)
    requires
        fuel > 0,
        sub_eval(fuel, c, st, t).0 == Ok::<ValueV, ReportV>(ValueV::Bool(x)),
    ensures
        eval(fuel, Expr::Ite(Box::new(c), Box::new(a), Box::new(b), s), st, t)
            == sub_eval(fuel, if x { a } else { b }, sub_eval(fuel, c, st, t).1, t),
        eval(fuel, Expr::Sequence(Box::new(c), Box::new(a)), st, t)
            == sub_eval(fuel, a, sub_eval(fuel, c, st, t).1, t),
{
}


/// `val x = e; x` gives the value of `e`: the body reads what the binding wrote.
pub proof fn law_eval_let_reads_binding(fuel: nat, x: Symbol, ty: SymbolicType, e: SExpr, y: Symbol, ys: Span, s: Span, st: St, t: DefinitionTable, v: ValueV)
    requires
        fuel > 1,
        y.id == x.id,
        sub_eval(fuel, e, st, t).0 == Ok::<ValueV, ReportV>(v),
    ensures
        eval(fuel, Expr::Let(x, ty, Box::new(e), Box::new(Expr::Variable(y, ys)), s), st, t).0
            == Ok::<ValueV, ReportV>(v),
{
    let st1 = sub_eval(fuel, e, st, t).1;
    let inner = enter(st1, seq![(x.id, v)]);
    let m = insert_all(Map::<SID, ValueV>::empty(), seq![(x.id, v)]);
    assert(insert_all(Map::<SID, ValueV>::empty(), seq![(x.id, v)].drop_last()) == Map::<SID, ValueV>::empty());
    assert(m.contains_key(x.id) && m[x.id] == v);
    assert(inner.env.last() == m);
    assert(scopes_lookup(inner.env, y.id) == Some(v));
    assert(eval((fuel - 1) as nat, Expr::Variable(y, ys), inner, t).0 == Ok::<ValueV, ReportV>(v));
    assert(eval_let((fuel - 1) as nat, x.id, e, Expr::Variable(y, ys), st, t).0 == Ok::<ValueV, ReportV>(v));
}

/// A match whose first case is `x => x` gives the scrutinee's value.
pub proof fn law_eval_match_binds(fuel: nat, scrut: SExpr, cases: VecDeque<(Pattern<Symbol>, SExpr)>, span: Span, st: St, t: DefinitionTable, v: ValueV, x: Symbol, xs: Span, y: Symbol, ys: Span)
    requires
        fuel > 1,
        y.id == x.id,
        cases@.len() >= 1,
        cases@[0] == (Pattern::IdPattern(x, xs), Expr::<Symbol, SymbolicType>::Variable(y, ys)),
        sub_eval(fuel, scrut, st, t).0 == Ok::<ValueV, ReportV>(v),
    ensures
        eval(fuel, Expr::Match(Box::new(scrut), cases, span), st, t).0 == Ok::<ValueV, ReportV>(v),
{
    let st1 = sub_eval(fuel, scrut, st, t).1;
    let inner = enter(st1, seq![(x.id, v)]);
    let m = insert_all(Map::<SID, ValueV>::empty(), seq![(x.id, v)]);
    assert(insert_all(Map::<SID, ValueV>::empty(), seq![(x.id, v)].drop_last()) == Map::<SID, ValueV>::empty());
    assert(m.contains_key(x.id) && m[x.id] == v);
    assert(inner.env.last() == m);
    assert(scopes_lookup(inner.env, y.id) == Some(v));
    assert(spec_match(v, cases@[0].0) == Some(seq![(x.id, v)]));
    assert(eval((fuel - 1) as nat, Expr::Variable(y, ys), inner, t).0 == Ok::<ValueV, ReportV>(v));
    let err = spec_join(spec_range(scrut), span);
    assert(eval_cases((fuel - 1) as nat, v, cases, 0, err, st1, t).0 == Ok::<ValueV, ReportV>(v));
    assert(eval_match((fuel - 1) as nat, scrut, cases, span, st, t).0 == Ok::<ValueV, ReportV>(v));
}

/// In a match whose cases are a literal pattern and then `_`, the first body is taken exactly
/// when the scrutinee's value equals the literal, and otherwise the second; a `_` or a
/// name as the first pattern always takes the first body. A body runs in a new, empty
/// scope (with the name bound, for a name pattern) after the scrutinee.
pub proof fn law_eval_match_literals(fuel: nat, scrut: SExpr, cases: VecDeque<(Pattern<Symbol>, SExpr)>, span: Span, st: St, t: DefinitionTable, v: ValueV, p: Pattern<Symbol>, b1: SExpr, b2: SExpr, ws: Span)
    requires
        fuel > 0,
        cases@ == seq![(p, b1), (Pattern::<Symbol>::Wildcard(ws), b2)],
        sub_eval(fuel, scrut, st, t).0 == Ok::<ValueV, ReportV>(v),
    ensures ({
        let st1 = sub_eval(fuel, scrut, st, t).1;
        let fresh = St { env: st1.env.push(Map::empty()), ..st1 };
        let res = eval(fuel, Expr::Match(Box::new(scrut), cases, span), st, t).0;
        &&& p matches Pattern::BoolPattern(b, _) ==>
            res == sub_eval(fuel, if v == ValueV::Bool(b) { b1 } else { b2 }, fresh, t).0
        &&& p matches Pattern::IntPattern(i, _) ==>
            res == sub_eval(fuel, if v == ValueV::Int(i) { b1 } else { b2 }, fresh, t).0
        &&& p matches Pattern::StringPattern(s, _) ==>
            res == sub_eval(fuel, if v == ValueV::Str(s@) { b1 } else { b2 }, fresh, t).0
        &&& p matches Pattern::UnitPattern(_) ==>
            res == sub_eval(fuel, if v == ValueV::Unit { b1 } else { b2 }, fresh, t).0
        &&& p matches Pattern::Wildcard(_) ==> res == sub_eval(fuel, b1, fresh, t).0
        &&& p matches Pattern::IdPattern(x, _) ==> res == sub_eval(fuel, b1,
                St { env: st1.env.push(Map::empty().insert(x.id, v)), ..st1 }, t).0
    }),
{
    let st1 = sub_eval(fuel, scrut, st, t).1;
    assert(env_push(st1.env).len() > 0);
    assert(env_define_many(env_push(st1.env), Seq::empty()) =~= st1.env.push(Map::empty()));
    let f = (fuel - 1) as nat;
    let err = spec_join(spec_range(scrut), span);
    let fresh = St { env: st1.env.push(Map::empty()), ..st1 };
    assert(enter(st1, Seq::empty()) == fresh);
    assert(eval(fuel, Expr::Match(Box::new(scrut), cases, span), st, t) == eval_cases(f, v, cases, 0, err, st1, t));
    assert(spec_match(v, Pattern::<Symbol>::Wildcard(ws)) == Some(Seq::<(SID, ValueV)>::empty()));
    if spec_match(v, p) is None {
        assert(eval_cases(f, v, cases, 1, err, st1, t).0 == eval(f, b2, fresh, t).0);
    }
    if p is IdPattern {
        let x = p->IdPattern_0;
        assert(insert_all(Map::<SID, ValueV>::empty(), seq![(x.id, v)].drop_last()) == Map::<SID, ValueV>::empty());
        assert(env_define_many(env_push(st1.env), seq![(x.id, v)]) =~= st1.env.push(Map::empty().insert(x.id, v)));
    }
}


/// A call evaluates its argument and then: a function whose body is its own parameter gives
/// back the argument's value; a constructor builds a value of its class from the argument's
/// value; a name that is neither is an error.
pub proof fn law_eval_calls(fuel: nat, name: Symbol, args: VecDeque<SExpr>, span: Span, st: St, t: DefinitionTable, a: SExpr, v: ValueV)
    requires
        fuel > 1,
        args@ == seq![a],
        builtin_of(name.name@) is None,
        sub_eval(fuel, a, st, t).0 == Ok::<ValueV, ReportV>(v),
    ensures
        ({
            let res = eval(fuel, Expr::Call(name, args, span), st, t).0;
            let fd = t.fun_defs@[name.id];
            let cd = t.class_defs@[name.id];
            &&& t.fun_defs@.contains_key(name.id) && fd.args@.len() == 1
                && (fd.body matches Expr::Variable(q, _) && q.id == fd.args@[0].0.id)
                ==> res == Ok::<ValueV, ReportV>(v)
            &&& !t.fun_defs@.contains_key(name.id) && t.class_defs@.contains_key(name.id)
                ==> res == Ok::<ValueV, ReportV>(ValueV::CaseClass(cd.name.name@, cd.name.id, seq![v]))
            &&& !t.fun_defs@.contains_key(name.id) && !t.class_defs@.contains_key(name.id) ==> res is Err
        }),
{
    let f = (fuel - 1) as nat;
    let st1 = sub_eval(fuel, a, st, t).1;
    assert(eval_args(f, args, 1, seq![v], st1, t) == (Ok::<Seq<ValueV>, ReportV>(seq![v]), st1));
    assert(Seq::<ValueV>::empty().push(v) == seq![v]);
    assert(eval_args(f, args, 0, Seq::empty(), st, t) == (Ok::<Seq<ValueV>, ReportV>(seq![v]), st1));
    if t.fun_defs@.contains_key(name.id) {
        let fd = t.fun_defs@[name.id];
        if fd.args@.len() == 1 {
            if let Expr::Variable(q, qs) = fd.body {
                if q.id == fd.args@[0].0.id {
                    let pairs = bind_args(fd.args@, seq![v]);
                    assert(pairs =~= seq![(q.id, v)]);
                    let inner = enter(st1, pairs);
                    let m = insert_all(Map::<SID, ValueV>::empty(), pairs);
                    assert(insert_all(Map::<SID, ValueV>::empty(), pairs.drop_last()) == Map::<SID, ValueV>::empty());
                    assert(m.contains_key(q.id) && m[q.id] == v);
                    assert(inner.env.last() == m);
                    assert(scopes_lookup(inner.env, q.id) == Some(v));
                    assert(eval(f, fd.body, inner, t).0 == Ok::<ValueV, ReportV>(v));
                }
            }
        }
    }
}

} // verus!
