//! The text of names, types, patterns and expressions, as the pretty-printer writes them.
use std::collections::VecDeque;
use vstd::prelude::*;
use crate::ast::{
    Expr, Name, NominalAbstDef, NominalClassDef, NominalFunDef, NominalModule, NominalType, Pattern,
    Symbol, SymbolicType, symbol_text, type_text,
};
use crate::text::{decimal, int_to_string};

verus! {

broadcast use vstd::std_specs::vecdeque::group_vec_dequeue_axioms;

/// Something with a text: names and types of both trees.
pub trait Shown {
    /// The text.
    spec fn text(&self) -> Seq<char>;

    /// Computes the text.
    fn show_text(&self) -> (s: String)
        ensures
            s@ == self.text(),
    ;
}

impl Shown for Name {
    /// `owner.name`, or `name`.
    open spec fn text(&self) -> Seq<char> {
        match self.owner {
            Some(o) => o@ + "."@ + self.name@,
            None => self.name@,
        }
    }

    fn show_text(&self) -> (s: String) {
        match &self.owner {
            Some(o) => {
                let mut s = o.clone();
                s.append(".");
                s.append(self.name.as_str());
                s
            },
            None => self.name.clone(),
        }
    }
}

impl Shown for Symbol {
    /// `name_id`.
    open spec fn text(&self) -> Seq<char> {
        symbol_text(self.name@, self.id)
    }

    fn show_text(&self) -> (s: String) {
        self.show()
    }
}

impl Shown for SymbolicType {
    open spec fn text(&self) -> Seq<char> {
        type_text(self@)
    }

    fn show_text(&self) -> (s: String) {
        self.show()
    }
}

impl Shown for NominalType {
    /// `Int(32)`, `Boolean`, `String`, `Unit`, or the class name (type arguments are not
    /// shown).
    open spec fn text(&self) -> Seq<char> {
        match self {
            NominalType::IntType(_) => "Int(32)"@,
            NominalType::BoolType(_) => "Boolean"@,
            NominalType::StringType(_) => "String"@,
            NominalType::UnitType(_) => "Unit"@,
            NominalType::IdType(n, _, _) => n.text(),
        }
    }

    fn show_text(&self) -> (s: String) {
        match self {
            NominalType::IntType(_) => "Int(32)".to_owned(),
            NominalType::BoolType(_) => "Boolean".to_owned(),
            NominalType::StringType(_) => "String".to_owned(),
            NominalType::UnitType(_) => "Unit".to_owned(),
            NominalType::IdType(n, _, _) => n.show_text(),
        }
    }
}

/// `true` or `false`.
pub open spec fn bool_text(b: bool) -> Seq<char> {
    if b { "true"@ } else { "false"@ }
}

/// The text of a pattern.
pub open spec fn pattern_text<N: Shown>(p: Pattern<N>) -> Seq<char>
    decreases p, 0nat,
{
    match p {
        Pattern::Wildcard(_) => "_"@,
        Pattern::IdPattern(n, _) => n.text(),
        Pattern::BoolPattern(b, _) => bool_text(b),
        Pattern::StringPattern(s, _) => "\""@ + s@ + "\""@,
        Pattern::IntPattern(i, _) => decimal(i as int),
        Pattern::UnitPattern(_) => "()"@,
        Pattern::ClassPattern(n, args, _) => n.text() + "("@ + patterns_text(args, 0) + ")"@,
    }
}

/// The texts of the patterns `ps[i..]`, separated by `, `.
pub open spec fn patterns_text<N: Shown>(ps: VecDeque<Pattern<N>>, i: int) -> Seq<char>
    decreases ps, ps@.len() - i,
{
    if 0 <= i < ps@.len() {
        if i + 1 == ps@.len() {
            pattern_text(ps@[i])
        } else {
            pattern_text(ps@[i]) + ", "@ + patterns_text(ps, i + 1)
        }
    } else {
        Seq::empty()
    }
}

/// Three spaces `n` times.
pub open spec fn indent_text(n: nat) -> Seq<char>
    decreases n,
{
    if n == 0 {
        Seq::empty()
    } else {
        indent_text((n - 1) as nat) + "   "@
    }
}

/// `i + k`, or `usize::MAX` if that is larger (indentation saturates).
pub open spec fn sat_add(i: nat, k: nat) -> nat {
    if i + k <= usize::MAX { i + k } else { usize::MAX as nat }
}

/// `( l op r )`.
pub open spec fn binop_text(l: Seq<char>, op: Seq<char>, r: Seq<char>) -> Seq<char> {
    "( "@ + l + " "@ + op + " "@ + r + " )"@
}

/// The text of an expression at indentation `ind` (the indentation of the lines after the
/// first).
pub open spec fn expr_text<N: Shown, T: Shown>(e: Expr<N, T>, ind: nat) -> Seq<char>
    decreases e, 0nat,
{
    match e {
        Expr::Variable(n, _) => n.text(),
        Expr::IntLiteral(i, _) => decimal(i as int),
        Expr::BoolLiteral(b, _) => bool_text(b),
        Expr::StringLiteral(s, _) => "\""@ + s@ + "\""@,
        Expr::UnitLiteral(_) => "()"@,
        Expr::Plus(l, r) => binop_text(expr_text(*l, ind), "+"@, expr_text(*r, ind)),
        Expr::Minus(l, r) => binop_text(expr_text(*l, ind), "-"@, expr_text(*r, ind)),
        Expr::Times(l, r) => binop_text(expr_text(*l, ind), "*"@, expr_text(*r, ind)),
        Expr::Div(l, r) => binop_text(expr_text(*l, ind), "/"@, expr_text(*r, ind)),
        Expr::Mod(l, r) => binop_text(expr_text(*l, ind), "%"@, expr_text(*r, ind)),
        Expr::LessThan(l, r) => binop_text(expr_text(*l, ind), "<"@, expr_text(*r, ind)),
        Expr::LessEquals(l, r) => binop_text(expr_text(*l, ind), "<="@, expr_text(*r, ind)),
        Expr::And(l, r) => binop_text(expr_text(*l, ind), "&&"@, expr_text(*r, ind)),
        Expr::Or(l, r) => binop_text(expr_text(*l, ind), "||"@, expr_text(*r, ind)),
        Expr::Equals(l, r) => binop_text(expr_text(*l, ind), "=="@, expr_text(*r, ind)),
        Expr::Concat(l, r) => binop_text(expr_text(*l, ind), "++"@, expr_text(*r, ind)),
        Expr::Not(a, _) => "!("@ + expr_text(*a, ind) + ")"@,
        Expr::Neg(a, _) => "-("@ + expr_text(*a, ind) + ")"@,
        Expr::Call(n, args, _) => n.text() + "("@ + exprs_text(args, 0, ind) + ")"@,
        Expr::Sequence(l, r) => expr_text(*l, sat_add(ind, 1)) + ";\n"@ + indent_text(ind) + expr_text(*r, ind),
        Expr::Let(n, t, v, b, _) => "let "@ + n.text() + ": "@ + t.text() + " = "@ + expr_text(*v, sat_add(ind, 1))
            + " in\n"@ + indent_text(ind) + "( "@ + expr_text(*b, ind) + " )"@,
        Expr::Ite(c, a, b, _) => "if ("@ + expr_text(*c, ind) + ") {\n"@ + indent_text(sat_add(ind, 1))
            + expr_text(*a, sat_add(ind, 1)) + "\n"@ + indent_text(ind) + "} else {\n"@ + indent_text(sat_add(ind, 1))
            + expr_text(*b, sat_add(ind, 1)) + "\n"@ + indent_text(ind) + "}"@,
        Expr::Match(s, cases, _) => "( "@ + expr_text(*s, ind) + " match {\n"@ + cases_text(cases, 0, ind)
            + "\n"@ + indent_text(ind) + "} )"@,
        Expr::Error(a, _) => "error("@ + expr_text(*a, ind) + ")"@,
    }
}

/// The texts of the expressions `es[i..]` at indentation `ind`, separated by `, `.
pub open spec fn exprs_text<N: Shown, T: Shown>(es: VecDeque<Expr<N, T>>, i: int, ind: nat) -> Seq<char>
    decreases es, es@.len() - i,
{
    if 0 <= i < es@.len() {
        if i + 1 == es@.len() {
            expr_text(es@[i], ind)
        } else {
            expr_text(es@[i], ind) + ", "@ + exprs_text(es, i + 1, ind)
        }
    } else {
        Seq::empty()
    }
}

/// The cases `cs[i..]` of a match at indentation `ind`, one per line: `pattern => body`.
pub open spec fn cases_text<N: Shown, T: Shown>(cs: VecDeque<(Pattern<N>, Expr<N, T>)>, i: int, ind: nat) -> Seq<char>
    decreases cs, cs@.len() - i,
{
    if 0 <= i < cs@.len() {
        proof {
            assert(decreases_to!(cs => cs@[i]));
        }
        let line = indent_text(sat_add(ind, 1)) + pattern_text(cs@[i].0) + " => "@ + expr_text(cs@[i].1, sat_add(ind, 2));
        if i + 1 == cs@.len() {
            line
        } else {
            line + "\n"@ + cases_text(cs, i + 1, ind)
        }
    } else {
        Seq::empty()
    }
}

/// Appends three spaces `n` times.
fn push_indent(s: &mut String, n: usize)
    ensures
        final(s)@ == old(s)@ + indent_text(n as nat),
{
    let mut i: usize = 0;
    proof {
        assert(old(s)@ + indent_text(0) =~= old(s)@);
    }
    while i < n
        invariant
            i <= n,
            s@ == old(s)@ + indent_text(i as nat),
        decreases n - i,
    {
        s.append("   ");
        proof {
            assert(old(s)@ + indent_text((i + 1) as nat) =~= old(s)@ + indent_text(i as nat) + "   "@);
        }
        i += 1;
    }
}

/// The text of a boolean.
fn show_bool(b: bool) -> (s: String)
    ensures
        s@ == bool_text(b),
{
    if b {
        "true".to_owned()
    } else {
        "false".to_owned()
    }
}

/// A quoted string.
fn quoted(v: &String) -> (s: String)
    ensures
        s@ == "\""@ + v@ + "\""@,
{
    let mut s = "\"".to_owned();
    s.append(v.as_str());
    s.append("\"");
    s
}

impl<N: Shown> Pattern<N> {
    /// The text of this pattern (see `pattern_text`).
    pub fn show(&self) -> (s: String)
        ensures
            s@ == pattern_text(*self),
        decreases self, 0nat,
    {
        match self {
            Pattern::Wildcard(_) => "_".to_owned(),
            Pattern::IdPattern(n, _) => n.show_text(),
            Pattern::BoolPattern(b, _) => show_bool(*b),
            Pattern::StringPattern(v, _) => quoted(v),
            Pattern::IntPattern(i, _) => int_to_string(*i as i64),
            Pattern::UnitPattern(_) => "()".to_owned(),
            Pattern::ClassPattern(n, args, _) => {
                let mut s = n.show_text();
                s.append("(");
                let mut i: usize = 0;
                let ghost pre = s@;
                while i < args.len()
                    invariant
                        i <= args@.len(),
                        *self == Pattern::ClassPattern(*n, *args, self->ClassPattern_2),
                        pre == n.text() + "("@,
                        patterns_text(*args, 0) == s@.subrange(pre.len() as int, s@.len() as int) + patterns_text(*args, i as int),
                        s@.subrange(0, pre.len() as int) == pre,
                        pre.len() <= s@.len(),
                    decreases args.len() - i,
                {
                    proof {
                        assert(decreases_to!(*self => (*self)->ClassPattern_1));
                        assert(decreases_to!(*args => args@[i as int]));
                    }
                    let ghost before = s@;
                    let t = args[i].show();
                    s.append(t.as_str());
                    if i + 1 < args.len() {
                        s.append(", ");
                    }
                    proof {
                        let mid = before.subrange(pre.len() as int, before.len() as int);
                        let now = s@.subrange(pre.len() as int, s@.len() as int);
                        if i + 1 < args.len() {
                            assert(now =~= mid + t@ + ", "@);
                        } else {
                            assert(now =~= mid + t@);
                        }
                        assert(s@.subrange(0, pre.len() as int) =~= before.subrange(0, pre.len() as int));
                    }
                    i += 1;
                }
                let ghost mid = s@.subrange(pre.len() as int, s@.len() as int);
                proof {
                    assert(s@ =~= pre + mid);
                }
                s.append(")");
                s
            },
        }
    }
}

/// `i + k`, saturating at `usize::MAX`.
fn sat_add_exec(i: usize, k: usize) -> (r: usize)
    ensures
        r == sat_add(i as nat, k as nat),
{
    if i <= usize::MAX - k {
        i + k
    } else {
        usize::MAX
    }
}

/// Appends the text of `e` at indentation `ind`.
fn write_expr<N: Shown, T: Shown>(e: &Expr<N, T>, ind: usize, out: &mut String)
    ensures
        final(out)@ == old(out)@ + expr_text(*e, ind as nat),
    decreases e, 1nat,
{
    let ghost o0 = out@;
    match e {
        Expr::Variable(n, _) => out.append(n.show_text().as_str()),
        Expr::IntLiteral(i, _) => out.append(int_to_string(*i as i64).as_str()),
        Expr::BoolLiteral(b, _) => out.append(show_bool(*b).as_str()),
        Expr::StringLiteral(v, _) => out.append(quoted(v).as_str()),
        Expr::UnitLiteral(_) => out.append("()"),
        Expr::Not(a, _) => {
            out.append("!(");
            write_expr(a, ind, out);
            out.append(")");
            proof {
                assert(out@ =~= o0 + expr_text(*e, ind as nat));
            }
        },
        Expr::Neg(a, _) => {
            out.append("-(");
            write_expr(a, ind, out);
            out.append(")");
            proof {
                assert(out@ =~= o0 + expr_text(*e, ind as nat));
            }
        },
        Expr::Call(n, args, _) => {
            out.append(n.show_text().as_str());
            out.append("(");
            write_exprs(args, ind, out);
            out.append(")");
            proof {
                assert(out@ =~= o0 + expr_text(*e, ind as nat));
            }
        },
        Expr::Error(a, _) => {
            out.append("error(");
            write_expr(a, ind, out);
            out.append(")");
            proof {
                assert(out@ =~= o0 + expr_text(*e, ind as nat));
            }
        },
        Expr::Sequence(..) => write_sequence(e, ind, out),
        Expr::Let(..) => write_let(e, ind, out),
        Expr::Ite(..) => write_ite(e, ind, out),
        Expr::Match(..) => write_match(e, ind, out),
        _ => write_binary(e, ind, out),
    }
}

/// Appends the text of a binary operation `e` at indentation `ind`.
#[verifier::spinoff_prover]
#[verifier::rlimit(40)]
fn write_binary<N: Shown, T: Shown>(e: &Expr<N, T>, ind: usize, out: &mut String)
    requires
        e is Plus || e is Minus || e is Times || e is Div || e is Mod || e is LessThan || e is LessEquals || e is And || e is Or || e is Equals || e is Concat,
    ensures
        final(out)@ == old(out)@ + expr_text(*e, ind as nat),
    decreases e, 0nat,
{
    proof {
        reveal_strlit("+");
        reveal_strlit("-");
        reveal_strlit("*");
        reveal_strlit("/");
        reveal_strlit("%");
        reveal_strlit("<");
        reveal_strlit("<=");
        reveal_strlit("&&");
        reveal_strlit("||");
        reveal_strlit("==");
        reveal_strlit("++");
    }
    let ghost o0 = out@;
    let (l, r, op) = match e {
        Expr::Plus(l, r) => (l, r, "+"),
        Expr::Minus(l, r) => (l, r, "-"),
        Expr::Times(l, r) => (l, r, "*"),
        Expr::Div(l, r) => (l, r, "/"),
        Expr::Mod(l, r) => (l, r, "%"),
        Expr::LessThan(l, r) => (l, r, "<"),
        Expr::LessEquals(l, r) => (l, r, "<="),
        Expr::And(l, r) => (l, r, "&&"),
        Expr::Or(l, r) => (l, r, "||"),
        Expr::Equals(l, r) => (l, r, "=="),
        Expr::Concat(l, r) => (l, r, "++"),
        _ => vstd::pervasive::unreached(),
    };
    out.append("( ");
    write_expr(l, ind, out);
    out.append(" ");
    out.append(op);
    out.append(" ");
    write_expr(r, ind, out);
    out.append(" )");
    proof {
        assert(out@ =~= o0 + expr_text(*e, ind as nat));
    }
}

/// Appends the text of the `sequence` expression `e` at indentation `ind`.
#[verifier::spinoff_prover]
fn write_sequence<N: Shown, T: Shown>(e: &Expr<N, T>, ind: usize, out: &mut String)
    requires
        e is Sequence,
    ensures
        final(out)@ == old(out)@ + expr_text(*e, ind as nat),
    decreases e, 0nat,
{
    let ghost o0 = out@;
    match e {
        Expr::Sequence(l, r) => {
        write_expr(l, sat_add_exec(ind, 1), out);
        out.append(";\n");
        push_indent(out, ind);
        write_expr(r, ind, out);
        proof {
            assert(out@ =~= o0 + expr_text(*e, ind as nat));
        }
        },
        _ => vstd::pervasive::unreached(),
    }
}

/// Appends the text of the `let` expression `e` at indentation `ind`.
#[verifier::spinoff_prover]
fn write_let<N: Shown, T: Shown>(e: &Expr<N, T>, ind: usize, out: &mut String)
    requires
        e is Let,
    ensures
        final(out)@ == old(out)@ + expr_text(*e, ind as nat),
    decreases e, 0nat,
{
    let ghost o0 = out@;
    match e {
        Expr::Let(n, t, v, b, _) => {
        out.append("let ");
        out.append(n.show_text().as_str());
        out.append(": ");
        out.append(t.show_text().as_str());
        out.append(" = ");
        write_expr(v, sat_add_exec(ind, 1), out);
        out.append(" in\n");
        push_indent(out, ind);
        out.append("( ");
        write_expr(b, ind, out);
        out.append(" )");
        proof {
            assert(out@ =~= o0 + expr_text(*e, ind as nat));
        }
        },
        _ => vstd::pervasive::unreached(),
    }
}

/// Appends the text of the `ite` expression `e` at indentation `ind`.
#[verifier::spinoff_prover]
fn write_ite<N: Shown, T: Shown>(e: &Expr<N, T>, ind: usize, out: &mut String)
    requires
        e is Ite,
    ensures
        final(out)@ == old(out)@ + expr_text(*e, ind as nat),
    decreases e, 0nat,
{
    let ghost o0 = out@;
    match e {
        Expr::Ite(c, a, b, _) => {
        out.append("if (");
        write_expr(c, ind, out);
        out.append(") {\n");
        push_indent(out, sat_add_exec(ind, 1));
        write_expr(a, sat_add_exec(ind, 1), out);
        out.append("\n");
        push_indent(out, ind);
        out.append("} else {\n");
        push_indent(out, sat_add_exec(ind, 1));
        write_expr(b, sat_add_exec(ind, 1), out);
        out.append("\n");
        push_indent(out, ind);
        out.append("}");
        proof {
            assert(out@ =~= o0 + expr_text(*e, ind as nat));
        }
        },
        _ => vstd::pervasive::unreached(),
    }
}

/// Appends the text of the `match` expression `e` at indentation `ind`.
#[verifier::spinoff_prover]
fn write_match<N: Shown, T: Shown>(e: &Expr<N, T>, ind: usize, out: &mut String)
    requires
        e is Match,
    ensures
        final(out)@ == old(out)@ + expr_text(*e, ind as nat),
    decreases e, 0nat,
{
    let ghost o0 = out@;
    match e {
        Expr::Match(sc, cases, _) => {
        out.append("( ");
        write_expr(sc, ind, out);
        out.append(" match {\n");
        write_cases(cases, ind, out);
        out.append("\n");
        push_indent(out, ind);
        out.append("} )");
        proof {
            assert(out@ =~= o0 + expr_text(*e, ind as nat));
        }
        },
        _ => vstd::pervasive::unreached(),
    }
}

/// Appends the texts of the expressions `es` at indentation `ind`, separated by `, `.
fn write_exprs<N: Shown, T: Shown>(es: &VecDeque<Expr<N, T>>, ind: usize, out: &mut String)
    ensures
        final(out)@ == old(out)@ + exprs_text(*es, 0, ind as nat),
    decreases es, 2nat,
{
    let ghost o0 = out@;
    let mut i: usize = 0;
    while i < es.len()
        invariant
            i <= es@.len(),
            o0 + exprs_text(*es, 0, ind as nat) == out@ + exprs_text(*es, i as int, ind as nat),
        decreases es.len() - i,
    {
        proof {
            assert(decreases_to!(*es => es@[i as int]));
        }
        let ghost before = out@;
        write_expr(&es[i], ind, out);
        if i + 1 < es.len() {
            out.append(", ");
        }
        proof {
            if i + 1 < es.len() {
                assert(before + exprs_text(*es, i as int, ind as nat) =~= out@ + exprs_text(*es, i + 1, ind as nat));
            } else {
                assert(before + exprs_text(*es, i as int, ind as nat) =~= out@ + exprs_text(*es, i + 1, ind as nat));
            }
        }
        i += 1;
    }
    proof {
        assert(out@ + exprs_text(*es, i as int, ind as nat) =~= out@);
    }
}

/// Appends the cases `cs` of a match at indentation `ind`, one per line.
fn write_cases<N: Shown, T: Shown>(cs: &VecDeque<(Pattern<N>, Expr<N, T>)>, ind: usize, out: &mut String)
    ensures
        final(out)@ == old(out)@ + cases_text(*cs, 0, ind as nat),
    decreases cs, 2nat,
{
    let ghost o0 = out@;
    let mut i: usize = 0;
    while i < cs.len()
        invariant
            i <= cs@.len(),
            o0 + cases_text(*cs, 0, ind as nat) == out@ + cases_text(*cs, i as int, ind as nat),
        decreases cs.len() - i,
    {
        proof {
            assert(decreases_to!(*cs => cs@[i as int]));
            assert(decreases_to!(cs@[i as int] => cs@[i as int].1));
        }
        let ghost before = out@;
        push_indent(out, sat_add_exec(ind, 1));
        out.append(cs[i].0.show().as_str());
        out.append(" => ");
        write_expr(&cs[i].1, sat_add_exec(ind, 2), out);
        if i + 1 < cs.len() {
            out.append("\n");
        }
        proof {
            assert(before + cases_text(*cs, i as int, ind as nat) =~= out@ + cases_text(*cs, i + 1, ind as nat));
        }
        i += 1;
    }
    proof {
        assert(out@ + cases_text(*cs, i as int, ind as nat) =~= out@);
    }
}

impl<N: Shown, T: Shown> Expr<N, T> {
    /// The text of this expression; `indent` is the indentation, in steps of three spaces,
    /// of the lines after the first (see `expr_text`).
    pub fn show(&self, indent: usize) -> (s: String)
        ensures
            s@ == expr_text(*self, indent as nat),
    {
        let mut out = String::new();
        write_expr(self, indent, &mut out);
        proof {
            assert(out@ =~= expr_text(*self, indent as nat));
        }
        out
    }
}

/// The arguments `args[i..]` of a definition, each as `name: type`, separated by `, `.
pub open spec fn args_text(args: Seq<(String, NominalType)>, i: int) -> Seq<char>
    decreases args.len() - i,
{
    if 0 <= i < args.len() {
        let rest = if i + 1 < args.len() { ", "@ + args_text(args, i + 1) } else { Seq::empty() };
        args[i].0@ + ": "@ + args[i].1.text() + rest
    } else {
        Seq::empty()
    }
}

/// The abstract classes `ds[i..]`, one block each.
pub open spec fn abst_defs_text(ds: Seq<NominalAbstDef>, i: int) -> Seq<char>
    decreases ds.len() - i,
{
    if 0 <= i < ds.len() {
        "   abstract class "@ + ds[i].name@ + "\n\n"@ + abst_defs_text(ds, i + 1)
    } else {
        Seq::empty()
    }
}

/// The case classes `ds[i..]`, one block each.
pub open spec fn class_defs_text(ds: Seq<NominalClassDef>, i: int) -> Seq<char>
    decreases ds.len() - i,
{
    if 0 <= i < ds.len() {
        "   case class "@ + ds[i].name@ + " ("@ + args_text(ds[i].args@, 0) + ") extends "@
            + ds[i].parent@ + "\n\n"@ + class_defs_text(ds, i + 1)
    } else {
        Seq::empty()
    }
}

/// The functions `ds[i..]`, one block each, the bodies at indentation 2.
pub open spec fn fun_defs_text(ds: Seq<NominalFunDef>, i: int) -> Seq<char>
    decreases ds.len() - i,
{
    if 0 <= i < ds.len() {
        "   def "@ + ds[i].name@ + " ("@ + args_text(ds[i].args@, 0) + "): "@ + ds[i].rt.text()
            + " :=\n"@ + "      "@ + expr_text(ds[i].body, 2) + "\n"@ + "   end "@ + ds[i].name@
            + "\n\n"@ + fun_defs_text(ds, i + 1)
    } else {
        Seq::empty()
    }
}

/// The text of a parsed module: its name, its definitions by kind, its main expression, and
/// its end.
pub open spec fn module_text(m: NominalModule) -> Seq<char> {
    let main = match m.expr {
        Some(e) => "   "@ + expr_text(e, 2) + "\n"@,
        None => Seq::empty(),
    };
    "object "@ + m.name@ + "\n"@ + abst_defs_text(m.abstract_defs@, 0) + class_defs_text(
        m.class_defs@,
        0,
    ) + fun_defs_text(m.fun_defs@, 0) + main + "end "@ + m.name@ + "\n"@
}

/// Appends the arguments `args`, each as `name: type`, separated by `, `.
fn write_args(args: &VecDeque<(String, NominalType)>, out: &mut String)
    ensures
        final(out)@ == old(out)@ + args_text(args@, 0),
{
    let ghost o0 = out@;
    let mut i: usize = 0;
    while i < args.len()
        invariant
            i <= args@.len(),
            o0 + args_text(args@, 0) == out@ + args_text(args@, i as int),
        decreases args.len() - i,
    {
        proof {
            reveal_strlit(": ");
            reveal_strlit(", ");
        }
        let ghost before = out@;
        out.append(args[i].0.as_str());
        out.append(": ");
        let t = args[i].1.show_text();
        out.append(t.as_str());
        if i + 1 < args.len() {
            out.append(", ");
        }
        assert(before + args_text(args@, i as int) =~= out@ + args_text(args@, i + 1));
        i += 1;
    }
    assert(out@ + args_text(args@, i as int) =~= out@);
}

/// Appends the abstract classes `ds`.
fn write_abst_defs(ds: &VecDeque<NominalAbstDef>, out: &mut String)
    ensures
        final(out)@ == old(out)@ + abst_defs_text(ds@, 0),
{
    let ghost o0 = out@;
    let mut i: usize = 0;
    while i < ds.len()
        invariant
            i <= ds@.len(),
            o0 + abst_defs_text(ds@, 0) == out@ + abst_defs_text(ds@, i as int),
        decreases ds.len() - i,
    {
        proof {
            reveal_strlit("   abstract class ");
            reveal_strlit("\n\n");
        }
        let ghost before = out@;
        out.append("   abstract class ");
        out.append(ds[i].name.as_str());
        out.append("\n\n");
        assert(before + abst_defs_text(ds@, i as int) =~= out@ + abst_defs_text(ds@, i + 1));
        i += 1;
    }
    assert(out@ + abst_defs_text(ds@, i as int) =~= out@);
}

/// Appends the case classes `ds`.
fn write_class_defs(ds: &VecDeque<NominalClassDef>, out: &mut String)
    ensures
        final(out)@ == old(out)@ + class_defs_text(ds@, 0),
{
    let ghost o0 = out@;
    let mut i: usize = 0;
    while i < ds.len()
        invariant
            i <= ds@.len(),
            o0 + class_defs_text(ds@, 0) == out@ + class_defs_text(ds@, i as int),
        decreases ds.len() - i,
    {
        proof {
            reveal_strlit("   case class ");
            reveal_strlit(" (");
            reveal_strlit(") extends ");
            reveal_strlit("\n\n");
        }
        let ghost before = out@;
        let d = &ds[i];
        out.append("   case class ");
        out.append(d.name.as_str());
        out.append(" (");
        write_args(&d.args, out);
        out.append(") extends ");
        out.append(d.parent.as_str());
        out.append("\n\n");
        assert(before + class_defs_text(ds@, i as int) =~= out@ + class_defs_text(ds@, i + 1));
        i += 1;
    }
    assert(out@ + class_defs_text(ds@, i as int) =~= out@);
}

/// Appends the functions `ds`.
fn write_fun_defs(ds: &VecDeque<NominalFunDef>, out: &mut String)
    ensures
        final(out)@ == old(out)@ + fun_defs_text(ds@, 0),
{
    let ghost o0 = out@;
    let mut i: usize = 0;
    while i < ds.len()
        invariant
            i <= ds@.len(),
            o0 + fun_defs_text(ds@, 0) == out@ + fun_defs_text(ds@, i as int),
        decreases ds.len() - i,
    {
        proof {
            reveal_strlit("   def ");
            reveal_strlit(" (");
            reveal_strlit("): ");
            reveal_strlit(" :=\n");
            reveal_strlit("      ");
            reveal_strlit("\n");
            reveal_strlit("   end ");
            reveal_strlit("\n\n");
        }
        let ghost before = out@;
        let d = &ds[i];
        out.append("   def ");
        out.append(d.name.as_str());
        out.append(" (");
        write_args(&d.args, out);
        out.append("): ");
        let rt = d.rt.show_text();
        out.append(rt.as_str());
        out.append(" :=\n");
        out.append("      ");
        let body = d.body.show(2);
        out.append(body.as_str());
        out.append("\n");
        out.append("   end ");
        out.append(d.name.as_str());
        out.append("\n\n");
        assert(before + fun_defs_text(ds@, i as int) =~= out@ + fun_defs_text(ds@, i + 1));
        i += 1;
    }
    assert(out@ + fun_defs_text(ds@, i as int) =~= out@);
}

impl NominalModule {
    /// The text of this module as the pretty-printer writes it (see `module_text`).
    pub fn show(&self) -> (s: String)
        ensures
            s@ == module_text(*self),
    {
        proof {
            reveal_strlit("object ");
            reveal_strlit("\n");
            reveal_strlit("   ");
            reveal_strlit("end ");
        }
        let mut out = String::new();
        out.append("object ");
        out.append(self.name.as_str());
        out.append("\n");
        write_abst_defs(&self.abstract_defs, &mut out);
        write_class_defs(&self.class_defs, &mut out);
        write_fun_defs(&self.fun_defs, &mut out);
        match &self.expr {
            Some(e) => {
                out.append("   ");
                let t = e.show(2);
                out.append(t.as_str());
                out.append("\n");
            },
            None => {},
        }
        out.append("end ");
        out.append(self.name.as_str());
        out.append("\n");
        assert(out@ =~= module_text(*self));
        out
    }
}

} // verus!
