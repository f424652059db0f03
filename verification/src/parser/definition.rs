//! Parsing definitions and modules.
use std::collections::VecDeque;
use vstd::prelude::*;
use crate::ast::{
    NomArgList, NominalAbstDef, NominalClassDef, NominalFunDef, NominalModule, nom_args_view,
};
use crate::diagnostics::Report;
use crate::parser::expr::parse_expr;
use crate::parser::grammar::{
    ArgV, DefV, Parsed, abstract_defs, agrees, class_defs, follows, fun_defs, p_abstract_def,
    p_arglist, p_argument, p_case_def, p_definition, p_fun_def, p_many_arguments,
    p_many_definitions, p_module,
};
use crate::parser::token::TokenKind;
use crate::parser::tokeniter::TokenIter;
use crate::parser::{error, expect, get_string, parse_type, res_v, same_bytes};

verus! {

broadcast use vstd::std_specs::vecdeque::group_vec_dequeue_axioms;

/// A definition of a module.
#[derive(Debug)]
pub enum Definition {
    Abstract(NominalAbstDef),
    Class(NominalClassDef),
    Fun(NominalFunDef),
}

impl View for Definition {
    type V = DefV;

    open spec fn view(&self) -> DefV {
        match self {
            Definition::Abstract(d) => DefV::Abst(d@),
            Definition::Class(d) => DefV::Class(d@),
            Definition::Fun(d) => DefV::Fun(d@),
        }
    }
}

/// The models of a list of definitions.
pub open spec fn defs_view(ds: Seq<Definition>) -> Seq<DefV> {
    ds.map_values(|d: Definition| d@)
}

/// Parses an argument `name: T`.
#[verifier::spinoff_prover]
pub fn parse_argument(src: &[u8], ts: &mut TokenIter) -> (r: Result<(String, crate::ast::NominalType), Report>)
    requires
        old(ts).wf(),
        old(ts).spec_src() == src@,
    ensures
        follows(*final(ts), *old(ts)),
        agrees(
            match r {
                Ok(a) => Ok((a.0@, a.1@)),
                Err(e) => Err(e@),
            },
            *final(ts),
            p_argument(src@, *old(ts)),
        ),
        r is Ok ==> final(ts).measure() < old(ts).measure(),
{
    proof {
        reveal(p_argument);
    }
    let id = match expect(ts, TokenKind::Identifier, "An argument must have a valid name identifier.") {
        Ok(t) => t,
        Err(e) => return Err(e),
    };
    let name = match get_string(src, id.range) {
        Ok(s) => s,
        Err(e) => return Err(e),
    };
    match expect(ts, TokenKind::Colon, "Expected a colon after the argument name.") {
        Ok(_) => {},
        Err(e) => return Err(e),
    }
    let typ = match parse_type(src, ts) {
        Ok(t) => t,
        Err(e) => return Err(e),
    };
    Ok((name, typ))
}

/// Parses a non-empty argument list with its closing parenthesis.
#[verifier::spinoff_prover]
pub fn parse_many_arguments(src: &[u8], ts: &mut TokenIter) -> (r: Result<NomArgList, Report>)
    requires
        old(ts).wf(),
        old(ts).spec_src() == src@,
    ensures
        follows(*final(ts), *old(ts)),
        agrees(
            match r {
                Ok(a) => Ok(nom_args_view(a@)),
                Err(e) => Err(e@),
            },
            *final(ts),
            p_many_arguments(src@, *old(ts)),
        ),
        r is Ok ==> final(ts).measure() < old(ts).measure(),
    decreases old(ts).measure(),
{
    let arg = match parse_argument(src, ts) {
        Ok(a) => a,
        Err(e) => return Err(e),
    };
    let delim = ts.pop();
    if delim.kind == TokenKind::Comma {
        let mut lst = match parse_many_arguments(src, ts) {
            Ok(l) => l,
            Err(e) => return Err(e),
        };
        let ghost before = lst@;
        lst.push_back(arg);
        proof {
            assert(nom_args_view(lst@) =~= nom_args_view(before).push((arg.0@, arg.1@)));
        }
        Ok(lst)
    } else if delim.kind == TokenKind::CloseParen {
        let mut lst = VecDeque::new();
        lst.push_back(arg);
        proof {
            assert(nom_args_view(lst@) =~= seq![(arg.0@, arg.1@)]);
        }
        Ok(lst)
    } else {
        error(delim.range, "Expected either a comma separator of a closing parenthesis")
    }
}

/// Parses an argument list `(args)` or `()`.
#[verifier::spinoff_prover]
pub fn parse_arglist(src: &[u8], ts: &mut TokenIter) -> (r: Result<NomArgList, Report>)
    requires
        old(ts).wf(),
        old(ts).spec_src() == src@,
    ensures
        follows(*final(ts), *old(ts)),
        agrees(
            match r {
                Ok(a) => Ok(nom_args_view(a@)),
                Err(e) => Err(e@),
            },
            *final(ts),
            p_arglist(src@, *old(ts)),
        ),
{
    proof {
        reveal(p_arglist);
    }
    match expect(ts, TokenKind::OpenParen, "Expected an opening parenthesis to start the argument list.") {
        Ok(_) => {},
        Err(e) => return Err(e),
    }
    let t = ts.peek();
    if t.kind == TokenKind::CloseParen {
        ts.consume();
        let lst = VecDeque::new();
        proof {
            assert(nom_args_view(lst@) =~= Seq::<ArgV>::empty());
        }
        Ok(lst)
    } else {
        parse_many_arguments(src, ts)
    }
}

/// Parses `f(args): T := body end f` after the keyword `def`.
#[verifier::spinoff_prover]
fn parse_fun_def(src: &[u8], ts: &mut TokenIter) -> (r: Result<Definition, Report>)
    requires
        old(ts).wf(),
        old(ts).spec_src() == src@,
    ensures
        follows(*final(ts), *old(ts)),
        agrees(res_v(r), *final(ts), p_fun_def(src@, *old(ts))),
{
    proof {
        reveal(p_fun_def);
    }
    let id1 = match expect(ts, TokenKind::Identifier, "A function must have a valid name identifier.") {
        Ok(t) => t,
        Err(e) => return Err(e),
    };
    let name = match get_string(src, id1.range) {
        Ok(s) => s,
        Err(e) => return Err(e),
    };
    let args = match parse_arglist(src, ts) {
        Ok(a) => a,
        Err(e) => return Err(e),
    };
    match expect(ts, TokenKind::Colon, "Expected a colon after the function argument list.") {
        Ok(_) => {},
        Err(e) => return Err(e),
    }
    let rt = match parse_type(src, ts) {
        Ok(t) => t,
        Err(e) => return Err(e),
    };
    match expect(ts, TokenKind::ColonEqual, "Expected `:=` after the function return type.") {
        Ok(_) => {},
        Err(e) => return Err(e),
    }
    let body = match parse_expr(src, ts) {
        Ok(e) => e,
        Err(e) => return Err(e),
    };
    match expect(ts, TokenKind::KwEnd, "A function body must be followed by the `end` keyword.") {
        Ok(_) => {},
        Err(e) => return Err(e),
    }
    let id2 = match expect(ts, TokenKind::Identifier, "A function definition must have its name after the `end` keyword.") {
        Ok(t) => t,
        Err(e) => return Err(e),
    };
    if !same_bytes(src, id2.range, id1.range) {
        return error(id2.range, "The names at the start and end of a function definition must match.");
    }
    let type_vars: VecDeque<String> = VecDeque::new();
    proof {
        assert(type_vars@.map_values(|s: String| s@) =~= Seq::<Seq<char>>::empty());
    }
    Ok(Definition::Fun(NominalFunDef { name, type_vars, args, rt, body, range: id1.range }))
}

/// Parses `class C` after the keyword `abstract`.
#[verifier::spinoff_prover]
fn parse_abstract_def(src: &[u8], ts: &mut TokenIter) -> (r: Result<Definition, Report>)
    requires
        old(ts).wf(),
        old(ts).spec_src() == src@,
    ensures
        follows(*final(ts), *old(ts)),
        agrees(res_v(r), *final(ts), p_abstract_def(src@, *old(ts))),
{
    proof {
        reveal(p_abstract_def);
    }
    match expect(ts, TokenKind::KwClass, "Expected the keyword `class` after `abstract`.") {
        Ok(_) => {},
        Err(e) => return Err(e),
    }
    let id = match expect(ts, TokenKind::Identifier, "An abstract class must have a valid name identifier.") {
        Ok(t) => t,
        Err(e) => return Err(e),
    };
    let name = match get_string(src, id.range) {
        Ok(s) => s,
        Err(e) => return Err(e),
    };
    let type_vars: VecDeque<String> = VecDeque::new();
    proof {
        assert(type_vars@.map_values(|s: String| s@) =~= Seq::<Seq<char>>::empty());
    }
    Ok(Definition::Abstract(NominalAbstDef { name, type_vars, range: id.range }))
}

/// Parses `class C(args) extends P` after the keyword `case`.
#[verifier::spinoff_prover]
fn parse_case_def(src: &[u8], ts: &mut TokenIter) -> (r: Result<Definition, Report>)
    requires
        old(ts).wf(),
        old(ts).spec_src() == src@,
    ensures
        follows(*final(ts), *old(ts)),
        agrees(res_v(r), *final(ts), p_case_def(src@, *old(ts))),
{
    proof {
        reveal(p_case_def);
    }
    match expect(ts, TokenKind::KwClass, "Expected the keyword `class` after `case` in a definition.") {
        Ok(_) => {},
        Err(e) => return Err(e),
    }
    let id = match expect(ts, TokenKind::Identifier, "A function must have a valid name identifier.") {
        Ok(t) => t,
        Err(e) => return Err(e),
    };
    let name = match get_string(src, id.range) {
        Ok(s) => s,
        Err(e) => return Err(e),
    };
    let args = match parse_arglist(src, ts) {
        Ok(a) => a,
        Err(e) => return Err(e),
    };
    match expect(ts, TokenKind::KwExtends, "A case class definition must end with an `extends` clause.") {
        Ok(_) => {},
        Err(e) => return Err(e),
    }
    let parent = match expect(ts, TokenKind::Identifier, "Expected a valid name of an abstract class.") {
        Ok(t) => t,
        Err(e) => return Err(e),
    };
    let pname = match get_string(src, parent.range) {
        Ok(s) => s,
        Err(e) => return Err(e),
    };
    Ok(Definition::Class(NominalClassDef { name, args, parent: pname, range: id.range }))
}

/// Parses an abstract class, a case class or a function definition.
#[verifier::spinoff_prover]
pub fn parse_definition(src: &[u8], ts: &mut TokenIter) -> (r: Result<Definition, Report>)
    requires
        old(ts).wf(),
        old(ts).spec_src() == src@,
    ensures
        follows(*final(ts), *old(ts)),
        agrees(res_v(r), *final(ts), p_definition(src@, *old(ts))),
        r is Ok ==> final(ts).measure() < old(ts).measure(),
{
    let kw = ts.pop();
    if kw.kind == TokenKind::KwDef {
        parse_fun_def(src, ts)
    } else if kw.kind == TokenKind::KwAbstract {
        parse_abstract_def(src, ts)
    } else if kw.kind == TokenKind::KwCase {
        parse_case_def(src, ts)
    } else {
        error(kw.range, "A module definition must start with either `def`, `abstract`, or `case`.")
    }
}

/// Parses the definitions at the start of a module, while the next token starts one.
#[verifier::spinoff_prover]
pub fn parse_many_definitions(src: &[u8], ts: &mut TokenIter) -> (r: Result<VecDeque<Definition>, Report>)
    requires
        old(ts).wf(),
        old(ts).spec_src() == src@,
    ensures
        follows(*final(ts), *old(ts)),
        agrees(
            match r {
                Ok(ds) => Ok(defs_view(ds@)),
                Err(e) => Err(e@),
            },
            *final(ts),
            p_many_definitions(src@, *old(ts)),
        ),
    decreases old(ts).measure(),
{
    let t = ts.peek();
    if t.kind == TokenKind::KwDef || t.kind == TokenKind::KwAbstract || t.kind == TokenKind::KwCase {
        let def = match parse_definition(src, ts) {
            Ok(d) => d,
            Err(e) => return Err(e),
        };
        let mut rest = match parse_many_definitions(src, ts) {
            Ok(ds) => ds,
            Err(e) => return Err(e),
        };
        let ghost before = rest@;
        rest.push_back(def);
        proof {
            assert(defs_view(rest@) =~= defs_view(before).push(def@));
        }
        Ok(rest)
    } else {
        let rest = VecDeque::new();
        proof {
            assert(defs_view(rest@) =~= Seq::<DefV>::empty());
        }
        Ok(rest)
    }
}

/// Parses a module `object M defs [expr] end M` that ends the input.
#[verifier::spinoff_prover]
fn parse_module(src: &[u8], ts: &mut TokenIter) -> (r: Result<NominalModule, Report>)
    requires
        old(ts).wf(),
        old(ts).spec_src() == src@,
    ensures
        res_v(r) == p_module(src@, *old(ts)),
{
    proof {
        reveal(p_module);
    }
    match expect(ts, TokenKind::KwObject, "A module must start with the keyword `object`.") {
        Ok(_) => {},
        Err(e) => return Err(e),
    }
    let id1 = match expect(ts, TokenKind::Identifier, "A module must be given a valid identifier name.") {
        Ok(t) => t,
        Err(e) => return Err(e),
    };
    let name = match get_string(src, id1.range) {
        Ok(s) => s,
        Err(e) => return Err(e),
    };
    let mut defs = match parse_many_definitions(src, ts) {
        Ok(ds) => ds,
        Err(e) => return Err(e),
    };
    let t = ts.peek();
    let mexpr = if t.kind == TokenKind::KwEnd {
        None
    } else {
        match parse_expr(src, ts) {
            Ok(e) => Some(e),
            Err(e) => return Err(e),
        }
    };
    match expect(ts, TokenKind::KwEnd, "A module must end with the keyword `end`.") {
        Ok(_) => {},
        Err(e) => return Err(e),
    }
    let id2 = match expect(ts, TokenKind::Identifier, "A module must end with its name.") {
        Ok(t) => t,
        Err(e) => return Err(e),
    };
    if !same_bytes(src, id2.range, id1.range) {
        return error(id2.range, "The names at the start and end of a module must match.");
    }
    let next = ts.pop();
    if next.kind != TokenKind::Eof {
        return error(next.range, "Unexpected token after the module definition.");
    }
    let ghost all = defs_view(defs@);
    let mut abstract_list: VecDeque<NominalAbstDef> = VecDeque::new();
    let mut class_list: VecDeque<NominalClassDef> = VecDeque::new();
    let mut fun_list: VecDeque<NominalFunDef> = VecDeque::new();
    let ghost mut k: int = 0;
    while defs.len() > 0
        invariant
            0 <= k <= all.len(),
            defs_view(defs@) == all.skip(k),
            abstract_list@.map_values(|d: NominalAbstDef| d@) == abstract_defs(all.take(k)),
            class_list@.map_values(|d: NominalClassDef| d@) == class_defs(all.take(k)),
            fun_list@.map_values(|d: NominalFunDef| d@) == fun_defs(all.take(k)),
        decreases defs.len(),
    {
        let ghost before = defs@;
        let ghost (a0, c0, f0) = (abstract_list@, class_list@, fun_list@);
        proof {
            assert(defs_view(before).len() == before.len());
            assert(k < all.len());
        }
        let d = defs.pop_front().unwrap();
        proof {
            assert(defs_view(before)[0] == d@);
            assert(all.skip(k)[0] == d@);
            assert(all.take(k + 1).drop_last() =~= all.take(k));
            assert(all.take(k + 1).last() == d@);
            assert(defs@ =~= before.subrange(1, before.len() as int));
            assert(defs_view(defs@) =~= defs_view(before).subrange(1, before.len() as int));
            assert(all.skip(k + 1) =~= all.skip(k).subrange(1, before.len() as int));
        }
        match d {
            Definition::Abstract(a) => {
                abstract_list.push_back(a);
                proof {
                    assert(abstract_list@.map_values(|d: NominalAbstDef| d@) =~= a0.map_values(|d: NominalAbstDef| d@).push(a@));
                }
            },
            Definition::Class(c) => {
                class_list.push_back(c);
                proof {
                    assert(class_list@.map_values(|d: NominalClassDef| d@) =~= c0.map_values(|d: NominalClassDef| d@).push(c@));
                }
            },
            Definition::Fun(f) => {
                fun_list.push_back(f);
                proof {
                    assert(fun_list@.map_values(|d: NominalFunDef| d@) =~= f0.map_values(|d: NominalFunDef| d@).push(f@));
                }
            },
        }
        proof {
            k = k + 1;
        }
    }
    proof {
        assert(all.take(k) =~= all);
    }
    Ok(NominalModule {
        name,
        id: ts.tag(),
        range: id1.range,
        abstract_defs: abstract_list,
        class_defs: class_list,
        fun_defs: fun_list,
        expr: mexpr,
    })
}

/// Parses the module that `ts` reads from `src`, which must end the input; the module gets
/// the iterator's tag as its identifier.
pub fn parse(src: &[u8], ts: &mut TokenIter) -> (r: Result<NominalModule, Report>)
    requires
        old(ts).wf(),
        old(ts).spec_src() == src@,
    ensures
        res_v(r) == p_module(src@, *old(ts)),
{
    parse_module(src, ts)
}

} // verus!
