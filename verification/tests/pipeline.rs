use std::collections::VecDeque;

use rac::ast::{NominalModule, SymbolGenerator, SymbolicProgram};
use rac::diagnostics::{Report, Stage};
use rac::interpreter::builtin::Console;
use rac::interpreter::interpret;
use rac::name_analyzer::program::resolve;
use rac::parser::definition::parse;
use rac::parser::tokeniter::TokenIter;
use rac::typecheck::typecheck;

fn modules(srcs: &[&str]) -> VecDeque<NominalModule> {
    let mut out = VecDeque::new();
    for (i, src) in srcs.iter().enumerate() {
        let b = src.as_bytes();
        let mut ts = TokenIter::new(b, b.len(), i as u8);
        out.push_back(parse(b, &mut ts).expect("the test source parses"));
    }
    out
}

fn resolved(srcs: &[&str]) -> Result<SymbolicProgram, Report> {
    let mut sg = SymbolGenerator::new();
    resolve(modules(srcs), &mut sg)
}

fn run(srcs: &[&str]) -> Result<(), Report> {
    let program = resolved(srcs).expect("the test program resolves");
    let mut io = Console::new(Vec::new());
    interpret(&program, &mut io)
}

fn run_err(srcs: &[&str]) -> Report {
    match run(srcs) {
        Ok(_) => panic!("expected an error at run time"),
        Err(r) => r,
    }
}

fn check(srcs: &[&str]) -> Result<(), Report> {
    let mut sg = SymbolGenerator::new();
    let program = resolve(modules(srcs), &mut sg).expect("the test program resolves");
    typecheck(&program, &mut sg)
}

#[test]
fn unknown_variable_is_reported() {
    let r = resolved(&["object Main x end Main"]).err().unwrap();
    assert_eq!(r.stage, Stage::Resolving);
    assert_eq!(r.msg, "Variable `x` not found in current scope.");
    assert_eq!((r.range.start, r.range.end), (12, 13));
}

#[test]
fn duplicate_modules_are_reported() {
    let r = resolved(&["object A end A", "object A end A"]).err().unwrap();
    assert_eq!(r.stage, Stage::Resolving);
    assert_eq!(r.msg, "Module `A` already defined.");
}

#[test]
fn unknown_module_is_reported() {
    let r = resolved(&["object Main Foo.f() end Main"]).err().unwrap();
    assert_eq!(r.msg, "No module named `Foo`.");
}

#[test]
fn fresh_symbols_are_numbered_in_order() {
    let p = resolved(&["object Main def f(x: Int(32)): Int(32) := x end f\n f(1) end Main"]).unwrap();
    assert_eq!(p.table.fun_defs.len(), 1);
    assert_eq!(p.exprs.len(), 1);
    assert_eq!(p.exprs[0].show(0), "f_0(1)");
}

#[test]
fn a_program_that_ends_normally() {
    assert!(run(&["object Main 1 + 2 end Main"]).is_ok());
    assert!(run(&["object Main end Main"]).is_ok());
}

#[test]
fn error_expression_stops_the_program() {
    let r = run_err(&["object Main error(\"boom\") end Main"]);
    assert_eq!(r.stage, Stage::Interpreting);
    assert_eq!(r.msg, "Error: boom");
    assert_eq!((r.range.start, r.range.end), (12, 25));
}

#[test]
fn division_by_zero_is_reported() {
    let r = run_err(&["object Main 1 / 0 end Main"]);
    assert_eq!(r.msg, "Division by zero.");
    assert_eq!((r.range.start, r.range.end), (12, 17));
}

#[test]
fn overflow_is_reported() {
    let r = run_err(&["object Main 2147483647 + 1 end Main"]);
    assert_eq!(r.msg, "Integer overflow.");
}

#[test]
fn functions_and_conditionals() {
    let src = "object Main\n def double(x: Int(32)): Int(32) := x * 2 end double\n if (double(21) == 42) then error(\"yes\") else error(\"no\") end if\nend Main";
    assert_eq!(run_err(&[src]).msg, "Error: yes");
}

#[test]
fn recursion_computes_a_factorial() {
    let src = "object Main\n def fact(n: Int(32)): Int(32) := if (n <= 1) then 1 else n * fact(n - 1) end if end fact\n if (fact(5) == 120) then error(\"ok\") else error(\"wrong\") end if\nend Main";
    assert_eq!(run_err(&[src]).msg, "Error: ok");
}

#[test]
fn matching_a_constructor() {
    let src = "object Main\n abstract class Sh\n case class Sq(s: Int(32)) extends Sh\n Sq(3) match { case Sq(n) => if (n == 3) then error(\"three\") else error(\"other\") end if case _ => error(\"none\") }\nend Main";
    assert_eq!(run_err(&[src]).msg, "Error: three");
}

#[test]
fn matching_literals_falls_through() {
    let src = "object Main 5 match { case 1 => error(\"one\") case _ => error(\"any\") } end Main";
    assert_eq!(run_err(&[src]).msg, "Error: any");
}

#[test]
fn strings_concatenate() {
    let src = "object Main error(\"a\" ++ \"b\") end Main";
    assert_eq!(run_err(&[src]).msg, "Error: ab");
}

#[test]
fn error_with_a_non_string_is_reported() {
    let r = run_err(&["object Main error(1 + 2) end Main"]);
    assert_eq!(r.msg, "Expected a boolean, found `( 1 + 2 )`.");
}

#[test]
fn calls_across_modules() {
    let lib = "object Lib def three(): Int(32) := 3 end three end Lib";
    let main = "object Main if (Lib.three() == 3) then error(\"lib\") else error(\"no\") end if end Main";
    assert_eq!(run_err(&[lib, main]).msg, "Error: lib");
}

#[test]
fn well_typed_program_checks() {
    assert!(check(&["object Main 1 + 2 end Main"]).is_ok());
    assert!(check(&["object Main def f(b: Boolean): Int(32) := if (b) then 1 else 2 end if end f\n f(true) end Main"]).is_ok());
}

#[test]
fn ill_typed_program_is_reported() {
    let r = check(&["object Main 1 + true end Main"]).err().unwrap();
    assert_eq!(r.stage, Stage::Typechecking);
    assert_eq!(r.msg, "Expected type `Int(32)`, found `Boolean`.");
    assert_eq!((r.range.start, r.range.end), (16, 20));
    let r = check(&["object Main def f(b: Boolean): Int(32) := 1 end f\n f(3) end Main"]).err().unwrap();
    assert_eq!(r.stage, Stage::Typechecking);
    assert_eq!(r.msg, "Expected type `Boolean`, found `Int(32)`.");
}

#[test]
fn call_with_wrong_arity_is_reported() {
    let r = check(&["object Main def f(b: Boolean): Int(32) := 1 end f\n f() end Main"]).err().unwrap();
    assert_eq!(r.stage, Stage::Typechecking);
    assert_eq!(r.msg, "Function `f` takes 1 arguments, but was given 0.");
}

#[test]
fn resolved_programs_are_readable_by_the_checker() {
    let src = "object Main\n abstract class Sh\n case class Sq(s: Int(32)) extends Sh\n Sq(3) match { case Sq(n) => n case _ => 0 }\nend Main";
    let p = resolved(&[src]).unwrap();
    assert!(rac::typecheck::wellformed::program_ok(&p));
}
