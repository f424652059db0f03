use std::collections::{HashMap, VecDeque};

use rac::ast::environ::Environment;
use rac::ast::{DefinitionTable, Expr, Pattern, Symbol, SymbolicProgram, SymbolicType};
use rac::typecheck::wellformed::program_ok;
use rac::diagnostics::Span;
use rac::interpreter::builtin::{parse_int, Console};
use rac::interpreter::value::Value;
use rac::interpreter::{interpret, interpret_expr};

fn sp() -> Span {
    Span::new(0, 0, 0)
}

fn empty_table() -> DefinitionTable {
    DefinitionTable { type_defs: HashMap::new(), class_defs: HashMap::new(), fun_defs: HashMap::new() }
}

fn call(name: &str, args: Vec<Expr<Symbol, SymbolicType>>) -> Expr<Symbol, SymbolicType> {
    Expr::Call(Symbol { name: name.to_string(), id: 1000 }, VecDeque::from(args), sp())
}

fn eval(e: &Expr<Symbol, SymbolicType>, io: &mut Console) -> Result<Value, rac::diagnostics::Report> {
    let mut env: Environment<Value> = Environment::new();
    interpret_expr(e, &mut env, &empty_table(), io)
}

#[test]
fn print_int_and_print_string_write_lines() {
    let exprs = VecDeque::from(vec![
        call("Std.printInt", vec![Expr::IntLiteral(-42, sp())]),
        call("Std.printString", vec![Expr::StringLiteral("hi".to_string(), sp())]),
    ]);
    let program = SymbolicProgram { table: empty_table(), exprs };
    let mut io = Console::new(Vec::new());
    assert!(interpret(&program, &mut io).is_ok());
    assert_eq!(io.output, vec!["-42".to_string(), "hi".to_string()]);
}

#[test]
fn read_int_and_read_string_consume_lines() {
    let mut io = Console::new(vec!["7\n".to_string(), "hello\n".to_string()]);
    assert_eq!(eval(&call("Std.readInt", vec![]), &mut io).ok(), Some(Value::Int(7)));
    assert_eq!(eval(&call("Std.readString", vec![]), &mut io).ok(), Some(Value::String("hello".to_string())));
    let r = eval(&call("Std.readString", vec![]), &mut io).err().unwrap();
    assert_eq!(r.msg, "Could not read string.");
}

#[test]
fn read_int_rejects_text() {
    let mut io = Console::new(vec!["abc\n".to_string()]);
    let r = eval(&call("Std.readInt", vec![]), &mut io).err().unwrap();
    assert_eq!(r.msg, "Could not parse the input string as an integer.");
}

#[test]
fn builtin_arity_and_kind_errors() {
    let mut io = Console::new(Vec::new());
    let r = eval(&call("Std.printInt", vec![]), &mut io).err().unwrap();
    assert_eq!(r.msg, "The standard function `printInt` takes `1` argument, but was supplied `0`.");
    let r = eval(&call("Std.printString", vec![Expr::IntLiteral(3, sp())]), &mut io).err().unwrap();
    assert_eq!(r.msg, "The standard function `printString` takes an `string` argument, but was provided `3`.");
    let r = eval(&call("Std.readInt", vec![Expr::IntLiteral(3, sp())]), &mut io).err().unwrap();
    assert_eq!(r.msg, "The standard function `readInt` takes `0` arguments, but was supplied `1`.");
    assert!(io.output.is_empty());
}

#[test]
fn unknown_function_is_reported() {
    let mut io = Console::new(Vec::new());
    assert!(eval(&call("nowhere", vec![]), &mut io).is_err());
}

#[test]
fn parse_int_follows_i32() {
    assert_eq!(parse_int("123"), Some(123));
    assert_eq!(parse_int("-2147483648"), Some(-2147483648));
    assert_eq!(parse_int("+5"), Some(5));
    assert_eq!(parse_int("2147483648"), None);
    assert_eq!(parse_int(""), None);
    assert_eq!(parse_int("-"), None);
    assert_eq!(parse_int("1x"), None);
}

#[test]
fn values_show() {
    let v = Value::CaseClassValue(
        Symbol { name: "Pair".to_string(), id: 3 },
        vec![Box::new(Value::Int(1)), Box::new(Value::String("a".to_string()))],
    );
    assert_eq!(v.show(), "Pair_3(1, \"a\")");
    assert_eq!(Value::Bool(true).show(), "true");
    assert_eq!(Value::Unit.show(), "()");
}

#[test]
fn environment_reads_back_what_was_defined() {
    let mut env: Environment<i32> = Environment::new();
    env.define(1, 10);
    assert_eq!(env.lookup(1), None);
    env.push_scope();
    env.define(1, 10);
    assert_eq!(env.lookup(1), Some(10));
    env.push_scope();
    env.define_many(vec![(1, 20), (2, 30), (1, 40)]);
    assert_eq!(env.lookup(1), Some(40));
    assert_eq!(env.lookup(2), Some(30));
    env.pop_scope();
    assert_eq!(env.lookup(1), Some(10));
    assert_eq!(env.lookup(2), None);
    env.pop_scope();
    assert_eq!(env.lookup(1), Some(10));
}

#[test]
fn unknown_constructor_pattern_is_not_readable() {
    let pat = Pattern::ClassPattern(Symbol { name: "C".to_string(), id: 5 }, VecDeque::new(), sp());
    let e = Expr::Match(
        Box::new(Expr::IntLiteral(1, sp())),
        VecDeque::from(vec![(pat, Expr::IntLiteral(2, sp()))]),
        sp(),
    );
    let p = SymbolicProgram { table: empty_table(), exprs: VecDeque::from(vec![e]) };
    assert!(!program_ok(&p));
    let p2 = SymbolicProgram { table: empty_table(), exprs: VecDeque::from(vec![Expr::IntLiteral(1, sp())]) };
    assert!(program_ok(&p2));
}

#[test]
fn printed_integers_read_back() {
    for v in [0, 7, -42, 2147483647, -2147483648] {
        let program = SymbolicProgram {
            table: empty_table(),
            exprs: VecDeque::from(vec![call("Std.printInt", vec![Expr::IntLiteral(v, sp())])]),
        };
        let mut io = Console::new(Vec::new());
        assert!(interpret(&program, &mut io).is_ok());
        let line = format!("{}\n", io.output[0]);
        let mut reader = Console::new(vec![line]);
        assert_eq!(eval(&call("Std.readInt", vec![]), &mut reader).ok(), Some(Value::Int(v)));
    }
}

#[test]
fn the_console_keeps_what_was_printed() {
    let exprs = VecDeque::from(vec![
        call("Std.printString", vec![Expr::StringLiteral("a".to_string(), sp())]),
        call("Std.printInt", vec![]),
        call("Std.printString", vec![Expr::StringLiteral("b".to_string(), sp())]),
    ]);
    let program = SymbolicProgram { table: empty_table(), exprs };
    let mut io = Console::new(vec!["x\n".to_string()]);
    assert!(interpret(&program, &mut io).is_err());
    assert_eq!(io.output, vec!["a".to_string()]);
    assert_eq!(io.input, vec!["x\n".to_string()]);
    assert_eq!(io.next, 0);
}

#[test]
fn generator_hands_out_consecutive_ids() {
    let mut g = rac::ast::SymbolGenerator::new();
    let a = g.fresh("a".to_string());
    let b = g.fresh("b".to_string());
    let _ = g.fresh_type_var();
    let c = g.fresh("a".to_string());
    assert_eq!((a.id, b.id, c.id), (0, 1, 3));
    assert_eq!(g.next_id, 4);
}

#[test]
fn popping_a_scope_undoes_its_definitions() {
    let mut env: Environment<i32> = Environment::new();
    env.push_scope();
    env.define(1, 10);
    env.push_scope();
    env.define(1, 11);
    env.define_many(vec![(2, 20), (3, 30)]);
    env.define(4, 40);
    env.pop_scope();
    assert_eq!(env.lookup(1), Some(10));
    assert_eq!(env.lookup(2), None);
    assert_eq!(env.lookup(3), None);
    assert_eq!(env.lookup(4), None);
    env.pop_scope();
    assert_eq!(env.lookup(1), Some(10));
}
