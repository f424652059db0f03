use rac::ast::{Expr, NominalModule};
use rac::diagnostics::{Report, Stage};
use rac::parser::definition::parse;
use rac::parser::tokeniter::TokenIter;

fn parse_src(src: &str, tag: u8) -> Result<NominalModule, Report> {
    let b = src.as_bytes();
    let mut ts = TokenIter::new(b, b.len(), tag);
    parse(b, &mut ts)
}

fn parse_err(src: &str) -> Report {
    match parse_src(src, 0) {
        Ok(_) => panic!("expected a parse error"),
        Err(r) => r,
    }
}

#[test]
fn module_with_an_expression() {
    let m = parse_src("object Main\n  1 + 2 * 3\nend Main\n", 4).unwrap();
    assert_eq!(m.name, "Main");
    assert_eq!(m.id, 4);
    assert!(m.abstract_defs.is_empty() && m.class_defs.is_empty() && m.fun_defs.is_empty());
    let e = m.expr.as_ref().unwrap();
    assert!(matches!(e, Expr::Plus(_, _)));
    assert_eq!(e.show(0), "( 1 + ( 2 * 3 ) )");
    assert_eq!(m.show(), "object Main\n   ( 1 + ( 2 * 3 ) )\nend Main\n");
}

#[test]
fn module_without_an_expression() {
    let m = parse_src("object Empty end Empty", 0).unwrap();
    assert!(m.expr.is_none());
    assert_eq!(m.show(), "object Empty\nend Empty\n");
}

#[test]
fn definitions_are_sorted_by_kind() {
    let src = "object L\n  abstract class T\n  case class C(x: Int(32), s: String) extends T\n  def f(a: Boolean): Int(32) := 1 end f\nend L";
    let m = parse_src(src, 0).unwrap();
    assert_eq!(m.abstract_defs.len(), 1);
    assert_eq!(m.class_defs.len(), 1);
    assert_eq!(m.fun_defs.len(), 1);
    assert_eq!(m.abstract_defs[0].name, "T");
    assert_eq!(m.class_defs[0].parent, "T");
    assert_eq!(m.fun_defs[0].name, "f");
    assert_eq!(
        m.show(),
        "object L\n   abstract class T\n\n   case class C (s: String, x: Int(32)) extends T\n\n   def f (a: Boolean): Int(32) :=\n      1\n   end f\n\nend L\n"
    );
}

#[test]
fn precedence_and_associativity() {
    let m = parse_src("object M a - b - c || d && e == f < g end M", 0).unwrap();
    assert_eq!(
        m.expr.unwrap().show(0),
        "( ( ( a - b ) - c ) || ( d && ( e == ( f < g ) ) ) )"
    );
}

#[test]
fn if_and_match() {
    let src = "object M\n if (x < 2) then -x else !true end if; x match { case 1 => \"one\" case _ => \"other\" }\nend M";
    let m = parse_src(src, 0).unwrap();
    let e = m.expr.unwrap();
    assert!(matches!(e, Expr::Sequence(_, _)));
    assert_eq!(
        e.show(0),
        "if (( x < 2 )) {\n      -(x)\n   } else {\n      !(true)\n   };\n( x match {\n   1 => \"one\"\n   _ => \"other\"\n} )"
    );
}

#[test]
fn val_value_takes_the_whole_sequence() {
    // The value of a `val` is read as a sequence, so the semicolon that should end it is
    // taken into the value and the declaration then misses its semicolon.
    let r = parse_err("object M val x: Int(32) = 1; x end M");
    assert_eq!(r.msg, "Expected a semicolon after a `val` declaration.");
    assert_eq!((r.range.start, r.range.end), (31, 34));
}

#[test]
fn calls_and_qualified_names() {
    // The arguments of a call are collected last to first.
    let m = parse_src("object M Std.printInt(f(1, 2)) end M", 0).unwrap();
    assert_eq!(m.expr.unwrap().show(0), "Std.printInt(f(2, 1))");
}

#[test]
fn error_expression() {
    let m = parse_src("object M error(\"x\" ++ \"y\") end M", 0).unwrap();
    assert_eq!(m.expr.unwrap().show(0), "error(( \"x\" ++ \"y\" ))");
}

#[test]
fn missing_operand_is_reported() {
    let src = "object Main\n  1 +\nend Main";
    let r = parse_err(src);
    assert_eq!(r.stage, Stage::Parsing);
    assert_eq!(r.msg, "Unexpected token kind for a simple expression: KwEnd");
    assert_eq!((r.range.start, r.range.end), (18, 21));
}

#[test]
fn module_names_must_match() {
    let r = parse_err("object A\nend B");
    assert_eq!(r.msg, "The names at the start and end of a module must match.");
    assert_eq!((r.range.start, r.range.end), (13, 14));
}

#[test]
fn trailing_tokens_are_reported() {
    let r = parse_err("object A end A 3");
    assert_eq!(r.msg, "Unexpected token after the module definition.");
    assert_eq!((r.range.start, r.range.end), (15, 16));
}

#[test]
fn function_names_must_match() {
    let r = parse_err("object A def f(): Int(32) := 1 end g end A");
    assert_eq!(r.msg, "The names at the start and end of a function definition must match.");
}

#[test]
fn qualified_variables_are_rejected() {
    let r = parse_err("object A B.x end A");
    assert_eq!(r.msg, "Variable names cannot be quantified.");
}

#[test]
fn unclosed_if_is_reported() {
    let r = parse_err("object A if (true) then 1 else 2 end A");
    assert_eq!(r.msg, "An `if` statement must terminate with `end if`");
}

#[test]
fn integer_out_of_range_is_reported() {
    let r = parse_err("object A 99999999999 end A");
    assert_eq!(r.msg, "Could not parse this as an integer");
    assert_eq!((r.range.start, r.range.end), (9, 20));
}
