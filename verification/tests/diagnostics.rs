use rac::diagnostics::render::deliver_text;
use rac::diagnostics::{join, Report, Span, Stage};

fn report(stage: Stage, start: usize, end: usize, msg: &str) -> Report {
    Report { stage, range: Span::new(start, end, 0), msg: msg.to_string() }
}

#[test]
fn stage_names() {
    assert_eq!(Stage::Parsing.name(), "parsing");
    assert_eq!(Stage::Resolving.name(), "resolving");
    assert_eq!(Stage::Typechecking.name(), "type checking");
    assert_eq!(Stage::Interpreting.name(), "interpreting");
}

#[test]
fn join_takes_the_outer_ends() {
    let s = join(Span::new(3, 5, 1), Span::new(8, 12, 2));
    assert_eq!(s, Span { start: 3, end: 12, tag: 1 });
}

#[test]
fn report_in_the_middle_of_a_file() {
    let src = "object Main\n  foo\nend Main\n".as_bytes();
    let r = report(Stage::Parsing, 14, 17, "boom");
    assert_eq!(
        deliver_text(&r, "test.amy", src),
        "Error during the \x1b[34mparsing\x1b[0m stage.\n-> \x1b[34mtest.amy\x1b[0m:2:3\n\n\x1b[34m1   \x1b[0m  object Main\n\x1b[34m2   \x1b[0m    \x1b[31m!! foo !!\x1b[0m\n\x1b[34m3   \x1b[0m  end Main\n\nboom\n"
    );
}

#[test]
fn report_on_the_first_line() {
    let src = "object Main\n  foo\nend Main\n".as_bytes();
    let r = report(Stage::Resolving, 0, 6, "m");
    assert_eq!(
        deliver_text(&r, "f", src),
        "Error during the \x1b[34mresolving\x1b[0m stage.\n-> \x1b[34mf\x1b[0m:1:1\n\n\x1b[34m1   \x1b[0m  \x1b[31m!! object !!\x1b[0m Main\n\x1b[34m2   \x1b[0m    foo\n\nm\n"
    );
}

#[test]
fn report_on_the_last_line() {
    let src = "a\nbc".as_bytes();
    let r = report(Stage::Interpreting, 2, 4, "x");
    assert_eq!(
        deliver_text(&r, "g", src),
        "Error during the \x1b[34minterpreting\x1b[0m stage.\n-> \x1b[34mg\x1b[0m:2:1\n\n\x1b[34m1   \x1b[0m  a\n\x1b[34m2   \x1b[0m  \x1b[31m!! bc !!\x1b[0m\n\nx\n"
    );
}

#[test]
fn report_over_several_lines() {
    let src = "ab\ncd\nef\ngh\nij\n".as_bytes();
    let r = report(Stage::Typechecking, 4, 8, "y");
    assert_eq!(
        deliver_text(&r, "h", src),
        "Error during the \x1b[34mtype checking\x1b[0m stage.\n-> \x1b[34mh\x1b[0m:2:2\n\n\x1b[34m1   \x1b[0m  ab\n\x1b[34m2   \x1b[0m  c\x1b[31m!! d\nef !!\x1b[0m\n\x1b[34m4   \x1b[0m  ef\n\ny\n"
    );
}

#[test]
fn report_over_three_lines() {
    let src = "ab\ncd\nef\ngh\nij\n".as_bytes();
    let r = report(Stage::Parsing, 4, 11, "z");
    assert_eq!(
        deliver_text(&r, "k", src),
        "Error during the \x1b[34mparsing\x1b[0m stage.\n-> \x1b[34mk\x1b[0m:2:2\n\n\x1b[34m1   \x1b[0m  ab\n\x1b[34m2   \x1b[0m  c\x1b[31m!! d\n\x1b[34m3   \x1b[0m  ef\ngh !!\x1b[0m\n\x1b[34m5   \x1b[0m  ef\ngh\nij\n\nz\n"
    );
}

#[test]
fn long_line_numbers_are_not_padded() {
    let mut text = String::new();
    for _ in 0..12345 {
        text.push('\n');
    }
    text.push_str("x");
    let r = report(Stage::Parsing, 12345, 12346, "w");
    assert_eq!(
        deliver_text(&r, "n", text.as_bytes()),
        "Error during the \x1b[34mparsing\x1b[0m stage.\n-> \x1b[34mn\x1b[0m:12346:1\n\n\x1b[34m12345\x1b[0m  \n\x1b[34m12346\x1b[0m  \x1b[31m!! x !!\x1b[0m\n\nw\n"
    );
}
