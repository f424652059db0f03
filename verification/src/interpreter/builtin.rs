//! The standard functions of the interpreter, acting on a console whose input lines are
//! handed in and whose output lines are collected.
use vstd::prelude::*;
use crate::diagnostics::{Report, ReportV, Span, Stage};
use crate::interpreter::value::{Value, ValueV, show_value, value_view};
use crate::text::{cat, cat3, decimal, digit_char, int_to_string, nat_digits, nat_to_string};

verus! {

broadcast use vstd::std_specs::vec::group_vec_axioms;

/// The console: input lines as read (each with its line terminator), the index of the next
/// line to read, and the lines printed so far.
#[derive(Debug)]
pub struct Console {
    pub input: Vec<String>,
    pub next: usize,
    pub output: Vec<String>,
}

/// The model of the console.
pub struct ConsoleV {
    pub input: Seq<Seq<char>>,
    pub next: int,
    pub output: Seq<Seq<char>>,
}

impl View for Console {
    type V = ConsoleV;

    open spec fn view(&self) -> ConsoleV {
        ConsoleV {
            input: self.input@.map_values(|s: String| s@),
            next: self.next as int,
            output: self.output@.map_values(|s: String| s@),
        }
    }
}

impl Console {
    /// A console that will read `input`, line by line, and has printed nothing.
    pub fn new(input: Vec<String>) -> (c: Self)
        ensures
            c@.input == input@.map_values(|s: String| s@),
            c@.next == 0,
            c@.output == Seq::<Seq<char>>::empty(),
    {
        Console { input, next: 0, output: Vec::new() }
    }
}

/// The standard functions.
#[derive(Clone, Copy, Debug, PartialEq, Eq, Structural)]
pub enum Builtin {
    PrintInt,
    PrintString,
    ReadInt,
    ReadString,
}

// ---------------------------------------------------------------------------------------------
// Integer parsing (the syntax of `i32::from_str`: an optional sign, then decimal digits)
// ---------------------------------------------------------------------------------------------

pub open spec fn is_digit_char(c: char) -> bool {
    '0' <= c <= '9'
}

/// The value of a run of decimal digits.
pub open spec fn digits_value(s: Seq<char>) -> int
    decreases s.len(),
{
    if s.len() == 0 {
        0
    } else {
        digits_value(s.drop_last()) * 10 + (s.last() as int - '0' as int)
    }
}

/// The integer that `s` denotes, if `s` is an optional `+` or `-` followed by at least one
/// decimal digit and the value fits in an `i32`.
pub open spec fn all_digits(s: Seq<char>) -> bool {
    forall|i: int| 0 <= i < s.len() ==> is_digit_char(#[trigger] s[i])
}

/// `s` without its sign, if it has one.
pub open spec fn unsigned_part(s: Seq<char>) -> Seq<char> {
    if s.len() > 0 && (s[0] == '-' || s[0] == '+') { s.drop_first() } else { s }
}

pub open spec fn parse_i32(s: Seq<char>) -> Option<i32> {
    let neg = s.len() > 0 && s[0] == '-';
    let body = unsigned_part(s);
    let v = if neg { -digits_value(body) } else { digits_value(body) };
    if body.len() == 0 || !all_digits(body) {
        None
    } else if i32::MIN <= v <= i32::MAX {
        Some(v as i32)
    } else {
        None
    }
}

proof fn lemma_digits_value_nonneg(s: Seq<char>)
    requires
        forall|i: int| 0 <= i < s.len() ==> is_digit_char(#[trigger] s[i]),
    ensures
        digits_value(s) >= 0,
    decreases s.len(),
{
    if s.len() > 0 {
        lemma_digits_value_nonneg(s.drop_last());
    }
}

/// The digits of a natural number are digits, at least one, and denote the number.
proof fn lemma_nat_digits_value(n: nat)
    ensures
        nat_digits(n).len() >= 1,
        all_digits(nat_digits(n)),
        digits_value(nat_digits(n)) == n,
    decreases n,
{
    if n < 10 {
        let s = nat_digits(n);
        assert(s.drop_last() =~= Seq::<char>::empty());
        assert(digit_char(n as int) as int - '0' as int == n);
        assert(digits_value(s) == digits_value(s.drop_last()) * 10 + (s.last() as int - '0' as int));
    } else {
        lemma_nat_digits_value(n / 10);
        let s = nat_digits(n);
        assert(s.drop_last() =~= nat_digits(n / 10));
        let d = (n % 10) as int;
        assert(digit_char(d) as int - '0' as int == d);
        assert(is_digit_char(digit_char(d)));
        assert(n == (n / 10) * 10 + n % 10);
        assert(s.last() == digit_char(d));
        assert(digits_value(s) == digits_value(s.drop_last()) * 10 + (s.last() as int - '0' as int));
        assert(digits_value(s) == (n / 10) * 10 + d);
    }
}

/// Reading back the decimal text of an integer gives the integer: what `printInt` writes,
/// `readInt` reads as the same value.
pub proof fn law_parse_decimal(v: i32)
    ensures
        parse_i32(decimal(v as int)) == Some(v),
{
    if v < 0 {
        let m = (-(v as int)) as nat;
        lemma_nat_digits_value(m);
        assert(unsigned_part(decimal(v as int)) =~= nat_digits(m));
    } else {
        lemma_nat_digits_value(v as nat);
        let s = nat_digits(v as nat);
        assert(is_digit_char(s[0]));
        assert(unsigned_part(s) == s);
    }
}

/// Parses `s` as an `i32` (see `parse_i32`).
pub fn parse_int(s: &str) -> (r: Option<i32>)
    ensures
        r == parse_i32(s@),
{
    let n = s.unicode_len();
    let mut i: usize = 0;
    let mut neg = false;
    if n > 0 {
        let c0 = s.get_char(0);
        if c0 == '-' {
            neg = true;
            i = 1;
        } else if c0 == '+' {
            i = 1;
        }
    }
    let ghost body = s@.subrange(i as int, n as int);
    proof {
        if i == 1 {
            assert(body =~= s@.drop_first());
        } else {
            assert(body =~= s@);
        }
    }
    assert(s@.len() > 0 && (s@[0] == '-' || s@[0] == '+') ==> body == s@.drop_first());
    assert(!(s@.len() > 0 && (s@[0] == '-' || s@[0] == '+')) ==> body == s@);
    if i == n {
        return None;
    }
    let start = i;
    let bound: i64 = 4294967296;
    let mut acc: i64 = 0;
    while i < n
        invariant
            start <= i <= n,
            n == s@.len(),
            body == s@.subrange(start as int, n as int),
            body == unsigned_part(s@),
            neg == (s@.len() > 0 && s@[0] == '-'),
            forall|j: int| 0 <= j < i - start ==> is_digit_char(#[trigger] body[j]),
            acc == if digits_value(body.take(i - start)) < bound { digits_value(body.take(i - start)) } else { bound as int },
            0 <= acc <= bound,
            bound == 4294967296,
        decreases n - i,
    {
        let c = s.get_char(i);
        assert(body[i - start] == s@[i as int]);
        if !('0' <= c && c <= '9') {
            assert(!is_digit_char(body[i - start]));
            assert(!all_digits(body));
            assert(parse_i32(s@) is None);
            return None;
        }
        let d = (c as u32 - '0' as u32) as i64;
        assert(body.take(i + 1 - start).drop_last() =~= body.take(i - start));
        proof {
            lemma_digits_value_nonneg(body.take(i - start));
        }
        let next = acc * 10 + d;
        acc = if next < bound { next } else { bound };
        i += 1;
    }
    assert(body.take(n - start) =~= body);
    proof {
        lemma_digits_value_nonneg(body);
    }
    let v: i64 = if neg { -acc } else { acc };
    if -2147483648 <= v && v <= 2147483647 {
        Some(v as i32)
    } else {
        None
    }
}

// ---------------------------------------------------------------------------------------------
// The standard functions
// ---------------------------------------------------------------------------------------------

/// The line `line` as returned by the reader, without its last character (its terminator).
pub open spec fn strip_last(line: Seq<char>) -> Seq<char> {
    line.take(line.len() - 1)
}

/// A report of the interpreting stage.
pub open spec fn builtin_err(range: Span, msg: Seq<char>) -> ReportV {
    ReportV { stage: Stage::Interpreting, range, msg }
}

/// The report for a standard function `fname` given `n` arguments instead of `expected`.
pub open spec fn arity_msg(fname: Seq<char>, expected: Seq<char>, n: nat) -> Seq<char> {
    "The standard function `"@ + fname + "` takes `"@ + expected + ", but was supplied `"@ + nat_digits(n) + "`."@
}

/// The report for a standard function `fname` given an argument `v` of the wrong kind.
pub open spec fn kind_msg(fname: Seq<char>, kind: Seq<char>, v: ValueV) -> Seq<char> {
    "The standard function `"@ + fname + "` takes an `"@ + kind + "` argument, but was provided `"@ + show_value(v) + "`."@
}

/// What a standard function returns (a value, or the report) and the console after it.
pub open spec fn spec_builtin(b: Builtin, args: Seq<ValueV>, range: Span, io: ConsoleV) -> (Result<ValueV, ReportV>, ConsoleV) {
    match b {
        Builtin::PrintInt => if args.len() != 1 {
            (Err(builtin_err(range, arity_msg("printInt"@, "1` argument"@, args.len()))), io)
        } else {
            match args[0] {
                ValueV::Int(v) => (Ok(ValueV::Unit), ConsoleV { output: io.output.push(decimal(v as int)), ..io }),
                _ => (Err(builtin_err(range, kind_msg("printInt"@, "integer"@, args[0]))), io),
            }
        },
        Builtin::PrintString => if args.len() != 1 {
            (Err(builtin_err(range, arity_msg("printString"@, "1` argument"@, args.len()))), io)
        } else {
            match args[0] {
                ValueV::Str(s) => (Ok(ValueV::Unit), ConsoleV { output: io.output.push(s), ..io }),
                _ => (Err(builtin_err(range, kind_msg("printString"@, "string"@, args[0]))), io),
            }
        },
        Builtin::ReadInt => if args.len() != 0 {
            (Err(builtin_err(range, arity_msg("readInt"@, "0` arguments"@, args.len()))), io)
        } else if io.next < 0 || io.next >= io.input.len() || io.input[io.next].len() == 0 {
            (Err(builtin_err(range, "Could not read string."@)), io)
        } else {
            let io2 = ConsoleV { next: io.next + 1, ..io };
            match parse_i32(strip_last(io.input[io.next])) {
                Some(v) => (Ok(ValueV::Int(v)), io2),
                None => (Err(builtin_err(range, "Could not parse the input string as an integer."@)), io2),
            }
        },
        Builtin::ReadString => if args.len() != 0 {
            (Err(builtin_err(range, arity_msg("readString"@, "0` arguments"@, args.len()))), io)
        } else if io.next < 0 || io.next >= io.input.len() || io.input[io.next].len() == 0 {
            (Err(builtin_err(range, "Could not read string."@)), io)
        } else {
            (Ok(ValueV::Str(strip_last(io.input[io.next]))), ConsoleV { next: io.next + 1, ..io })
        },
    }
}

/// The report of a standard function `fname` given `n` arguments instead of `expected`.
fn arity_error(range: Span, fname: &str, expected: &str, n: usize) -> (r: Report)
    ensures
        r@ == builtin_err(range, arity_msg(fname@, expected@, n as nat)),
{
    let mut m = cat3("The standard function `", fname, "` takes `");
    m.append(expected);
    m.append(", but was supplied `");
    m.append(nat_to_string(n as u64).as_str());
    m.append("`.");
    Report { stage: Stage::Interpreting, range, msg: m }
}

/// The report of a standard function `fname` given an argument `v` of the wrong kind.
fn kind_error(range: Span, fname: &str, kind: &str, v: &Value) -> (r: Report)
    ensures
        r@ == builtin_err(range, kind_msg(fname@, kind@, v@)),
{
    let mut m = cat3("The standard function `", fname, "` takes an `");
    m.append(kind);
    m.append("` argument, but was provided `");
    m.append(v.show().as_str());
    m.append("`.");
    Report { stage: Stage::Interpreting, range, msg: m }
}

fn report(range: Span, msg: String) -> (r: Report)
    ensures
        r@ == builtin_err(range, msg@),
{
    Report { stage: Stage::Interpreting, range, msg }
}

/// Reads the next input line without its terminator; `None` at the end of the input (where
/// the reader reports nothing read).
fn read_line(io: &mut Console) -> (r: Option<String>)
    ensures
        old(io)@.next < 0 || old(io)@.next >= old(io)@.input.len() || old(io)@.input[old(io)@.next].len() == 0
            ==> r is None && final(io)@ == old(io)@,
        !(old(io)@.next < 0 || old(io)@.next >= old(io)@.input.len() || old(io)@.input[old(io)@.next].len() == 0)
            ==> (r matches Some(s) && s@ == strip_last(old(io)@.input[old(io)@.next])
                && final(io)@ == (ConsoleV { next: old(io)@.next + 1, ..old(io)@ })),
{
    if io.next >= io.input.len() {
        return None;
    }
    let line = io.input[io.next].as_str();
    let n = line.unicode_len();
    if n == 0 {
        return None;
    }
    let s = line.substring_char(0, n - 1).to_owned();
    io.next = io.next + 1;
    proof {
        assert(final(io)@ =~= (ConsoleV { next: old(io)@.next + 1, ..old(io)@ }));
    }
    Some(s)
}

/// `debug(v)`: prints the text of any value `v` on a line of its own.
pub fn debug(args: Vec<Value>, range: Span, io: &mut Console) -> (r: Result<Value, Report>)
    ensures
        args@.len() != 1 ==> (r matches Err(e) && e@ == builtin_err(range, arity_msg("debug"@, "1` argument"@, args@.len())))
            && final(io)@ == old(io)@,
        args@.len() == 1 ==> (r matches Ok(v) && v@ == ValueV::Unit)
            && final(io)@ == (ConsoleV { output: old(io)@.output.push(show_value(args@[0]@)), ..old(io)@ }),
{
    if args.len() != 1 {
        return Err(arity_error(range, "debug", "1` argument", args.len()));
    }
    io.output.push(args[0].show());
    proof {
        assert(final(io)@.output =~= old(io)@.output.push(show_value(args@[0]@)));
        assert(final(io)@ =~= (ConsoleV { output: old(io)@.output.push(show_value(args@[0]@)), ..old(io)@ }));
    }
    Ok(Value::Unit)
}

/// `printInt(i)`: prints the integer `i` on a line of its own.
pub fn print_int(args: Vec<Value>, range: Span, io: &mut Console) -> (r: Result<Value, Report>)
    ensures
        spec_builtin(Builtin::PrintInt, args@.map_values(|v: Value| v@), range, old(io)@) == (
        match r {
            Ok(v) => Ok(v@),
            Err(e) => Err(e@),
        }, final(io)@),
        r matches Err(e) ==> e.stage == Stage::Interpreting,
{
    if args.len() != 1 {
        return Err(arity_error(range, "printInt", "1` argument", args.len()));
    }
    match &args[0] {
        Value::Int(v) => {
            io.output.push(int_to_string(*v as i64));
            proof {
                assert(final(io)@.output =~= old(io)@.output.push(decimal(*v as int)));
            }
            Ok(Value::Unit)
        },
        v => Err(kind_error(range, "printInt", "integer", v)),
    }
}

/// `printString(s)`: prints the string `s` on a line of its own.
pub fn print_string(args: Vec<Value>, range: Span, io: &mut Console) -> (r: Result<Value, Report>)
    ensures
        spec_builtin(Builtin::PrintString, args@.map_values(|v: Value| v@), range, old(io)@) == (
        match r {
            Ok(v) => Ok(v@),
            Err(e) => Err(e@),
        }, final(io)@),
        r matches Err(e) ==> e.stage == Stage::Interpreting,
{
    if args.len() != 1 {
        return Err(arity_error(range, "printString", "1` argument", args.len()));
    }
    match &args[0] {
        Value::String(s) => {
            io.output.push(s.clone());
            proof {
                assert(final(io)@.output =~= old(io)@.output.push(s@));
            }
            Ok(Value::Unit)
        },
        v => Err(kind_error(range, "printString", "string", v)),
    }
}

/// `readInt()`: reads a line and parses it as an integer.
pub fn read_int(args: Vec<Value>, range: Span, io: &mut Console) -> (r: Result<Value, Report>)
    ensures
        spec_builtin(Builtin::ReadInt, args@.map_values(|v: Value| v@), range, old(io)@) == (
        match r {
            Ok(v) => Ok(v@),
            Err(e) => Err(e@),
        }, final(io)@),
        r matches Err(e) ==> e.stage == Stage::Interpreting,
{
    if args.len() != 0 {
        return Err(arity_error(range, "readInt", "0` arguments", args.len()));
    }
    match read_line(io) {
        Some(line) => match parse_int(line.as_str()) {
            Some(v) => Ok(Value::Int(v)),
            None => Err(report(range, "Could not parse the input string as an integer.".to_owned())),
        },
        None => Err(report(range, "Could not read string.".to_owned())),
    }
}

/// `readString()`: reads a line.
pub fn read_string(args: Vec<Value>, range: Span, io: &mut Console) -> (r: Result<Value, Report>)
    ensures
        spec_builtin(Builtin::ReadString, args@.map_values(|v: Value| v@), range, old(io)@) == (
        match r {
            Ok(v) => Ok(v@),
            Err(e) => Err(e@),
        }, final(io)@),
        r matches Err(e) ==> e.stage == Stage::Interpreting,
{
    if args.len() != 0 {
        return Err(arity_error(range, "readString", "0` arguments", args.len()));
    }
    match read_line(io) {
        Some(line) => Ok(Value::String(line)),
        None => Err(report(range, "Could not read string.".to_owned())),
    }
}

} // verus!
