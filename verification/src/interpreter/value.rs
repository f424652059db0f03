//! Runtime values of the interpreter and their mathematical model.
use vstd::prelude::*;
use crate::ast::{SID, Symbol};
use crate::text::{decimal, int_to_string, nat_to_string};

verus! {

broadcast use vstd::std_specs::vec::group_vec_axioms;

/// A runtime value.
#[derive(Debug, PartialEq, Eq)]
pub enum Value {
    Bool(bool),
    CaseClassValue(Symbol, Vec<Box<Value>>),
    Int(i32),
    String(String),
    Unit,
}

/// The model of a value: strings by their characters, a constructor by its name and identifier.
pub enum ValueV {
    Bool(bool),
    CaseClass(Seq<char>, SID, Seq<ValueV>),
    Int(i32),
    Str(Seq<char>),
    Unit,
}

/// The models of `args[i..]`.
pub open spec fn args_view(args: Vec<Box<Value>>, i: int) -> Seq<ValueV>
    decreases args, args@.len() - i,
{
    if 0 <= i < args@.len() {
        seq![value_view(*args@[i])] + args_view(args, i + 1)
    } else {
        Seq::empty()
    }
}

/// The model of a value.
pub open spec fn value_view(v: Value) -> ValueV
    decreases v, 0nat,
{
    match v {
        Value::Bool(b) => ValueV::Bool(b),
        Value::CaseClassValue(s, args) => ValueV::CaseClass(s.name@, s.id, args_view(args, 0)),
        Value::Int(i) => ValueV::Int(i),
        Value::String(s) => ValueV::Str(s@),
        Value::Unit => ValueV::Unit,
    }
}

impl View for Value {
    type V = ValueV;

    open spec fn view(&self) -> ValueV {
        value_view(*self)
    }
}

/// `args_view` has one model per element, in order.
pub proof fn lemma_args_view(args: Vec<Box<Value>>, i: int)
    requires
        0 <= i <= args@.len(),
    ensures
        args_view(args, i).len() == args@.len() - i,
        forall|j: int| 0 <= j < args@.len() - i ==> #[trigger] args_view(args, i)[j] == value_view(
            *args@[i + j],
        ),
    decreases args@.len() - i,
{
    if i < args@.len() {
        lemma_args_view(args, i + 1);
        assert forall|j: int| 0 <= j < args@.len() - i implies #[trigger] args_view(args, i)[j]
            == value_view(*args@[i + j]) by {
            if j > 0 {
                assert(args_view(args, i)[j] == args_view(args, i + 1)[j - 1]);
            }
        }
    }
}

/// The models of a vector of boxed values.
pub open spec fn boxed_views(args: Seq<Box<Value>>) -> Seq<ValueV> {
    Seq::new(args.len(), |j: int| value_view(*args[j]))
}

pub proof fn lemma_args_view_boxed(args: Vec<Box<Value>>)
    ensures
        args_view(args, 0) == boxed_views(args@),
{
    lemma_args_view(args, 0);
    assert(args_view(args, 0) =~= boxed_views(args@));
}

/// The text of a value, as in messages: strings are quoted, constructors show their symbol.
pub open spec fn show_value(v: ValueV) -> Seq<char>
    decreases v,
{
    match v {
        ValueV::Bool(b) => if b { "true"@ } else { "false"@ },
        ValueV::Int(i) => decimal(i as int),
        ValueV::Str(s) => seq!['"'] + s + seq!['"'],
        ValueV::Unit => "()"@,
        ValueV::CaseClass(name, id, args) => name + seq!['_'] + decimal(id as int) + seq!['(']
            + show_args(args) + seq![')'],
    }
}

/// The texts of values separated by `, `.
pub open spec fn show_args(args: Seq<ValueV>) -> Seq<char>
    decreases args,
{
    if args.len() == 0 {
        Seq::empty()
    } else if args.len() == 1 {
        show_value(args[0])
    } else {
        show_value(args[0]) + ", "@ + show_args(args.drop_first())
    }
}

/// A copy of a value.
pub fn copy_value(v: &Value) -> (r: Value)
    ensures
        r@ == v@,
    decreases v,
{
    match v {
        Value::Bool(b) => Value::Bool(*b),
        Value::Int(i) => Value::Int(*i),
        Value::String(s) => Value::String(s.clone()),
        Value::Unit => Value::Unit,
        Value::CaseClassValue(s, args) => {
            let mut out: Vec<Box<Value>> = Vec::new();
            let mut i: usize = 0;
            while i < args.len()
                invariant
                    i <= args@.len(),
                    out@.len() == i,
                    forall|j: int| 0 <= j < i ==> value_view(*#[trigger] out@[j]) == value_view(*args@[j]),
                    *v == Value::CaseClassValue(*s, *args),
                decreases args.len() - i,
            {
                proof {
                    assert(decreases_to!(*v => (*v)->CaseClassValue_1));
                    assert(decreases_to!(*args => args@[i as int]));
                }
                let c = copy_value(&args[i]);
                out.push(Box::new(c));
                i += 1;
            }
            proof {
                lemma_args_view(*args, 0);
                lemma_args_view(out, 0);
                assert(args_view(out, 0) =~= args_view(*args, 0));
            }
            Value::CaseClassValue(s.duplicate(), out)
        },
    }
}

impl Clone for Value {
    fn clone(&self) -> (r: Self)
        ensures
            r@ == self@,
    {
        copy_value(self)
    }
}

/// Whether two values are equal (the same model).
pub fn value_eq(a: &Value, b: &Value) -> (r: bool)
    ensures
        r == (a@ == b@),
    decreases a,
{
    match (a, b) {
        (Value::Bool(x), Value::Bool(y)) => *x == *y,
        (Value::Int(x), Value::Int(y)) => *x == *y,
        (Value::String(x), Value::String(y)) => *x == *y,
        (Value::Unit, Value::Unit) => true,
        (Value::CaseClassValue(s1, a1), Value::CaseClassValue(s2, a2)) => {
            proof {
                lemma_args_view(*a1, 0);
                lemma_args_view(*a2, 0);
            }
            if s1.id != s2.id || s1.name != s2.name || a1.len() != a2.len() {
                return false;
            }
            let mut i: usize = 0;
            while i < a1.len()
                invariant
                    i <= a1@.len(),
                    a1@.len() == a2@.len(),
                    args_view(*a1, 0).len() == a1@.len(),
                    args_view(*a2, 0).len() == a2@.len(),
                    forall|j: int| 0 <= j < a1@.len() ==> #[trigger] args_view(*a1, 0)[j] == value_view(*a1@[j]),
                    forall|j: int| 0 <= j < a2@.len() ==> #[trigger] args_view(*a2, 0)[j] == value_view(*a2@[j]),
                    forall|j: int| 0 <= j < i ==> value_view(*a1@[j]) == value_view(*a2@[j]),
                    *a == Value::CaseClassValue(*s1, *a1),
                    *b == Value::CaseClassValue(*s2, *a2),
                decreases a1.len() - i,
            {
                proof {
                    assert(decreases_to!(*a => (*a)->CaseClassValue_1));
                    assert(decreases_to!(*a1 => a1@[i as int]));
                }
                if !value_eq(&a1[i], &a2[i]) {
                    assert(args_view(*a1, 0)[i as int] != args_view(*a2, 0)[i as int]);
                    proof {
                        if a@ == b@ {
                            assert(args_view(*a1, 0) == args_view(*a2, 0));
                        }
                    }
                    return false;
                }
                i += 1;
            }
            assert(args_view(*a1, 0) =~= args_view(*a2, 0));
            true
        },
        _ => false,
    }
}

impl Value {
    /// The text of this value, as in messages (see `show_value`).
    pub fn show(&self) -> (s: String)
        ensures
            s@ == show_value(self@),
        decreases self,
    {
        match self {
            Value::Bool(b) => {
                if *b {
                    "true".to_owned()
                } else {
                    "false".to_owned()
                }
            },
            Value::Int(i) => int_to_string(*i as i64),
            Value::String(v) => {
                let mut s = "\"".to_owned();
                s.append(v.as_str());
                s.append("\"");
                proof {
                    reveal_strlit("\"");
                    assert(s@ =~= seq!['"'] + v@ + seq!['"']);
                }
                s
            },
            Value::Unit => "()".to_owned(),
            Value::CaseClassValue(sym, args) => {
                let mut s = sym.name.clone();
                s.append("_");
                s.append(nat_to_string(sym.id).as_str());
                s.append("(");
                proof {
                    reveal_strlit("_");
                    reveal_strlit("(");
                    lemma_args_view(*args, 0);
                    assert(boxed_views(args@) =~= args_view(*args, 0));
                }
                let ghost all = boxed_views(args@);
                let ghost pre = s@;
                let mut i: usize = 0;
                proof {
                    assert(all.skip(0) =~= all);
                    assert(s@.subrange(pre.len() as int, s@.len() as int) =~= Seq::<char>::empty());
                    assert(s@.subrange(0, pre.len() as int) =~= pre);
                }
                while i < args.len()
                    invariant
                        i <= args@.len(),
                        all == boxed_views(args@),
                        all.len() == args@.len(),
                        *self == Value::CaseClassValue(*sym, *args),
                        show_args(all) == s@.subrange(pre.len() as int, s@.len() as int) + show_args(all.skip(i as int)),
                        s@.subrange(0, pre.len() as int) == pre,
                        pre.len() <= s@.len(),
                    decreases args.len() - i,
                {
                    proof {
                        assert(decreases_to!(*self => (*self)->CaseClassValue_1));
                        assert(decreases_to!(*args => args@[i as int]));
                    }
                    let ghost before = s@;
                    let t = args[i].show();
                    s.append(t.as_str());
                    if i + 1 < args.len() {
                        s.append(", ");
                    }
                    proof {
                        let rest = all.skip(i as int);
                        assert(rest[0] == value_view(*args@[i as int]));
                        assert(rest.drop_first() =~= all.skip(i + 1));
                        let mid = before.subrange(pre.len() as int, before.len() as int);
                        let now = s@.subrange(pre.len() as int, s@.len() as int);
                        if i + 1 < args.len() {
                            assert(now =~= mid + t@ + ", "@);
                        } else {
                            assert(now =~= mid + t@);
                            assert(all.skip(i + 1) =~= Seq::<ValueV>::empty());
                        }
                        assert(s@.subrange(0, pre.len() as int) =~= before.subrange(0, pre.len() as int));
                    }
                    i += 1;
                }
                proof {
                    assert(all.skip(i as int) =~= Seq::<ValueV>::empty());
                    assert(s@ =~= pre + s@.subrange(pre.len() as int, s@.len() as int));
                }
                s.append(")");
                proof {
                    reveal_strlit(")");
                }
                s
            },
        }
    }
}

} // verus!
