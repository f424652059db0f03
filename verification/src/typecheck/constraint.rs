//! Type equality constraints.
use vstd::prelude::*;
use crate::ast::{SymbolicType, TypeV, type_text};
use crate::diagnostics::Span;

verus! {

/// The constraint that the type `found` at `range` equals the type `expected`.
#[derive(Debug)]
pub struct Constraint {
    pub expected: SymbolicType,
    pub found: SymbolicType,
    pub range: Span,
}

/// The model of a constraint.
pub struct ConstraintV {
    pub expected: TypeV,
    pub found: TypeV,
    pub range: Span,
}

impl View for Constraint {
    type V = ConstraintV;

    open spec fn view(&self) -> ConstraintV {
        ConstraintV { expected: self.expected@, found: self.found@, range: self.range }
    }
}

impl Constraint {
    pub fn new(expected: SymbolicType, found: SymbolicType, range: Span) -> (c: Self)
        ensures
            c.expected == expected,
            c.found == found,
            c.range == range,
    {
        Self { expected, found, range }
    }

    /// `expected = found`, each type by its text.
    pub fn show(&self) -> (s: String)
        ensures
            s@ == type_text(self.expected@) + " = "@ + type_text(self.found@),
    {
        proof {
            reveal_strlit(" = ");
        }
        let mut s = self.expected.show();
        s.append(" = ");
        s.append(self.found.show().as_str());
        s
    }
}

} // verus!
