//! Diagnostics: source spans, the stages of the pipeline, reports, and the text that shows a
//! report against its source.
use vstd::prelude::*;

pub mod render;

verus! {

/// Identifier of a source module (the tag carried by every span of that module).
pub type MID = u8;

/// A half-open byte range `[start, end)` in the source module `tag`.
#[derive(Clone, Copy, Debug, PartialEq, Eq, Structural)]
pub struct Span {
    pub start: usize,
    pub end: usize,
    pub tag: MID,
}

impl Span {
    pub fn new(start: usize, end: usize, tag: MID) -> (s: Self)
        ensures
            s == (Span { start, end, tag }),
    {
        Span { start, end, tag }
    }
}

/// The span from the start of `s1` to the end of `s2`, in the module of `s1`.
pub open spec fn spec_join(s1: Span, s2: Span) -> Span {
    Span { start: s1.start, end: s2.end, tag: s1.tag }
}

pub fn join(s1: Span, s2: Span) -> (s: Span)
    ensures
        s == spec_join(s1, s2),
{
    Span { start: s1.start, end: s2.end, tag: s1.tag }
}

/// The stage of the pipeline at which a diagnostic was produced.
#[derive(Clone, Copy, Debug, PartialEq, Eq, Structural)]
pub enum Stage {
    Parsing,
    Resolving,
    Typechecking,
    Interpreting,
}

/// The name of a stage as it appears in a report.
pub open spec fn stage_name(s: Stage) -> Seq<char> {
    match s {
        Stage::Parsing => "parsing"@,
        Stage::Resolving => "resolving"@,
        Stage::Typechecking => "type checking"@,
        Stage::Interpreting => "interpreting"@,
    }
}

impl Stage {
    /// The name of this stage (see `stage_name`).
    pub fn name(&self) -> (s: &'static str)
        ensures
            s@ == stage_name(*self),
    {
        proof {
            reveal_strlit("parsing");
            reveal_strlit("resolving");
            reveal_strlit("type checking");
            reveal_strlit("interpreting");
        }
        match self {
            Stage::Parsing => "parsing",
            Stage::Resolving => "resolving",
            Stage::Typechecking => "type checking",
            Stage::Interpreting => "interpreting",
        }
    }
}

/// A diagnostic: the stage, the offending range and a message.
#[derive(Debug)]
pub struct Report {
    pub stage: Stage,
    pub range: Span,
    pub msg: String,
}

/// The model of a diagnostic: its message by its characters.
pub struct ReportV {
    pub stage: Stage,
    pub range: Span,
    pub msg: Seq<char>,
}

impl View for Report {
    type V = ReportV;

    open spec fn view(&self) -> ReportV {
        ReportV { stage: self.stage, range: self.range, msg: self.msg@ }
    }
}

} // verus!
