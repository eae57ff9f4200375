//! The diagnostic data model: a positioned, severity-tagged finding about a
//! document, attributed to a source tool.

use vstd::prelude::*;

verus! {

/// A zero-based line/column position inside a document.
#[derive(Debug, Clone, Copy, PartialEq, Eq, Structural)]
pub struct Position {
    pub line: u64,
    pub character: u64,
}

/// A half-open region of a document, from `start` up to `end`.
#[derive(Debug, Clone, Copy, PartialEq, Eq, Structural)]
pub struct Range {
    pub start: Position,
    pub end: Position,
}

impl Range {
    /// Builds a range from its four coordinates.
    pub fn new_simple(start_line: u64, start_character: u64, end_line: u64, end_character: u64) -> (r:
        Range)
        ensures
            r.start.line == start_line,
            r.start.character == start_character,
            r.end.line == end_line,
            r.end.character == end_character,
    {
        Range {
            start: Position { line: start_line, character: start_character },
            end: Position { line: end_line, character: end_character },
        }
    }
}

/// How severe a finding is.
#[derive(Debug, Clone, Copy, PartialEq, Eq, Structural)]
pub enum DiagnosticSeverity {
    Error,
    Warning,
    Information,
    Hint,
}

/// A single finding: where it is, how severe it is, which tool produced it,
/// an optional tool-specific code, and a human-readable message.
#[derive(Debug, Clone, PartialEq, Eq)]
pub struct Diagnostic {
    pub range: Range,
    pub severity: DiagnosticSeverity,
    pub source: String,
    pub code: Option<String>,
    pub message: String,
}

/// The mathematical value of a [`Diagnostic`]: its text fields as character
/// sequences.
pub struct DiagnosticView {
    pub range: Range,
    pub severity: DiagnosticSeverity,
    pub source: Seq<char>,
    pub code: Option<Seq<char>>,
    pub message: Seq<char>,
}

impl View for Diagnostic {
    type V = DiagnosticView;

    open spec fn view(&self) -> DiagnosticView {
        DiagnosticView {
            range: self.range,
            severity: self.severity,
            source: self.source@,
            code: match self.code {
                Some(c) => Some(c@),
                None => None,
            },
            message: self.message@,
        }
    }
}

impl DeepView for Diagnostic {
    type V = DiagnosticView;

    open spec fn deep_view(&self) -> DiagnosticView {
        self.view()
    }
}

impl Diagnostic {
    /// An identical copy, with its value pinned down.
    pub fn duplicate(&self) -> (r: Diagnostic)
        ensures
            r@ == self@,
    {
        Diagnostic {
            range: self.range,
            severity: self.severity,
            source: self.source.clone(),
            code: match &self.code {
                Some(c) => Some(c.clone()),
                None => None,
            },
            message: self.message.clone(),
        }
    }
}

/// An optional finding as a sequence: one element if present, none otherwise.
pub open spec fn opt_to_seq<T>(o: Option<T>) -> Seq<T> {
    match o {
        Some(x) => seq![x],
        None => Seq::empty(),
    }
}

/// Copies a list of diagnostics, value for value.
pub fn duplicate_diags(v: &Vec<Diagnostic>) -> (r: Vec<Diagnostic>)
    ensures
        r.deep_view() == v.deep_view(),
{
    let mut r: Vec<Diagnostic> = Vec::new();
    let n = v.len();
    let mut i: usize = 0;
    while i < n
        invariant
            0 <= i <= n,
            n == v@.len(),
            r@.len() == i,
            forall|k: int| 0 <= k < i ==> r@[k].deep_view() == v@[k].deep_view(),
        decreases n - i,
    {
        r.push(v[i].duplicate());
        i = i + 1;
    }
    proof {
        assert(r.deep_view() =~= v.deep_view());
    }
    r
}

} // verus!
