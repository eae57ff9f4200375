//! The style linter: drives `chktex` over a document and parses its
//! line-oriented report into diagnostics.
//!
//! With the argument `-f%l:%c:%d:%k:%n:%m\n`, the tool prints one finding per
//! line in the shape `line:column:length:kind:code:message`. A line is
//! matched by searching it, left to right, for the first position where a
//! run of digits, twice more digits, twice a run of word characters — each
//! followed by a colon — begin; the rest of the line is the message. Lines
//! that match nowhere, and matched lines whose numbers are zero or too large
//! for the position arithmetic, are silently skipped: diagnostics are best
//! effort.

use vstd::prelude::*;

use crate::cache::{stored_diags, DiagnosticsCache};
use crate::diag::{opt_to_seq, Diagnostic, DiagnosticSeverity, DiagnosticView, Position, Range};
use crate::diagnostics::should_lint;
use crate::text::{
    digits_val, lemma_span_digits, lemma_span_line, parse_u64, scan_digits, scan_line, scan_word,
    span_digits, span_line, span_word, str_eq, strip_cr,
};
use crate::uri::Uri;

verus! {

/// Seconds that must pass between two invocations of the style linter.
pub const LATEX_LINT_INTERVAL_SECS: u64 = 60;

/// Whether the report grammar `digits:digits:digits:word:word:rest` matches
/// at position `i` of the line.
pub open spec fn style_match_at(s: Seq<char>, i: int) -> bool {
    let j1 = span_digits(s, i);
    let j2 = span_digits(s, j1 + 1);
    let j3 = span_digits(s, j2 + 1);
    let j4 = span_word(s, j3 + 1);
    let j5 = span_word(s, j4 + 1);
    &&& i < j1 < s.len() && s[j1] == ':'
    &&& j1 + 1 < j2 < s.len() && s[j2] == ':'
    &&& j2 + 1 < j3 < s.len() && s[j3] == ':'
    &&& j3 + 1 < j4 < s.len() && s[j4] == ':'
    &&& j4 + 1 < j5 < s.len() && s[j5] == ':'
}

/// The severity a kind word denotes: informational messages and warnings are
/// kept apart; every other kind is an error.
pub open spec fn style_severity(kind: Seq<char>) -> DiagnosticSeverity {
    if kind == "Message"@ {
        DiagnosticSeverity::Information
    } else if kind == "Warning"@ {
        DiagnosticSeverity::Warning
    } else {
        DiagnosticSeverity::Error
    }
}

/// The diagnostic denoted by a match at position `i`: the one-based line and
/// column are shifted to zero-based, and the range spans `length` columns.
/// A line or column of zero, or numbers too large for that arithmetic, yield
/// nothing.
pub open spec fn style_diag_at(s: Seq<char>, i: int) -> Option<DiagnosticView>
    recommends
        style_match_at(s, i),
{
    let j1 = span_digits(s, i);
    let j2 = span_digits(s, j1 + 1);
    let j3 = span_digits(s, j2 + 1);
    let j4 = span_word(s, j3 + 1);
    let j5 = span_word(s, j4 + 1);
    let lv = digits_val(s.subrange(i, j1));
    let cv = digits_val(s.subrange(j1 + 1, j2));
    let dv = digits_val(s.subrange(j2 + 1, j3));
    if 1 <= lv <= u64::MAX && 1 <= cv <= u64::MAX && dv <= u64::MAX && cv - 1 + dv <= u64::MAX {
        Some(
            DiagnosticView {
                range: Range {
                    start: Position { line: (lv - 1) as u64, character: (cv - 1) as u64 },
                    end: Position { line: (lv - 1) as u64, character: (cv - 1 + dv) as u64 },
                },
                severity: style_severity(s.subrange(j3 + 1, j4)),
                source: "chktex"@,
                code: Some(s.subrange(j4 + 1, j5)),
                message: s.subrange(j5 + 1, s.len() as int),
            },
        )
    } else {
        None
    }
}

/// The first position at or after `i` where the grammar matches.
pub open spec fn first_style_match(s: Seq<char>, i: int) -> Option<int>
    decreases s.len() - i,
{
    if i >= s.len() {
        None
    } else if style_match_at(s, i) {
        Some(i)
    } else {
        first_style_match(s, i + 1)
    }
}

/// What one report line yields: the diagnostic of its leftmost match, if any.
pub open spec fn style_line_diag(line: Seq<char>) -> Option<DiagnosticView> {
    match first_style_match(line, 0) {
        Some(i) => style_diag_at(line, i),
        None => None,
    }
}

/// The diagnostics of the whole report, reading it line by line from
/// position `pos` (lines end at a line feed; one trailing carriage return
/// per line is dropped).
pub open spec fn style_output_diags_from(s: Seq<char>, pos: int) -> Seq<DiagnosticView>
    decreases s.len() - pos,
{
    if pos < 0 || pos >= s.len() {
        Seq::empty()
    } else {
        let k = span_line(s, pos);
        if pos <= k < s.len() {
            opt_to_seq(style_line_diag(strip_cr(s.subrange(pos, k)))) + style_output_diags_from(
                s,
                k + 1,
            )
        } else {
            opt_to_seq(style_line_diag(strip_cr(s.subrange(pos, s.len() as int))))
        }
    }
}

/// The diagnostics of the whole report.
pub open spec fn style_output_diags(s: Seq<char>) -> Seq<DiagnosticView> {
    style_output_diags_from(s, 0)
}

/// Tries the grammar at one position: reports whether it matches there, and
/// if so the diagnostic it denotes.
fn try_style_at(line: &str, i: usize) -> (r: (bool, Option<Diagnostic>))
    requires
        i < line@.len(),
    ensures
        r.0 == style_match_at(line@, i as int),
        r.0 ==> r.1.deep_view() == style_diag_at(line@, i as int),
        !r.0 ==> r.1 is None,
{
    let n = line.unicode_len();
    let j1 = scan_digits(line, i);
    if !(j1 > i && j1 < n && line.get_char(j1) == ':') {
        return (false, None);
    }
    let j2 = scan_digits(line, j1 + 1);
    if !(j2 > j1 + 1 && j2 < n && line.get_char(j2) == ':') {
        return (false, None);
    }
    let j3 = scan_digits(line, j2 + 1);
    if !(j3 > j2 + 1 && j3 < n && line.get_char(j3) == ':') {
        return (false, None);
    }
    let j4 = scan_word(line, j3 + 1);
    if !(j4 > j3 + 1 && j4 < n && line.get_char(j4) == ':') {
        return (false, None);
    }
    let j5 = scan_word(line, j4 + 1);
    if !(j5 > j4 + 1 && j5 < n && line.get_char(j5) == ':') {
        return (false, None);
    }
    proof {
        lemma_span_digits(line@, i as int);
        lemma_span_digits(line@, j1 as int + 1);
        lemma_span_digits(line@, j2 as int + 1);
    }
    let lv = match parse_u64(line, i, j1) {
        Some(v) => v,
        None => {
            return (true, None);
        },
    };
    let cv = match parse_u64(line, j1 + 1, j2) {
        Some(v) => v,
        None => {
            return (true, None);
        },
    };
    let dv = match parse_u64(line, j2 + 1, j3) {
        Some(v) => v,
        None => {
            return (true, None);
        },
    };
    if lv == 0 || cv == 0 {
        return (true, None);
    }
    if dv > u64::MAX - (cv - 1) {
        return (true, None);
    }
    let kind = line.substring_char(j3 + 1, j4);
    let severity = if str_eq(kind, "Message") {
        DiagnosticSeverity::Information
    } else if str_eq(kind, "Warning") {
        DiagnosticSeverity::Warning
    } else {
        DiagnosticSeverity::Error
    };
    let code = line.substring_char(j4 + 1, j5).to_owned();
    let message = line.substring_char(j5 + 1, n).to_owned();
    let d = Diagnostic {
        range: Range::new_simple(lv - 1, cv - 1, lv - 1, cv - 1 + dv),
        severity,
        source: "chktex".to_owned(),
        code: Some(code),
        message,
    };
    (true, Some(d))
}

/// Parses one report line: the diagnostic of its leftmost match, if any.
pub fn parse_style_line(line: &str) -> (r: Option<Diagnostic>)
    ensures
        r.deep_view() == style_line_diag(line@),
{
    let n = line.unicode_len();
    let mut i: usize = 0;
    while i < n
        invariant
            0 <= i <= n,
            n == line@.len(),
            first_style_match(line@, 0) == first_style_match(line@, i as int),
        decreases n - i,
    {
        let (matched, d) = try_style_at(line, i);
        if matched {
            return d;
        }
        i = i + 1;
    }
    None
}

/// Parses a whole report into diagnostics, line by line, in order.
pub fn parse_style_output(text: &str) -> (r: Vec<Diagnostic>)
    ensures
        r.deep_view() == style_output_diags(text@),
{
    let n = text.unicode_len();
    let mut out: Vec<Diagnostic> = Vec::new();
    let mut pos: usize = 0;
    while pos < n
        invariant
            0 <= pos <= n,
            n == text@.len(),
            out.deep_view() + style_output_diags_from(text@, pos as int) == style_output_diags(
                text@,
            ),
        decreases n - pos,
    {
        let k = scan_line(text, pos);
        let end = if k > pos && text.get_char(k - 1) == '\r' {
            k - 1
        } else {
            k
        };
        let line = text.substring_char(pos, end);
        proof {
            lemma_span_line(text@, pos as int);
            assert(line@ =~= strip_cr(text@.subrange(pos as int, k as int)));
        }
        let ghost out0 = out.deep_view();
        let d = parse_style_line(line);
        match d {
            Some(diag) => out.push(diag),
            None => {},
        }
        proof {
            assert(out.deep_view() =~= out0 + opt_to_seq(style_line_diag(line@)));
        }
        let ghost oldpos = pos as int;
        if k < n {
            pos = k + 1;
        } else {
            pos = n;
        }
        proof {
            if k < n {
                assert(style_output_diags_from(text@, oldpos) == opt_to_seq(
                    style_line_diag(line@),
                ) + style_output_diags_from(text@, pos as int));
            } else {
                assert(text@.subrange(oldpos, text@.len() as int) == text@.subrange(
                    oldpos,
                    k as int,
                ));
                assert(style_output_diags_from(text@, oldpos) =~= opt_to_seq(
                    style_line_diag(line@),
                ) + style_output_diags_from(text@, pos as int));
            }
            assert((out0 + opt_to_seq(style_line_diag(line@))) + style_output_diags_from(
                text@,
                pos as int,
            ) =~= out0 + (opt_to_seq(style_line_diag(line@)) + style_output_diags_from(
                text@,
                pos as int,
            )));
        }
    }
    out
}

/// The style-linter provider: a per-document cache of the diagnostics last
/// produced, and one global throttle timestamp shared by all documents.
pub struct LatexDiagnosticsProvider {
    diagnostics_by_uri: DiagnosticsCache,
    last_lint_time: u64,
}

impl LatexDiagnosticsProvider {
    /// The cached diagnostics, per document identity.
    pub closed spec fn diagnostics(&self) -> Map<Seq<char>, Seq<DiagnosticView>> {
        self.diagnostics_by_uri@
    }

    /// When the tool last ran, in seconds.
    pub closed spec fn last_time(&self) -> u64 {
        self.last_lint_time
    }

    /// The cache keeps one entry per document.
    pub closed spec fn wf(&self) -> bool {
        self.diagnostics_by_uri.wf()
    }

    /// A provider that has never run its tool.
    pub fn new() -> (p: LatexDiagnosticsProvider)
        ensures
            p.wf(),
            p.diagnostics() == Map::<Seq<char>, Seq<DiagnosticView>>::empty(),
            p.last_time() == 0,
    {
        LatexDiagnosticsProvider { diagnostics_by_uri: DiagnosticsCache::new(), last_lint_time: 0 }
    }

    /// The diagnostics last produced for `uri`, or the empty set if it was
    /// never linted.
    pub fn get(&self, uri: &Uri) -> (r: Vec<Diagnostic>)
        requires
            self.wf(),
        ensures
            r.deep_view() == stored_diags(self.diagnostics(), uri@),
    {
        self.diagnostics_by_uri.get(uri)
    }

    /// A document changed at time `now`: decides whether the tool is due.
    /// Non-local documents never trigger it; otherwise it runs exactly when
    /// the configured interval has elapsed since the last pass, and the
    /// throttle timestamp is advanced. The cache is untouched either way;
    /// the caller runs the tool and hands its output to [`Self::record`].
    pub fn update(&mut self, uri: &Uri, now: u64) -> (invoke: bool)
        requires
            old(self).wf(),
        ensures
            final(self).wf(),
            invoke == should_lint(uri@, now, old(self).last_time(), LATEX_LINT_INTERVAL_SECS),
            final(self).diagnostics() == old(self).diagnostics(),
            invoke ==> final(self).last_time() == now,
            !invoke ==> final(self).last_time() == old(self).last_time(),
    {
        if !uri.is_local() {
            return false;
        }
        if now >= self.last_lint_time && now - self.last_lint_time >= LATEX_LINT_INTERVAL_SECS {
            self.last_lint_time = now;
            true
        } else {
            false
        }
    }

    /// Stores the outcome of one tool pass over `uri`: the parsed report, or
    /// the empty set when the tool could not be run or its output not read.
    /// The entry is replaced as a whole.
    pub fn record(&mut self, uri: &Uri, output: Option<&str>)
        requires
            old(self).wf(),
        ensures
            final(self).wf(),
            final(self).last_time() == old(self).last_time(),
            output matches Some(o) ==> final(self).diagnostics() == old(self).diagnostics().insert(
                uri@,
                style_output_diags(o@),
            ),
            output is None ==> final(self).diagnostics() == old(self).diagnostics().insert(
                uri@,
                Seq::<DiagnosticView>::empty(),
            ),
    {
        let diags = match output {
            Some(o) => parse_style_output(o),
            None => Vec::new(),
        };
        proof {
            if output is None {
                assert(diags.deep_view() =~= Seq::<DiagnosticView>::empty());
            }
        }
        self.diagnostics_by_uri.set(uri, diags);
    }
}

impl Default for LatexDiagnosticsProvider {
    /// Same as [`LatexDiagnosticsProvider::new`].
    fn default() -> (p: LatexDiagnosticsProvider)
        ensures
            p.wf(),
            p.diagnostics() == Map::<Seq<char>, Seq<DiagnosticView>>::empty(),
            p.last_time() == 0,
    {
        LatexDiagnosticsProvider::new()
    }
}

} // verus!
