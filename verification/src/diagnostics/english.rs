//! The spell checker: drives `hunspell` over a document and parses its
//! per-word report into diagnostics.
//!
//! In pipe mode the tool prints one line per input word: lines opening with
//! `*` mark correct words and are ignored, and only lines opening with `&`
//! or `#` are read further. Such a line is searched, left to right, for the
//! first position shaped `<mark> <word> <digits> <digits>: <suggestion>`,
//! where the mark is `&`, `|` or `#` and word and suggestion are runs of
//! letters. The word's length and the two numbers place the finding; the
//! first suggestion is quoted in the message. Lines that match nowhere, and
//! matched lines whose numbers are zero or too large for the position
//! arithmetic, are silently skipped: diagnostics are best effort.

use vstd::prelude::*;

use crate::cache::{stored_diags, DiagnosticsCache};
use crate::diag::{opt_to_seq, Diagnostic, DiagnosticSeverity, DiagnosticView, Position, Range};
use crate::diagnostics::should_lint;
use crate::text::{
    digits_val, lemma_span_alpha, lemma_span_digits, lemma_span_line, parse_u64, scan_alpha,
    scan_digits, scan_line, span_alpha, span_digits, span_line, strip_cr,
};
use crate::uri::Uri;

verus! {

/// Seconds that must pass between two invocations of the spell checker.
pub const ENGLISH_LINT_INTERVAL_SECS: u64 = 10;

/// Whether the report grammar `<mark> <word> <digits> <digits>: <letters>`
/// matches at position `i` of the line.
pub open spec fn spell_match_at(s: Seq<char>, i: int) -> bool {
    let j1 = span_alpha(s, i + 2);
    let j2 = span_digits(s, j1 + 1);
    let j3 = span_digits(s, j2 + 1);
    let j4 = span_alpha(s, j3 + 2);
    &&& 0 <= i && i + 1 < s.len()
    &&& (s[i] == '&' || s[i] == '|' || s[i] == '#')
    &&& s[i + 1] == ' '
    &&& i + 2 < j1 < s.len() && s[j1] == ' '
    &&& j1 + 1 < j2 < s.len() && s[j2] == ' '
    &&& j2 + 1 < j3 < s.len() && s[j3] == ':'
    &&& j3 + 1 < s.len() && s[j3 + 1] == ' '
    &&& j3 + 2 < j4
}

/// The diagnostic denoted by a match at position `i`: the one-based line is
/// shifted to zero-based, the column is kept as printed, and the range spans
/// the misspelled word. A line number of zero, or numbers too large for the
/// position arithmetic, yield nothing.
pub open spec fn spell_diag_at(s: Seq<char>, i: int) -> Option<DiagnosticView>
    recommends
        spell_match_at(s, i),
{
    let j1 = span_alpha(s, i + 2);
    let j2 = span_digits(s, j1 + 1);
    let j3 = span_digits(s, j2 + 1);
    let j4 = span_alpha(s, j3 + 2);
    let wl = j1 - (i + 2);
    let lv = digits_val(s.subrange(j1 + 1, j2));
    let cv = digits_val(s.subrange(j2 + 1, j3));
    if 1 <= lv <= u64::MAX && cv <= u64::MAX && cv + wl <= u64::MAX {
        Some(
            DiagnosticView {
                range: Range {
                    start: Position { line: (lv - 1) as u64, character: cv as u64 },
                    end: Position { line: (lv - 1) as u64, character: (cv + wl) as u64 },
                },
                severity: DiagnosticSeverity::Information,
                source: "Spell Checker"@,
                code: None,
                message: "Maybe a spelling error, suggestion: "@ + s.subrange(j3 + 2, j4),
            },
        )
    } else {
        None
    }
}

/// The first position at or after `i` where the grammar matches.
pub open spec fn first_spell_match(s: Seq<char>, i: int) -> Option<int>
    decreases s.len() - i,
{
    if i >= s.len() {
        None
    } else if spell_match_at(s, i) {
        Some(i)
    } else {
        first_spell_match(s, i + 1)
    }
}

/// What one report line yields: nothing unless it opens with `&` or `#`,
/// else the diagnostic of its leftmost match, if any.
pub open spec fn spell_line_diag(line: Seq<char>) -> Option<DiagnosticView> {
    if line.len() > 0 && (line[0] == '&' || line[0] == '#') {
        match first_spell_match(line, 0) {
            Some(i) => spell_diag_at(line, i),
            None => None,
        }
    } else {
        None
    }
}

/// The diagnostics of the whole report, reading it line by line from
/// position `pos` (lines end at a line feed; one trailing carriage return
/// per line is dropped).
pub open spec fn spell_output_diags_from(s: Seq<char>, pos: int) -> Seq<DiagnosticView>
    decreases s.len() - pos,
{
    if pos < 0 || pos >= s.len() {
        Seq::empty()
    } else {
        let k = span_line(s, pos);
        if pos <= k < s.len() {
            opt_to_seq(spell_line_diag(strip_cr(s.subrange(pos, k)))) + spell_output_diags_from(
                s,
                k + 1,
            )
        } else {
            opt_to_seq(spell_line_diag(strip_cr(s.subrange(pos, s.len() as int))))
        }
    }
}

/// The diagnostics of the whole report.
pub open spec fn spell_output_diags(s: Seq<char>) -> Seq<DiagnosticView> {
    spell_output_diags_from(s, 0)
}

/// Tries the grammar at one position: reports whether it matches there, and
/// if so the diagnostic it denotes.
fn try_spell_at(line: &str, i: usize) -> (r: (bool, Option<Diagnostic>))
    requires
        i < line@.len(),
    ensures
        r.0 == spell_match_at(line@, i as int),
        r.0 ==> r.1.deep_view() == spell_diag_at(line@, i as int),
        !r.0 ==> r.1 is None,
{
    let n = line.unicode_len();
    if i + 1 >= n {
        return (false, None);
    }
    let mark = line.get_char(i);
    if !(mark == '&' || mark == '|' || mark == '#') {
        return (false, None);
    }
    if line.get_char(i + 1) != ' ' {
        return (false, None);
    }
    let j1 = scan_alpha(line, i + 2);
    if !(j1 > i + 2 && j1 < n && line.get_char(j1) == ' ') {
        return (false, None);
    }
    let j2 = scan_digits(line, j1 + 1);
    if !(j2 > j1 + 1 && j2 < n && line.get_char(j2) == ' ') {
        return (false, None);
    }
    let j3 = scan_digits(line, j2 + 1);
    if !(j3 > j2 + 1 && j3 < n && line.get_char(j3) == ':') {
        return (false, None);
    }
    if !(j3 + 1 < n && line.get_char(j3 + 1) == ' ') {
        return (false, None);
    }
    let j4 = scan_alpha(line, j3 + 2);
    if !(j4 > j3 + 2) {
        return (false, None);
    }
    proof {
        lemma_span_alpha(line@, i as int + 2);
        lemma_span_digits(line@, j1 as int + 1);
        lemma_span_digits(line@, j2 as int + 1);
        lemma_span_alpha(line@, j3 as int + 2);
    }
    let lv = match parse_u64(line, j1 + 1, j2) {
        Some(v) => v,
        None => {
            return (true, None);
        },
    };
    let cv = match parse_u64(line, j2 + 1, j3) {
        Some(v) => v,
        None => {
            return (true, None);
        },
    };
    if lv == 0 {
        return (true, None);
    }
    let wl = (j1 - (i + 2)) as u64;
    if wl > u64::MAX - cv {
        return (true, None);
    }
    let suggestion = line.substring_char(j3 + 2, j4);
    let mut message = "Maybe a spelling error, suggestion: ".to_owned();
    message.append(suggestion);
    let d = Diagnostic {
        range: Range::new_simple(lv - 1, cv, lv - 1, cv + wl),
        severity: DiagnosticSeverity::Information,
        source: "Spell Checker".to_owned(),
        code: None,
        message,
    };
    (true, Some(d))
}

/// Parses one report line: nothing unless it opens with `&` or `#`, else
/// the diagnostic of its leftmost match, if any.
pub fn parse_spell_line(line: &str) -> (r: Option<Diagnostic>)
    ensures
        r.deep_view() == spell_line_diag(line@),
{
    let n = line.unicode_len();
    if n == 0 {
        return None;
    }
    let first = line.get_char(0);
    if !(first == '&' || first == '#') {
        return None;
    }
    let mut i: usize = 0;
    while i < n
        invariant
            0 <= i <= n,
            n == line@.len(),
            line@.len() > 0 && (line@[0] == '&' || line@[0] == '#'),
            first_spell_match(line@, 0) == first_spell_match(line@, i as int),
        decreases n - i,
    {
        let (matched, d) = try_spell_at(line, i);
        if matched {
            return d;
        }
        i = i + 1;
    }
    None
}

/// Parses a whole report into diagnostics, line by line, in order.
pub fn parse_spell_output(text: &str) -> (r: Vec<Diagnostic>)
    ensures
        r.deep_view() == spell_output_diags(text@),
{
    let n = text.unicode_len();
    let mut out: Vec<Diagnostic> = Vec::new();
    let mut pos: usize = 0;
    while pos < n
        invariant
            0 <= pos <= n,
            n == text@.len(),
            out.deep_view() + spell_output_diags_from(text@, pos as int) == spell_output_diags(
                text@,
            ),
        decreases n - pos,
    {
        let k = scan_line(text, pos);
        let end = if k > pos && text.get_char(k - 1) == '\r' {
            k - 1
        } else {
            k
        };
        let line = text.substring_char(pos, end);
        proof {
            lemma_span_line(text@, pos as int);
            assert(line@ =~= strip_cr(text@.subrange(pos as int, k as int)));
        }
        let ghost out0 = out.deep_view();
        let d = parse_spell_line(line);
        match d {
            Some(diag) => out.push(diag),
            None => {},
        }
        proof {
            assert(out.deep_view() =~= out0 + opt_to_seq(spell_line_diag(line@)));
        }
        let ghost oldpos = pos as int;
        if k < n {
            pos = k + 1;
        } else {
            pos = n;
        }
        proof {
            if k < n {
                assert(spell_output_diags_from(text@, oldpos) == opt_to_seq(
                    spell_line_diag(line@),
                ) + spell_output_diags_from(text@, pos as int));
            } else {
                assert(text@.subrange(oldpos, text@.len() as int) == text@.subrange(
                    oldpos,
                    k as int,
                ));
                assert(spell_output_diags_from(text@, oldpos) =~= opt_to_seq(
                    spell_line_diag(line@),
                ) + spell_output_diags_from(text@, pos as int));
            }
            assert((out0 + opt_to_seq(spell_line_diag(line@))) + spell_output_diags_from(
                text@,
                pos as int,
            ) =~= out0 + (opt_to_seq(spell_line_diag(line@)) + spell_output_diags_from(
                text@,
                pos as int,
            )));
        }
    }
    out
}

/// The spell-checker provider: a per-document cache of the diagnostics last
/// produced, and one global throttle timestamp shared by all documents.
pub struct EnglishDiagnosticsProvider {
    diagnostics_by_uri: DiagnosticsCache,
    last_lint_time: u64,
}

impl EnglishDiagnosticsProvider {
    /// The cached diagnostics, per document identity.
    pub closed spec fn diagnostics(&self) -> Map<Seq<char>, Seq<DiagnosticView>> {
        self.diagnostics_by_uri@
    }

    /// When the tool last ran, in seconds.
    pub closed spec fn last_time(&self) -> u64 {
        self.last_lint_time
    }

    /// The cache keeps one entry per document.
    pub closed spec fn wf(&self) -> bool {
        self.diagnostics_by_uri.wf()
    }

    /// A provider that has never run its tool.
    pub fn new() -> (p: EnglishDiagnosticsProvider)
        ensures
            p.wf(),
            p.diagnostics() == Map::<Seq<char>, Seq<DiagnosticView>>::empty(),
            p.last_time() == 0,
    {
        EnglishDiagnosticsProvider {
            diagnostics_by_uri: DiagnosticsCache::new(),
            last_lint_time: 0,
        }
    }

    /// The diagnostics last produced for `uri`, or the empty set if it was
    /// never linted.
    pub fn get(&self, uri: &Uri) -> (r: Vec<Diagnostic>)
        requires
            self.wf(),
        ensures
            r.deep_view() == stored_diags(self.diagnostics(), uri@),
    {
        self.diagnostics_by_uri.get(uri)
    }

    /// A document changed at time `now`: decides whether the tool is due.
    /// Non-local documents never trigger it; otherwise it runs exactly when
    /// the configured interval has elapsed since the last pass, and the
    /// throttle timestamp is advanced. The cache is untouched either way;
    /// the caller runs the tool and hands its output to [`Self::record`].
    pub fn update(&mut self, uri: &Uri, now: u64) -> (invoke: bool)
        requires
            old(self).wf(),
        ensures
            final(self).wf(),
            invoke == should_lint(uri@, now, old(self).last_time(), ENGLISH_LINT_INTERVAL_SECS),
            final(self).diagnostics() == old(self).diagnostics(),
            invoke ==> final(self).last_time() == now,
            !invoke ==> final(self).last_time() == old(self).last_time(),
    {
        if !uri.is_local() {
            return false;
        }
        if now >= self.last_lint_time && now - self.last_lint_time >= ENGLISH_LINT_INTERVAL_SECS {
            self.last_lint_time = now;
            true
        } else {
            false
        }
    }

    /// Stores the outcome of one tool pass over `uri`: the parsed report, or
    /// the empty set when the tool could not be run or its output not read.
    /// The entry is replaced as a whole.
    pub fn record(&mut self, uri: &Uri, output: Option<&str>)
        requires
            old(self).wf(),
        ensures
            final(self).wf(),
            final(self).last_time() == old(self).last_time(),
            output matches Some(o) ==> final(self).diagnostics() == old(self).diagnostics().insert(
                uri@,
                spell_output_diags(o@),
            ),
            output is None ==> final(self).diagnostics() == old(self).diagnostics().insert(
                uri@,
                Seq::<DiagnosticView>::empty(),
            ),
    {
        let diags = match output {
            Some(o) => parse_spell_output(o),
            None => Vec::new(),
        };
        proof {
            if output is None {
                assert(diags.deep_view() =~= Seq::<DiagnosticView>::empty());
            }
        }
        self.diagnostics_by_uri.set(uri, diags);
    }
}

impl Default for EnglishDiagnosticsProvider {
    /// Same as [`EnglishDiagnosticsProvider::new`].
    fn default() -> (p: EnglishDiagnosticsProvider)
        ensures
            p.wf(),
            p.diagnostics() == Map::<Seq<char>, Seq<DiagnosticView>>::empty(),
            p.last_time() == 0,
    {
        EnglishDiagnosticsProvider::new()
    }
}

} // verus!
