//! Diagnostics: one rate-limited provider per external linter, and a manager
//! that aggregates their per-document results into a single set.

use vstd::prelude::*;

pub mod english;
pub mod latex;

use crate::diag::{Diagnostic, DiagnosticView};
use crate::uri::{is_local_id, Uri};
use english::EnglishDiagnosticsProvider;
use latex::LatexDiagnosticsProvider;

verus! {

/// Whether a linter pass is due: only local, file-backed documents are
/// linted, and a pass is skipped exactly when less than the tool's
/// re-invocation interval has gone by since the last pass (over any
/// document).
pub open spec fn should_lint(uri: Seq<char>, now: u64, last: u64, interval: u64) -> bool {
    is_local_id(uri) && now >= last + interval
}

/// A linter that has just run at `now1` does not run again before its
/// interval has elapsed, whatever documents change in between: two updates
/// within one interval trigger at most one tool invocation.
pub proof fn lemma_rate_limit(
    uri1: Seq<char>,
    uri2: Seq<char>,
    now1: u64,
    now2: u64,
    last: u64,
    interval: u64,
)
    requires
        should_lint(uri1, now1, last, interval),
        now2 < now1 + interval,
    ensures
        !should_lint(uri2, now2, now1, interval),
{
}

/// Once the interval has elapsed, an update for a local document invokes the
/// tool again.
pub proof fn lemma_relint_after_interval(uri: Seq<char>, now1: u64, now2: u64, interval: u64)
    requires
        is_local_id(uri),
        now2 >= now1 + interval,
    ensures
        should_lint(uri, now2, now1, interval),
{
}

/// A non-local document is never handed to a linter's external tool, at any
/// time and in any throttle state.
pub proof fn lemma_non_local_never_linted(uri: Seq<char>, now: u64, last: u64, interval: u64)
    requires
        !is_local_id(uri),
    ensures
        !should_lint(uri, now, last, interval),
{
}

/// Owns one cache slot per linter and merges their per-document diagnostics.
pub struct DiagnosticsManager {
    pub latex: LatexDiagnosticsProvider,
    pub english: EnglishDiagnosticsProvider,
}

impl DiagnosticsManager {
    /// Both providers' caches are well formed.
    pub open spec fn wf(&self) -> bool {
        self.latex.wf() && self.english.wf()
    }

    /// A manager whose linters have not run yet.
    pub fn new() -> (m: DiagnosticsManager)
        ensures
            m.wf(),
            m.latex.diagnostics() == Map::<Seq<char>, Seq<DiagnosticView>>::empty(),
            m.english.diagnostics() == Map::<Seq<char>, Seq<DiagnosticView>>::empty(),
    {
        DiagnosticsManager {
            latex: LatexDiagnosticsProvider::new(),
            english: EnglishDiagnosticsProvider::new(),
        }
    }

    /// The aggregated diagnostics for one document: the concatenation of each
    /// tool's last cached result, in fixed tool order (style linter first,
    /// then spell checker). Nothing is deduplicated, and nothing is cached at
    /// this level: the aggregate is recomputed on every read.
    pub fn get(&self, uri: &Uri) -> (r: Vec<Diagnostic>)
        requires
            self.wf(),
        ensures
            r.deep_view() == crate::cache::stored_diags(self.latex.diagnostics(), uri@)
                + crate::cache::stored_diags(self.english.diagnostics(), uri@),
    {
        let mut r = self.latex.get(uri);
        let mut e = self.english.get(uri);
        r.append(&mut e);
        r
    }
}

impl Default for DiagnosticsManager {
    /// Same as [`DiagnosticsManager::new`].
    fn default() -> (m: DiagnosticsManager)
        ensures
            m.wf(),
            m.latex.diagnostics() == Map::<Seq<char>, Seq<DiagnosticView>>::empty(),
            m.english.diagnostics() == Map::<Seq<char>, Seq<DiagnosticView>>::empty(),
    {
        DiagnosticsManager::new()
    }
}

/// A document that no linter has touched has an empty aggregate.
pub proof fn lemma_untouched_document_empty(m: &DiagnosticsManager, uri: Seq<char>)
    requires
        !m.latex.diagnostics().contains_key(uri),
        !m.english.diagnostics().contains_key(uri),
    ensures
        crate::cache::stored_diags(m.latex.diagnostics(), uri) + crate::cache::stored_diags(
            m.english.diagnostics(),
            uri,
        ) =~= Seq::<DiagnosticView>::empty(),
{
}

} // verus!
