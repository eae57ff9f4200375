//! The per-document diagnostics cache of one linter: a finite map from a
//! document identity to the diagnostic set last produced for it. An entry is
//! only ever replaced as a whole; an absent entry means the document was
//! never linted, which is distinct from an empty cached set.

use vstd::prelude::*;

use crate::diag::{duplicate_diags, Diagnostic, DiagnosticView};
use crate::uri::Uri;

verus! {

struct CacheEntry {
    uri: Uri,
    diags: Vec<Diagnostic>,
}

/// One linter's cache, modelled as a map from document identity to the
/// diagnostics last stored for it.
pub struct DiagnosticsCache {
    entries: Vec<CacheEntry>,
}

spec fn entries_map(s: Seq<CacheEntry>) -> Map<Seq<char>, Seq<DiagnosticView>>
    decreases s.len(),
{
    if s.len() == 0 {
        Map::empty()
    } else {
        entries_map(s.drop_last()).insert(s.last().uri@, s.last().diags.deep_view())
    }
}

spec fn unique_keys(s: Seq<CacheEntry>) -> bool {
    forall|i: int, j: int| 0 <= i < j < s.len() ==> s[i].uri@ != s[j].uri@
}

proof fn lemma_entries_map_contains(s: Seq<CacheEntry>, k: Seq<char>)
    ensures
        entries_map(s).contains_key(k) <==> exists|i: int| 0 <= i < s.len() && s[i].uri@ == k,
    decreases s.len(),
{
    if s.len() > 0 {
        lemma_entries_map_contains(s.drop_last(), k);
        if s.last().uri@ == k {
            assert(s[s.len() - 1].uri@ == k);
        } else if entries_map(s).contains_key(k) {
            let i = choose|i: int| 0 <= i < s.drop_last().len() && s.drop_last()[i].uri@ == k;
            assert(s[i].uri@ == k);
        } else if exists|i: int| 0 <= i < s.len() && s[i].uri@ == k {
            let i = choose|i: int| 0 <= i < s.len() && s[i].uri@ == k;
            assert(s.drop_last()[i].uri@ == k);
        }
    }
}

proof fn lemma_entries_map_get(s: Seq<CacheEntry>, i: int)
    requires
        unique_keys(s),
        0 <= i < s.len(),
    ensures
        entries_map(s).contains_key(s[i].uri@),
        entries_map(s)[s[i].uri@] == s[i].diags.deep_view(),
    decreases s.len(),
{
    if i == s.len() - 1 {
    } else {
        assert(s.drop_last()[i] == s[i]);
        lemma_entries_map_get(s.drop_last(), i);
    }
}

proof fn lemma_entries_map_remove(s: Seq<CacheEntry>, i: int)
    requires
        unique_keys(s),
        0 <= i < s.len(),
    ensures
        entries_map(s.remove(i)) == entries_map(s).remove(s[i].uri@),
        unique_keys(s.remove(i)),
        forall|j: int| 0 <= j < s.remove(i).len() ==> s.remove(i)[j].uri@ != s[i].uri@,
    decreases s.len(),
{
    let k = s[i].uri@;
    assert forall|j: int| 0 <= j < s.remove(i).len() implies s.remove(i)[j].uri@ != k by {
        if j < i {
            assert(s.remove(i)[j] == s[j]);
        } else {
            assert(s.remove(i)[j] == s[j + 1]);
        }
    }
    assert forall|a: int, b: int| 0 <= a < b < s.remove(i).len() implies s.remove(i)[a].uri@
        != s.remove(i)[b].uri@ by {
        if a < i {
            assert(s.remove(i)[a] == s[a]);
        } else {
            assert(s.remove(i)[a] == s[a + 1]);
        }
        if b < i {
            assert(s.remove(i)[b] == s[b]);
        } else {
            assert(s.remove(i)[b] == s[b + 1]);
        }
    }
    if i == s.len() - 1 {
        assert(s.remove(i) =~= s.drop_last());
        lemma_entries_map_contains(s.drop_last(), k);
        assert(entries_map(s.drop_last()) =~= entries_map(s).remove(k));
    } else {
        assert(s.remove(i).drop_last() =~= s.drop_last().remove(i));
        assert(s.remove(i).last() == s.last());
        lemma_entries_map_remove(s.drop_last(), i);
        assert(s.drop_last()[i] == s[i]);
        assert(entries_map(s.remove(i)) == entries_map(s.drop_last()).remove(k).insert(
            s.last().uri@,
            s.last().diags.deep_view(),
        ));
        assert(entries_map(s).remove(k) =~= entries_map(s.drop_last()).remove(k).insert(
            s.last().uri@,
            s.last().diags.deep_view(),
        ));
    }
}

impl View for DiagnosticsCache {
    type V = Map<Seq<char>, Seq<DiagnosticView>>;

    closed spec fn view(&self) -> Map<Seq<char>, Seq<DiagnosticView>> {
        entries_map(self.entries@)
    }
}

/// What a lookup of `k` in `m` yields: the stored diagnostics, or the empty
/// set for a document that was never linted.
pub open spec fn stored_diags(m: Map<Seq<char>, Seq<DiagnosticView>>, k: Seq<char>) -> Seq<
    DiagnosticView,
> {
    if m.contains_key(k) {
        m[k]
    } else {
        Seq::empty()
    }
}

impl DiagnosticsCache {
    /// The cache keeps at most one entry per document.
    pub closed spec fn wf(&self) -> bool {
        unique_keys(self.entries@)
    }

    /// An empty cache: no document has been linted yet.
    pub fn new() -> (c: DiagnosticsCache)
        ensures
            c.wf(),
            c@ == Map::<Seq<char>, Seq<DiagnosticView>>::empty(),
    {
        DiagnosticsCache { entries: Vec::new() }
    }

    /// The diagnostics last stored for `uri`, or the empty set if it was
    /// never linted.
    pub fn get(&self, uri: &Uri) -> (r: Vec<Diagnostic>)
        requires
            self.wf(),
        ensures
            r.deep_view() == stored_diags(self@, uri@),
    {
        let n = self.entries.len();
        let mut i: usize = 0;
        while i < n
            invariant
                0 <= i <= n,
                n == self.entries@.len(),
                self.wf(),
                forall|j: int| 0 <= j < i ==> self.entries@[j].uri@ != uri@,
            decreases n - i,
        {
            if self.entries[i].uri.same_as(uri) {
                proof {
                    lemma_entries_map_get(self.entries@, i as int);
                }
                return duplicate_diags(&self.entries[i].diags);
            }
            i = i + 1;
        }
        proof {
            lemma_entries_map_contains(self.entries@, uri@);
        }
        Vec::new()
    }

    /// Replaces the entry for `uri` as a whole with `diags`.
    pub fn set(&mut self, uri: &Uri, diags: Vec<Diagnostic>)
        requires
            old(self).wf(),
        ensures
            final(self).wf(),
            final(self)@ == old(self)@.insert(uri@, diags.deep_view()),
    {
        let n = self.entries.len();
        let mut i: usize = 0;
        while i < n
            invariant
                0 <= i <= n,
                n == self.entries@.len(),
                self.wf(),
                self == old(self),
                forall|j: int| 0 <= j < i ==> self.entries@[j].uri@ != uri@,
            decreases n - i,
        {
            if self.entries[i].uri.same_as(uri) {
                proof {
                    lemma_entries_map_remove(self.entries@, i as int);
                }
                let ghost before = self.entries@;
                self.entries.remove(i);
                let ghost removed = self.entries@;
                self.entries.push(CacheEntry { uri: uri.duplicate(), diags });
                proof {
                    assert(self.entries@.drop_last() =~= removed);
                    assert(entries_map(self.entries@) == entries_map(removed).insert(
                        uri@,
                        diags.deep_view(),
                    ));
                    assert(entries_map(self.entries@) =~= old(self)@.insert(
                        uri@,
                        diags.deep_view(),
                    ));
                    assert forall|a: int, b: int|
                        0 <= a < b < self.entries@.len() implies self.entries@[a].uri@
                        != self.entries@[b].uri@ by {
                        if b < self.entries@.len() - 1 {
                            assert(self.entries@[a] == removed[a]);
                            assert(self.entries@[b] == removed[b]);
                        } else {
                            assert(self.entries@[a] == removed[a]);
                            assert(removed[a].uri@ != before[i as int].uri@);
                        }
                    }
                }
                return ;
            }
            i = i + 1;
        }
        proof {
            lemma_entries_map_contains(self.entries@, uri@);
        }
        let ghost before = self.entries@;
        self.entries.push(CacheEntry { uri: uri.duplicate(), diags });
        proof {
            assert(self.entries@.drop_last() =~= before);
            assert(entries_map(self.entries@) =~= old(self)@.insert(uri@, diags.deep_view()));
            assert forall|a: int, b: int|
                0 <= a < b < self.entries@.len() implies self.entries@[a].uri@
                != self.entries@[b].uri@ by {
                assert(self.entries@[a] == before[a]);
                if b < self.entries@.len() - 1 {
                    assert(self.entries@[b] == before[b]);
                }
            }
        }
    }
}

} // verus!
