//! The two linters: their line grammars, their throttling, their caches,
//! and the aggregated per-document view.

use texlab::diagnostics::english::{parse_spell_line, parse_spell_output};
use texlab::diagnostics::latex::{parse_style_line, parse_style_output};
use texlab::{
    Diagnostic, DiagnosticSeverity, DiagnosticsManager, EnglishDiagnosticsProvider,
    LatexDiagnosticsProvider, Position, Range, Uri,
};

fn range(start_line: u64, start_character: u64, end_line: u64, end_character: u64) -> Range {
    Range {
        start: Position { line: start_line, character: start_character },
        end: Position { line: end_line, character: end_character },
    }
}

#[test]
fn style_line_parses_warning() {
    let d = parse_style_line("5:10:3:Warning:12:Command terminated with space.").unwrap();
    assert_eq!(d.range, range(4, 9, 4, 12));
    assert_eq!(d.severity, DiagnosticSeverity::Warning);
    assert_eq!(d.source, "chktex");
    assert_eq!(d.code, Some("12".to_string()));
    assert_eq!(d.message, "Command terminated with space.");
}

#[test]
fn style_line_severities() {
    let info = parse_style_line("1:1:1:Message:2:note").unwrap();
    assert_eq!(info.severity, DiagnosticSeverity::Information);
    let err = parse_style_line("1:1:1:Fatal:2:boom").unwrap();
    assert_eq!(err.severity, DiagnosticSeverity::Error);
}

#[test]
fn style_line_matches_after_leading_garbage() {
    let d = parse_style_line("xx5:10:3:Warning:12:msg").unwrap();
    assert_eq!(d.range, range(4, 9, 4, 12));
    assert_eq!(d.code, Some("12".to_string()));
}

#[test]
fn style_line_rejects_malformed() {
    assert!(parse_style_line("").is_none());
    assert!(parse_style_line("not a finding").is_none());
    assert!(parse_style_line("5:10:3:Warning:12").is_none());
    // a line or column of zero leaves no room for the one-based shift
    assert!(parse_style_line("0:10:3:Warning:12:msg").is_none());
    assert!(parse_style_line("5:0:3:Warning:12:msg").is_none());
    // a number too large for a 64-bit value fails the conversion
    assert!(parse_style_line("99999999999999999999:1:1:Warning:12:msg").is_none());
    // a range that would run past the largest column is skipped
    assert!(parse_style_line("1:18446744073709551615:2:Warning:1:msg").is_none());
}

#[test]
fn style_line_message_may_hold_colons() {
    let d = parse_style_line("1:2:3:Warning:4:a: b: c").unwrap();
    assert_eq!(d.message, "a: b: c");
    let empty = parse_style_line("1:2:3:Warning:4:").unwrap();
    assert_eq!(empty.message, "");
}

#[test]
fn empty_output_yields_no_diagnostics() {
    assert!(parse_style_output("").is_empty());
    assert!(parse_spell_output("").is_empty());
}

#[test]
fn style_output_keeps_line_order_and_skips_noise() {
    let text = "1:2:3:Warning:24:first\r\ngarbage in between\n7:1:2:Message:8:second\n";
    let ds = parse_style_output(text);
    assert_eq!(ds.len(), 2);
    assert_eq!(ds[0].message, "first");
    assert_eq!(ds[0].range, range(0, 1, 0, 4));
    assert_eq!(ds[1].message, "second");
    assert_eq!(ds[1].severity, DiagnosticSeverity::Information);
}

#[test]
fn spell_line_parses_misspelling() {
    let d = parse_spell_line("& hte 1 3: the, he").unwrap();
    assert_eq!(d.range, range(0, 3, 0, 6));
    assert_eq!(d.severity, DiagnosticSeverity::Information);
    assert_eq!(d.source, "Spell Checker");
    assert_eq!(d.code, None);
    assert_eq!(d.message, "Maybe a spelling error, suggestion: the");
}

#[test]
fn spell_line_ignores_other_marks() {
    assert!(parse_spell_line("* correct").is_none());
    assert!(parse_spell_line("| pipe led line").is_none());
    assert!(parse_spell_line("plain prose").is_none());
    assert!(parse_spell_line("").is_none());
}

#[test]
fn spell_line_rejects_malformed() {
    assert!(parse_spell_line("& hte 1 3 the").is_none());
    assert!(parse_spell_line("& hte 0 3: the").is_none());
    assert!(parse_spell_line("# 12 1 3: the").is_none());
}

#[test]
fn spell_output_collects_flagged_words() {
    let text = "* \n& hte 1 3: the, he\n# wrlod 2 7: world\n* \n";
    let ds = parse_spell_output(text);
    assert_eq!(ds.len(), 2);
    assert_eq!(ds[0].message, "Maybe a spelling error, suggestion: the");
    assert_eq!(ds[1].range, range(1, 7, 1, 12));
    assert_eq!(ds[1].message, "Maybe a spelling error, suggestion: world");
}

#[test]
fn latex_provider_throttles_and_caches() {
    let mut p = LatexDiagnosticsProvider::default();
    let uri = Uri::new("file:///doc/foo.tex".to_string());
    assert!(p.get(&uri).is_empty());
    // first update after the interval elapses runs the tool
    assert!(p.update(&uri, 100));
    p.record(&uri, Some("5:10:3:Warning:12:msg"));
    assert_eq!(p.get(&uri).len(), 1);
    // a second update within the interval does not run it again
    assert!(!p.update(&uri, 150));
    assert!(!p.update(&uri, 159));
    assert_eq!(p.get(&uri).len(), 1);
    // at exactly the interval it runs again, and the entry is replaced as
    // a whole
    assert!(p.update(&uri, 160));
    p.record(&uri, None);
    assert!(p.get(&uri).is_empty());
}

#[test]
fn english_provider_uses_short_interval() {
    let mut p = EnglishDiagnosticsProvider::default();
    let uri = Uri::new("file:///doc/foo.tex".to_string());
    assert!(p.update(&uri, 11));
    // strictly within the interval: skipped
    assert!(!p.update(&uri, 20));
    // exactly the interval later: runs again
    assert!(p.update(&uri, 21));
}

#[test]
fn non_local_documents_are_never_linted() {
    let mut latex = LatexDiagnosticsProvider::default();
    let mut english = EnglishDiagnosticsProvider::default();
    let untitled = Uri::new("untitled:scratch".to_string());
    assert!(!latex.update(&untitled, 1_000_000));
    assert!(!english.update(&untitled, 1_000_000));
}

#[test]
fn throttle_is_global_across_documents() {
    let mut p = EnglishDiagnosticsProvider::default();
    let a = Uri::new("file:///a.tex".to_string());
    let b = Uri::new("file:///b.tex".to_string());
    assert!(p.update(&a, 100));
    // another document inside the same interval is throttled too
    assert!(!p.update(&b, 105));
}

#[test]
fn aggregate_concatenates_in_fixed_tool_order() {
    let mut m = DiagnosticsManager::default();
    let uri = Uri::new("file:///doc/foo.tex".to_string());
    assert!(m.latex.update(&uri, 100));
    m.latex.record(&uri, Some("5:10:3:Warning:12:style finding"));
    assert!(m.english.update(&uri, 100));
    m.english.record(&uri, Some("& hte 1 3: the"));
    let ds: Vec<Diagnostic> = m.get(&uri);
    assert_eq!(ds.len(), 2);
    assert_eq!(ds[0].source, "chktex");
    assert_eq!(ds[1].source, "Spell Checker");
}

#[test]
fn aggregate_of_untouched_document_is_empty() {
    let m = DiagnosticsManager::default();
    let uri = Uri::new("file:///doc/untouched.tex".to_string());
    assert!(m.get(&uri).is_empty());
}

#[test]
fn cache_entries_are_per_document() {
    let mut p = LatexDiagnosticsProvider::default();
    let a = Uri::new("file:///a.tex".to_string());
    let b = Uri::new("file:///b.tex".to_string());
    assert!(p.update(&a, 100));
    p.record(&a, Some("1:1:1:Warning:2:only in a"));
    assert_eq!(p.get(&a).len(), 1);
    assert!(p.get(&b).is_empty());
    p.record(&b, Some("1:1:1:Warning:2:x\n2:2:2:Warning:3:y"));
    assert_eq!(p.get(&b).len(), 2);
    assert_eq!(p.get(&a).len(), 1);
}

#[test]
fn uri_locality_and_path() {
    let local = Uri::new("file:///home/user/doc.tex".to_string());
    assert!(local.is_local());
    assert_eq!(local.local_path(), Some("/home/user/doc.tex".to_string()));
    let remote = Uri::new("https://example.com/doc.tex".to_string());
    assert!(!remote.is_local());
    assert_eq!(remote.local_path(), None);
}
